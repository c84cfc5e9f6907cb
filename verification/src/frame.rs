//! The transitions of the game, one function per state.

use vstd::prelude::*;
use rand::rngs::ThreadRng;
use crate::combat::{
    hits_count, hits_gain, obstacles_after, projectiles_after, resolve_hits, Tally,
};
use crate::entity::{axis, Field, Obstacle, Player, Projectile, START_LIVES};
use crate::game::{Effects, Game, GameState, GameView, Input};
use crate::lifecycle::{
    advance_obstacles, advance_projectiles, fallen, kept_obstacles, kept_projectiles,
    prune_obstacles, prune_projectiles, risen,
};
use crate::spawner::{spawn, spawnable};
use crate::units::{COOLDOWN_FLOOR, COORD_LIMIT, ENTITY_CAP, SCORE_LIMIT, TICK_LIMIT};

verus! {

/// `newcomer` is something that the spawner can hand to a frame on `field`.
pub open spec fn spawn_outcome(newcomer: Option<Obstacle>, field: &Field) -> bool {
    newcomer matches Some(born) ==> spawnable(&born, field)
}

impl Game {
    /// A game in the menu, with the high score that was stored.
    pub fn new(field: Field, high_score: i64) -> (g: Game)
        requires
            field.wf(),
        ensures
            g@ == (GameView {
                state: GameState::Menu,
                field,
                player: Player::fresh(START_LIVES, &field),
                obstacles: Seq::empty(),
                projectiles: Seq::empty(),
                score: 0,
                high_score,
                cooldown: 0,
            }),
            g@.wf(),
    {
        Game {
            state: GameState::Menu,
            field,
            player: Player::new(START_LIVES, &field),
            obstacles: Vec::new(),
            projectiles: Vec::new(),
            score: 0,
            high_score,
            cooldown: 0,
        }
    }

    /// Whether a frame of play can start.
    pub fn is_ready(&self) -> (yes: bool)
        ensures
            yes == self@.ready(),
    {
        self.obstacles.len() < ENTITY_CAP && self.projectiles.len() < ENTITY_CAP && -SCORE_LIMIT
            <= self.score && self.score <= SCORE_LIMIT && COOLDOWN_FLOOR <= self.cooldown
    }

    /// Starts a new attempt: empties the field and places a new player
    /// with `lives`.
    pub fn new_attempt(&mut self, lives: i8)
        requires
            old(self).field.wf(),
        ensures
            final(self)@ == old(self)@.restarted(lives),
            final(self)@.wf(),
    {
        self.obstacles.clear();
        self.projectiles.clear();
        self.player = Player::new(lives, &self.field);
    }

    /// Replaces the high score by the score if the score strictly exceeds
    /// it, and says what has to be stored then.
    pub fn settle_high_score(&mut self) -> (stored: Option<i64>)
        ensures
            final(self)@ == (GameView {
                high_score: crate::game::settled(old(self).high_score, old(self).score),
                ..old(self)@
            }),
            stored == crate::game::record(old(self).high_score, old(self).score),
    {
        if self.high_score < self.score {
            self.high_score = self.score;
            Some(self.score)
        } else {
            None
        }
    }

    /// One frame in the menu: a start input begins an attempt from a score
    /// of zero; an exit input asks the caller to end the process.
    pub fn menu_frame(&mut self, input: &Input) -> (effects: Effects)
        requires
            old(self)@.wf(),
        ensures
            final(self)@ == old(self)@.menu_next(input),
            effects == old(self)@.menu_effects(input),
            final(self)@.wf(),
    {
        if input.start {
            self.new_attempt(START_LIVES);
            self.score = 0;
            self.state = GameState::Playing;
        }
        Effects { shot: false, kills: 0, death: false, persist: None, exit: input.exit }
    }

    /// One frame on the game-over screen: a retry input settles the high
    /// score and begins an attempt from a score of zero; an exit input
    /// settles the high score and asks the caller to end the process.
    pub fn game_over_frame(&mut self, input: &Input) -> (effects: Effects)
        requires
            old(self)@.wf(),
        ensures
            final(self)@ == old(self)@.game_over_next(input),
            effects == old(self)@.game_over_effects(input),
            final(self)@.wf(),
    {
        let mut persist: Option<i64> = None;
        if input.start {
            persist = self.settle_high_score();
            self.score = 0;
            self.new_attempt(START_LIVES);
            self.state = GameState::Playing;
        }
        if input.exit {
            let later: Option<i64> = self.settle_high_score();
            if later.is_some() {
                persist = later;
            }
        }
        Effects { shot: false, kills: 0, death: false, persist, exit: input.exit }
    }

    /// The first part of a frame of play: the player moves, fires if the
    /// key is held and the cooldown is over, and the cooldown falls by the
    /// elapsed time.
    fn steer_and_fire(&mut self, input: &Input, elapsed: i64) -> (shot: bool)
        requires
            old(self)@.wf(),
            COOLDOWN_FLOOR <= old(self).cooldown,
            0 <= elapsed <= TICK_LIMIT,
        ensures
            shot == old(self)@.fires(input),
            final(self)@ == (GameView {
                player: old(self)@.steered(input, elapsed),
                projectiles: if shot {
                    old(self)@.projectiles.push(
                        Projectile::fired(
                            old(self)@.steered(input, elapsed).circle.x,
                            old(self)@.steered(input, elapsed).circle.y,
                        ),
                    )
                } else {
                    old(self)@.projectiles
                },
                cooldown: old(self)@.cooled(input, elapsed),
                ..old(self)@
            }),
            final(self).player.wf(),
            forall|i: int|
                0 <= i < final(self).projectiles.len() ==> (#[trigger] final(self).projectiles[i]).wf() && -2 * COORD_LIMIT <= final(self).projectiles[i].rect.y,
    {
        let width: i64 = self.field.width;
        self.player.movement(
            axis(input.left, input.right),
            axis(input.up, input.down),
            elapsed,
            width,
        );
        let shot: bool = input.fire && self.cooldown <= 0;
        if shot {
            self.projectiles.push(Projectile::new(self.player.circle.x, self.player.circle.y));
            self.cooldown = self.player.reload;
        }
        self.cooldown = self.cooldown - elapsed;
        shot
    }

    /// The second part: the newcomer joins the obstacles, and every
    /// obstacle and projectile moves.
    fn set_in_motion(&mut self, elapsed: i64, newcomer: Option<Obstacle>)
        requires
            old(self).field.wf(),
            0 <= elapsed <= TICK_LIMIT,
            newcomer matches Some(born) ==> born.rests(&old(self).field),
            forall|i: int|
                0 <= i < old(self).obstacles.len() ==> (#[trigger] old(self).obstacles[i]).rests(
                    &old(self).field,
                ),
            forall|i: int|
                0 <= i < old(self).projectiles.len() ==> (#[trigger] old(self).projectiles[i]).wf() && -2 * COORD_LIMIT <= old(self).projectiles[i].rect.y,
        ensures
            final(self)@ == (GameView {
                obstacles: fallen(
                    match newcomer {
                        Some(o) => old(self)@.obstacles.push(o),
                        None => old(self)@.obstacles,
                    },
                    elapsed,
                ),
                projectiles: risen(old(self)@.projectiles, elapsed),
                ..old(self)@
            }),
            forall|i: int|
                0 <= i < final(self).obstacles.len() ==> (#[trigger] final(self).obstacles[i]).wf()
                    && final(self).obstacles[i].health > 0,
            forall|i: int|
                0 <= i < final(self).projectiles.len() ==> (#[trigger] final(self).projectiles[i]).wf(),
    {
        match newcomer {
            Some(born) => {
                self.obstacles.push(born);
            },
            None => {},
        }
        advance_projectiles(&mut self.projectiles, elapsed);
        advance_obstacles(&mut self.obstacles, elapsed);
    }

    /// The third part: hits are resolved and scored, and the player is
    /// tested against the obstacles.
    fn collide(&mut self) -> (tally: Tally)
        requires
            old(self).player.wf(),
            old(self).obstacles.len() <= ENTITY_CAP,
            old(self).projectiles.len() <= ENTITY_CAP,
            -SCORE_LIMIT <= old(self).score <= SCORE_LIMIT,
            forall|i: int|
                0 <= i < old(self).obstacles.len() ==> (#[trigger] old(self).obstacles[i]).wf()
                    && old(self).obstacles[i].health > 0,
            forall|i: int|
                0 <= i < old(self).projectiles.len() ==> (#[trigger] old(self).projectiles[i]).wf(),
        ensures
            final(self)@ == (GameView {
                obstacles: obstacles_after(
                    old(self)@.projectiles,
                    old(self)@.obstacles,
                    old(self)@.projectiles.len() as int,
                ),
                projectiles: projectiles_after(old(self)@.projectiles, old(self)@.obstacles),
                score: (old(self).score + tally.gain) as i64,
                player: Player {
                    death: old(self).player.death || old(self).player.touches_any(
                        final(self)@.obstacles,
                    ),
                    ..old(self).player
                },
                ..old(self)@
            }),
            tally.gain == hits_gain(
                old(self)@.projectiles,
                old(self)@.obstacles,
                old(self)@.projectiles.len() as int,
            ),
            tally.kills == hits_count(
                old(self)@.projectiles,
                old(self)@.obstacles,
                old(self)@.projectiles.len() as int,
            ),
            -i64::MAX <= old(self).score + tally.gain <= i64::MAX,
            final(self).obstacles.len() == old(self).obstacles.len(),
            final(self).projectiles.len() == old(self).projectiles.len(),
            forall|i: int|
                0 <= i < final(self).obstacles.len() ==> (#[trigger] final(self).obstacles[i]).wf(),
            forall|i: int|
                0 <= i < final(self).projectiles.len() ==> (#[trigger] final(self).projectiles[i]).wf(),
    {
        let tally: Tally = resolve_hits(&mut self.projectiles, &mut self.obstacles);
        self.score = self.score + tally.gain;
        self.player.check_collisions(&self.obstacles);
        tally
    }

    /// The last part: on death the player respawns with one life less or
    /// the game is over; unless the field was emptied for a respawn, what
    /// is dead or gone is pruned.
    fn conclude(&mut self)
        requires
            old(self).field.wf(),
            old(self).player.wf(),
            2 * old(self).player.circle.r <= old(self).field.width,
            old(self).obstacles.len() <= ENTITY_CAP,
            old(self).projectiles.len() <= ENTITY_CAP,
            forall|i: int|
                0 <= i < old(self).obstacles.len() ==> (#[trigger] old(self).obstacles[i]).wf(),
            forall|i: int|
                0 <= i < old(self).projectiles.len() ==> (#[trigger] old(self).projectiles[i]).wf(),
        ensures
            final(self)@ == (if old(self).player.death && old(self).player.lives > 1 {
                GameView {
                    state: GameState::Playing,
                    ..old(self)@.restarted((old(self).player.lives - 1) as i8)
                }
            } else {
                GameView {
                    state: if old(self).player.death {
                        GameState::GameOver
                    } else {
                        GameState::Playing
                    },
                    obstacles: kept_obstacles(old(self)@.obstacles, &old(self).field),
                    projectiles: kept_projectiles(old(self)@.projectiles),
                    ..old(self)@
                }
            }),
            final(self)@.wf(),
    {
        if self.player.death && self.player.lives > 1 {
            let lives: i8 = self.player.lives - 1;
            self.new_attempt(lives);
            self.state = GameState::Playing;
        } else {
            self.state = if self.player.death {
                GameState::GameOver
            } else {
                GameState::Playing
            };
            let field: Field = self.field;
            prune_obstacles(&mut self.obstacles, &field);
            prune_projectiles(&mut self.projectiles);
        }
    }

    /// One frame of play, given what the spawner produced for it: the
    /// player moves and may fire, the newcomer joins, everything moves,
    /// hits are resolved and scored, the player is tested against the
    /// obstacles, and what is dead or gone is pruned. On death the
    /// player respawns with one life less, or the game is over.
    pub fn playing_frame(&mut self, input: &Input, elapsed: i64, newcomer: Option<Obstacle>) -> (effects:
        Effects)
        requires
            old(self)@.wf(),
            old(self)@.ready(),
            0 <= elapsed <= TICK_LIMIT,
            newcomer matches Some(born) ==> born.rests(&old(self).field),
        ensures
            final(self)@ == old(self)@.playing_next(input, elapsed, newcomer),
            effects == old(self)@.playing_effects(input, elapsed, newcomer),
            final(self)@.wf(),
    {
        let shot: bool = self.steer_and_fire(input, elapsed);
        self.set_in_motion(elapsed, newcomer);
        let tally: Tally = self.collide();
        let death: bool = self.player.death;
        self.conclude();
        Effects { shot, kills: tally.kills, death, persist: None, exit: input.exit }
    }

    /// One frame, whatever the state. During play the spawner is asked
    /// once; whether and what it spawns is up to the generator.
    pub fn frame(&mut self, input: &Input, elapsed: i64, rng: &mut ThreadRng) -> (effects: Effects)
        requires
            old(self)@.wf(),
            old(self).state == GameState::Playing ==> old(self)@.ready(),
            0 <= elapsed <= TICK_LIMIT,
        ensures
            final(self)@.wf(),
            old(self).state == GameState::Menu ==> final(self)@ == old(self)@.menu_next(input)
                && effects == old(self)@.menu_effects(input),
            old(self).state == GameState::GameOver ==> final(self)@ == old(self)@.game_over_next(
                input,
            ) && effects == old(self)@.game_over_effects(input),
            old(self).state == GameState::Playing ==> exists|newcomer: Option<Obstacle>|
                spawn_outcome(newcomer, &old(self).field) && final(self)@ == old(self)@.playing_next(input, elapsed, newcomer) && effects == #[trigger] old(self)@.playing_effects(input, elapsed, newcomer),
    {
        match self.state {
            GameState::Menu => self.menu_frame(input),
            GameState::GameOver => self.game_over_frame(input),
            GameState::Playing => {
                let newcomer: Option<Obstacle> = spawn(rng, &self.field);
                let effects: Effects = self.playing_frame(input, elapsed, newcomer);
                assert(spawn_outcome(newcomer, &old(self).field));
                effects
            },
        }
    }
}

} // verus!
