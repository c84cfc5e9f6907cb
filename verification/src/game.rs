//! The game as a state machine: one call per frame, from the state and the
//! input to the next state and to what the caller has to play, store or do.

use vstd::prelude::*;
use crate::combat::{hits_count, hits_gain, obstacles_after, projectiles_after};
use crate::entity::{axis_of, Field, Obstacle, Player, Projectile, START_LIVES};
use crate::lifecycle::{fallen, kept_obstacles, kept_projectiles, risen};
use crate::units::{COOLDOWN_FLOOR, ENTITY_CAP, SCORE_LIMIT};

verus! {

/// The three states of the game.
#[derive(Clone, Copy, Debug, PartialEq, Eq, Structural)]
pub enum GameState {
    Menu,
    Playing,
    GameOver,
}

/// The keys held during a frame.
#[derive(Clone, Copy, Debug, PartialEq, Eq, Structural)]
pub struct Input {
    pub left: bool,
    pub right: bool,
    pub up: bool,
    pub down: bool,
    pub fire: bool,
    pub start: bool,
    pub exit: bool,
}

/// What the caller owes the outside world after a frame.
#[derive(Clone, Copy, Debug, PartialEq, Eq, Structural)]
pub struct Effects {
    /// Play the shot cue once.
    pub shot: bool,
    /// Play the kill cue this many times.
    pub kills: usize,
    /// Play the death cue once.
    pub death: bool,
    /// Store this value as the high score.
    pub persist: Option<i64>,
    /// End the process.
    pub exit: bool,
}

/// The whole game.
#[derive(Clone, Debug)]
pub struct Game {
    pub state: GameState,
    pub field: Field,
    pub player: Player,
    pub obstacles: Vec<Obstacle>,
    pub projectiles: Vec<Projectile>,
    pub score: i64,
    pub high_score: i64,
    /// Time until the next shot is permitted, in microseconds; a shot is
    /// permitted once this is zero or less.
    pub cooldown: i64,
}

/// The game as a mathematical value.
pub struct GameView {
    pub state: GameState,
    pub field: Field,
    pub player: Player,
    pub obstacles: Seq<Obstacle>,
    pub projectiles: Seq<Projectile>,
    pub score: i64,
    pub high_score: i64,
    pub cooldown: i64,
}

/// No cue, nothing to store, no exit.
pub open spec fn quiet() -> Effects {
    Effects { shot: false, kills: 0, death: false, persist: None, exit: false }
}

/// The high score after comparing it with `score`: replaced only by a
/// score that strictly exceeds it.
pub open spec fn settled(high_score: i64, score: i64) -> i64 {
    if high_score < score {
        score
    } else {
        high_score
    }
}

/// What has to be stored after comparing the high score with `score`.
pub open spec fn record(high_score: i64, score: i64) -> Option<i64> {
    if high_score < score {
        Some(score)
    } else {
        None
    }
}

impl View for Game {
    type V = GameView;

    open spec fn view(&self) -> GameView {
        GameView {
            state: self.state,
            field: self.field,
            player: self.player,
            obstacles: self.obstacles@,
            projectiles: self.projectiles@,
            score: self.score,
            high_score: self.high_score,
            cooldown: self.cooldown,
        }
    }
}

impl GameView {
    /// What holds between frames: every obstacle and projectile on the
    /// field is alive and within the limits, and the player fits the field.
    pub open spec fn wf(&self) -> bool {
        &&& self.field.wf()
        &&& self.player.wf()
        &&& 2 * self.player.circle.r <= self.field.width
        &&& self.obstacles.len() <= ENTITY_CAP
        &&& self.projectiles.len() <= ENTITY_CAP
        &&& forall|i: int|
            0 <= i < self.obstacles.len() ==> (#[trigger] self.obstacles[i]).rests(&self.field)
        &&& forall|i: int|
            0 <= i < self.projectiles.len() ==> (#[trigger] self.projectiles[i]).rests()
    }

    /// A frame of play can start: there is room for one more obstacle and
    /// one more projectile, for the score to move and for the cooldown to
    /// fall.
    pub open spec fn ready(&self) -> bool {
        &&& self.obstacles.len() < ENTITY_CAP
        &&& self.projectiles.len() < ENTITY_CAP
        &&& -SCORE_LIMIT <= self.score <= SCORE_LIMIT
        &&& COOLDOWN_FLOOR <= self.cooldown
    }

    /// A new attempt with `lives`: a new player, and an empty field.
    pub open spec fn restarted(&self, lives: i8) -> GameView {
        GameView {
            player: Player::fresh(lives, &self.field),
            obstacles: Seq::empty(),
            projectiles: Seq::empty(),
            ..*self
        }
    }

    /// The game after a frame in the menu.
    pub open spec fn menu_next(&self, input: &Input) -> GameView {
        if input.start {
            GameView { state: GameState::Playing, score: 0, ..self.restarted(START_LIVES) }
        } else {
            *self
        }
    }

    /// What a frame in the menu asks of the caller.
    pub open spec fn menu_effects(&self, input: &Input) -> Effects {
        Effects { exit: input.exit, ..quiet() }
    }

    /// The game after a frame on the game-over screen. A retry settles the
    /// high score, then starts a new attempt from a score of zero; an exit
    /// settles the high score with the score that is left by then.
    pub open spec fn game_over_next(&self, input: &Input) -> GameView {
        let retried = if input.start {
            GameView {
                state: GameState::Playing,
                score: 0,
                high_score: settled(self.high_score, self.score),
                ..self.restarted(START_LIVES)
            }
        } else {
            *self
        };
        if input.exit {
            GameView { high_score: settled(retried.high_score, retried.score), ..retried }
        } else {
            retried
        }
    }

    /// What a frame on the game-over screen asks of the caller. Where both
    /// the retry and the exit store a value, the later one is what the
    /// store ends with.
    pub open spec fn game_over_effects(&self, input: &Input) -> Effects {
        let first = if input.start {
            record(self.high_score, self.score)
        } else {
            None
        };
        let high = if input.start {
            settled(self.high_score, self.score)
        } else {
            self.high_score
        };
        let score = if input.start {
            0
        } else {
            self.score
        };
        let second = if input.exit {
            record(high, score)
        } else {
            None
        };
        Effects {
            persist: if second is Some {
                second
            } else {
                first
            },
            exit: input.exit,
            ..quiet()
        }
    }

    /// The player after this frame's movement.
    pub open spec fn steered(&self, input: &Input, elapsed: i64) -> Player {
        self.player.moved(
            axis_of(input.left, input.right) as i8,
            axis_of(input.up, input.down) as i8,
            elapsed,
            self.field.width,
        )
    }

    /// A shot is fired this frame: the key is held and the cooldown is over.
    pub open spec fn fires(&self, input: &Input) -> bool {
        input.fire && self.cooldown <= 0
    }

    /// The cooldown after this frame: it restarts from the reload interval
    /// on a shot, and falls by the elapsed time in any case, below zero too.
    pub open spec fn cooled(&self, input: &Input, elapsed: i64) -> i64 {
        let from = if self.fires(input) {
            self.player.reload
        } else {
            self.cooldown
        };
        (from - elapsed) as i64
    }

    /// The projectiles after a possible shot and this frame's movement.
    pub open spec fn shots_in_flight(&self, input: &Input, elapsed: i64) -> Seq<Projectile> {
        let at = self.steered(input, elapsed).circle;
        risen(
            if self.fires(input) {
                self.projectiles.push(Projectile::fired(at.x, at.y))
            } else {
                self.projectiles
            },
            elapsed,
        )
    }

    /// The obstacles after a possible spawn and this frame's movement.
    pub open spec fn obstacles_in_flight(&self, elapsed: i64, newcomer: Option<Obstacle>) -> Seq<
        Obstacle,
    > {
        fallen(
            match newcomer {
                Some(o) => self.obstacles.push(o),
                None => self.obstacles,
            },
            elapsed,
        )
    }

    /// The obstacles after this frame's hits, before pruning.
    pub open spec fn obstacles_hit(
        &self,
        input: &Input,
        elapsed: i64,
        newcomer: Option<Obstacle>,
    ) -> Seq<Obstacle> {
        let shots = self.shots_in_flight(input, elapsed);
        obstacles_after(shots, self.obstacles_in_flight(elapsed, newcomer), shots.len() as int)
    }

    /// The projectiles after this frame's hits, before pruning.
    pub open spec fn shots_hit(
        &self,
        input: &Input,
        elapsed: i64,
        newcomer: Option<Obstacle>,
    ) -> Seq<Projectile> {
        projectiles_after(
            self.shots_in_flight(input, elapsed),
            self.obstacles_in_flight(elapsed, newcomer),
        )
    }

    /// What this frame's hits add to the score.
    pub open spec fn frame_gain(
        &self,
        input: &Input,
        elapsed: i64,
        newcomer: Option<Obstacle>,
    ) -> int {
        let shots = self.shots_in_flight(input, elapsed);
        hits_gain(shots, self.obstacles_in_flight(elapsed, newcomer), shots.len() as int)
    }

    /// The number of hits in this frame.
    pub open spec fn frame_kills(
        &self,
        input: &Input,
        elapsed: i64,
        newcomer: Option<Obstacle>,
    ) -> int {
        let shots = self.shots_in_flight(input, elapsed);
        hits_count(shots, self.obstacles_in_flight(elapsed, newcomer), shots.len() as int)
    }

    /// The player dies this frame: after all movement, the circle overlaps
    /// an obstacle (or the death flag was set before the frame).
    pub open spec fn dies(&self, input: &Input, elapsed: i64, newcomer: Option<Obstacle>) -> bool {
        let p = self.steered(input, elapsed);
        p.death || p.touches_any(self.obstacles_hit(input, elapsed, newcomer))
    }

    /// The game after a frame of play in which `newcomer` was spawned.
    pub open spec fn playing_next(
        &self,
        input: &Input,
        elapsed: i64,
        newcomer: Option<Obstacle>,
    ) -> GameView {
        let p = self.steered(input, elapsed);
        let score = (self.score + self.frame_gain(input, elapsed, newcomer)) as i64;
        let cooldown = self.cooled(input, elapsed);
        if self.dies(input, elapsed, newcomer) && p.lives > 1 {
            GameView {
                state: GameState::Playing,
                score,
                cooldown,
                ..self.restarted((p.lives - 1) as i8)
            }
        } else {
            GameView {
                state: if self.dies(input, elapsed, newcomer) {
                    GameState::GameOver
                } else {
                    GameState::Playing
                },
                player: Player { death: self.dies(input, elapsed, newcomer), ..p },
                obstacles: kept_obstacles(
                    self.obstacles_hit(input, elapsed, newcomer),
                    &self.field,
                ),
                projectiles: kept_projectiles(self.shots_hit(input, elapsed, newcomer)),
                score,
                cooldown,
                ..*self
            }
        }
    }

    /// What a frame of play asks of the caller.
    pub open spec fn playing_effects(
        &self,
        input: &Input,
        elapsed: i64,
        newcomer: Option<Obstacle>,
    ) -> Effects {
        Effects {
            shot: self.fires(input),
            kills: self.frame_kills(input, elapsed, newcomer) as usize,
            death: self.dies(input, elapsed, newcomer),
            persist: None,
            exit: input.exit,
        }
    }
}

} // verus!
