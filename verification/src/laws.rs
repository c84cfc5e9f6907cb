//! What holds of every frame, stated over the model of the game.

use vstd::prelude::*;
use crate::combat::{
    lemma_gain_without_overkill, lemma_hits_gain_bounds, lemma_hits_lower_health_only,
    no_overkill,
};
use crate::entity::{Obstacle, Player};
use crate::game::{record, settled, GameState, GameView, Input};
use crate::lifecycle::{kept_obstacles, kept_projectiles, obstacle_stays};
use crate::units::TICK_LIMIT;

verus! {

/// The obstacles that a frame starts to move: those on the field and, last,
/// the newcomer.
pub open spec fn joined(v: GameView, newcomer: Option<Obstacle>) -> Seq<Obstacle> {
    match newcomer {
        Some(o) => v.obstacles.push(o),
        None => v.obstacles,
    }
}

/// A frame of play from `v` with these arguments is within the limits.
pub open spec fn playable(v: GameView, elapsed: i64, newcomer: Option<Obstacle>) -> bool {
    &&& v.wf()
    &&& v.ready()
    &&& 0 <= elapsed <= TICK_LIMIT
    &&& newcomer matches Some(born) ==> born.rests(&v.field)
}

/// What is in flight during a frame is within the limits of a frame.
proof fn lemma_in_flight_within_limits(
    v: GameView,
    input: Input,
    elapsed: i64,
    newcomer: Option<Obstacle>,
)
    requires
        playable(v, elapsed, newcomer),
    ensures
        v.shots_in_flight(&input, elapsed).len() <= 4096,
        v.obstacles_in_flight(elapsed, newcomer).len() <= 4096,
        v.obstacles_in_flight(elapsed, newcomer).len() == joined(v, newcomer).len(),
        forall|i: int|
            0 <= i < v.shots_in_flight(&input, elapsed).len() ==> 0 < (#[trigger] v.shots_in_flight(
                &input,
                elapsed,
            )[i]).damage <= 1_048_576,
        forall|j: int|
            0 <= j < v.obstacles_in_flight(elapsed, newcomer).len() ==> 0 < (
            #[trigger] v.obstacles_in_flight(elapsed, newcomer)[j]).health <= 1_048_576
                && v.obstacles_in_flight(elapsed, newcomer)[j].health == joined(
                v,
                newcomer,
            )[j].health,
{
    let at = v.steered(&input, elapsed).circle;
    let loaded = if v.fires(&input) {
        v.projectiles.push(crate::entity::Projectile::fired(at.x, at.y))
    } else {
        v.projectiles
    };
    assert forall|i: int| 0 <= i < loaded.len() implies 0 < (#[trigger] loaded[i]).damage
        <= 1_048_576 by {
        if i < v.projectiles.len() {
            assert(v.projectiles[i].rests());
        }
    }
    let all = joined(v, newcomer);
    assert forall|j: int| 0 <= j < all.len() implies 0 < (#[trigger] all[j]).health
        <= 1_048_576 by {
        if j < v.obstacles.len() {
            assert(v.obstacles[j].rests(&v.field));
        }
    }
}

/// During play the score moves by exactly what the frame's hits earn, so
/// it falls only in a frame whose hits earn less than nothing; and that
/// does not happen unless a hit lands on an obstacle whose health is
/// already below zero.
pub proof fn lemma_score_follows_gain(
    v: GameView,
    input: Input,
    elapsed: i64,
    newcomer: Option<Obstacle>,
)
    requires
        playable(v, elapsed, newcomer),
    ensures
        v.playing_next(&input, elapsed, newcomer).score == v.score + v.frame_gain(
            &input,
            elapsed,
            newcomer,
        ),
        v.playing_next(&input, elapsed, newcomer).score >= v.score <==> v.frame_gain(
            &input,
            elapsed,
            newcomer,
        ) >= 0,
        no_overkill(
            v.shots_in_flight(&input, elapsed),
            v.obstacles_in_flight(elapsed, newcomer),
            v.shots_in_flight(&input, elapsed).len() as int,
        ) ==> v.playing_next(&input, elapsed, newcomer).score >= v.score,
{
    let shots = v.shots_in_flight(&input, elapsed);
    let targets = v.obstacles_in_flight(elapsed, newcomer);
    lemma_in_flight_within_limits(v, input, elapsed, newcomer);
    lemma_hits_gain_bounds(shots, targets, shots.len() as int);
    if no_overkill(shots, targets, shots.len() as int) {
        lemma_gain_without_overkill(shots, targets, shots.len() as int);
    }
}

/// A start input in the menu, and a retry input on the game-over screen,
/// lead into play with a score of exactly zero.
pub proof fn lemma_score_resets(v: GameView, input: Input)
    requires
        input.start,
    ensures
        v.menu_next(&input).state == GameState::Playing,
        v.menu_next(&input).score == 0,
        v.game_over_next(&input).state == GameState::Playing,
        v.game_over_next(&input).score == 0,
{
}

/// On the game-over screen the high score changes exactly if the score
/// strictly exceeds it, on a retry and on an exit alike; it then becomes
/// the score, and that value is what the caller has to store. Without
/// either input nothing changes, and the high score never falls.
pub proof fn lemma_high_score_settles(v: GameView, input: Input)
    ensures
        input.start != input.exit ==> {
            &&& v.game_over_next(&input).high_score == settled(v.high_score, v.score)
            &&& v.game_over_next(&input).high_score != v.high_score <==> v.high_score < v.score
            &&& v.game_over_effects(&input).persist == record(v.high_score, v.score)
            &&& v.game_over_effects(&input).persist is Some <==> v.high_score < v.score
        },
        !input.start && !input.exit ==> v.game_over_next(&input) == v && v.game_over_effects(
            &input,
        ).persist is None,
        v.game_over_next(&input).high_score >= v.high_score,
        v.game_over_effects(&input).persist matches Some(stored) ==> stored == v.game_over_next(
            &input,
        ).high_score && stored > v.high_score,
{
}

/// Outside the game-over screen the high score is never touched and
/// nothing is stored.
pub proof fn lemma_high_score_kept_elsewhere(
    v: GameView,
    input: Input,
    elapsed: i64,
    newcomer: Option<Obstacle>,
)
    ensures
        v.menu_next(&input).high_score == v.high_score,
        v.menu_effects(&input).persist is None,
        v.playing_next(&input, elapsed, newcomer).high_score == v.high_score,
        v.playing_effects(&input, elapsed, newcomer).persist is None,
{
}

/// Within a frame of play the health of an obstacle never rises, and it
/// falls exactly if a projectile in flight overlaps the obstacle.
pub proof fn lemma_health_falls_only_by_hits(
    v: GameView,
    input: Input,
    elapsed: i64,
    newcomer: Option<Obstacle>,
    j: int,
)
    requires
        playable(v, elapsed, newcomer),
        0 <= j < joined(v, newcomer).len(),
    ensures
        v.obstacles_hit(&input, elapsed, newcomer).len() == joined(v, newcomer).len(),
        v.obstacles_hit(&input, elapsed, newcomer)[j].health <= joined(v, newcomer)[j].health,
        v.obstacles_hit(&input, elapsed, newcomer)[j].health < joined(v, newcomer)[j].health
            <==> exists|i: int|
            0 <= i < v.shots_in_flight(&input, elapsed).len() && (#[trigger] v.shots_in_flight(
                &input,
                elapsed,
            )[i]).strikes(&v.obstacles_in_flight(elapsed, newcomer)[j]),
{
    let shots = v.shots_in_flight(&input, elapsed);
    let targets = v.obstacles_in_flight(elapsed, newcomer);
    lemma_in_flight_within_limits(v, input, elapsed, newcomer);
    lemma_hits_lower_health_only(shots, targets, shots.len() as int);
    let then = crate::combat::obstacles_after(shots, targets, shots.len() as int)[j];
    assert(then == v.obstacles_hit(&input, elapsed, newcomer)[j]);
}

/// After a frame of play no obstacle on the field is without health, and
/// none has fully passed the bottom edge; and every obstacle on the field
/// is one of those that the frame's hits left, unchanged since.
pub proof fn lemma_no_dead_obstacle_stays(
    v: GameView,
    input: Input,
    elapsed: i64,
    newcomer: Option<Obstacle>,
)
    ensures
        forall|i: int|
            0 <= i < v.playing_next(&input, elapsed, newcomer).obstacles.len() ==> (
            #[trigger] v.playing_next(&input, elapsed, newcomer).obstacles[i]).survives(&v.field)
                && v.obstacles_hit(&input, elapsed, newcomer).contains(
                v.playing_next(&input, elapsed, newcomer).obstacles[i],
            ),
{
    let hit = v.obstacles_hit(&input, elapsed, newcomer);
    let pred = obstacle_stays(v.field);
    let next = v.playing_next(&input, elapsed, newcomer).obstacles;
    assert forall|i: int| 0 <= i < next.len() implies (#[trigger] next[i]).survives(&v.field)
        && hit.contains(next[i]) by {
        assert(next == hit.filter(pred));
        hit.lemma_filter_pred(pred, i);
        assert(hit.filter(pred).contains(next[i]));
        hit.lemma_filter_contains_rev(pred, next[i]);
    }
}

/// A player who dies with one life or less is not respawned: the game is
/// over, the death is reported, the lives stay, the player stays where the
/// movement of the frame put it, and the field is pruned as in any frame,
/// not emptied.
pub proof fn lemma_last_life_ends_the_game(
    v: GameView,
    input: Input,
    elapsed: i64,
    newcomer: Option<Obstacle>,
)
    requires
        v.dies(&input, elapsed, newcomer),
        v.player.lives <= 1,
    ensures
        v.playing_next(&input, elapsed, newcomer).state == GameState::GameOver,
        v.playing_effects(&input, elapsed, newcomer).death,
        v.playing_next(&input, elapsed, newcomer).player == (Player {
            death: true,
            ..v.steered(&input, elapsed)
        }),
        v.playing_next(&input, elapsed, newcomer).player.lives == v.player.lives,
        v.playing_next(&input, elapsed, newcomer).player.circle == v.steered(
            &input,
            elapsed,
        ).circle,
        v.playing_next(&input, elapsed, newcomer).obstacles == kept_obstacles(
            v.obstacles_hit(&input, elapsed, newcomer),
            &v.field,
        ),
        v.playing_next(&input, elapsed, newcomer).projectiles == kept_projectiles(
            v.shots_hit(&input, elapsed, newcomer),
        ),
{
}

/// Falling changes nothing of an obstacle but its vertical position, which
/// grows by speed times time wherever that fits the machine's integers.
pub proof fn lemma_falling_leaves_health_alone(o: Obstacle, elapsed: i64)
    ensures
        o.moved(elapsed).health == o.health,
        o.moved(elapsed).speed == o.speed,
        o.moved(elapsed).rect.x == o.rect.x,
        o.moved(elapsed).rect.w == o.rect.w,
        o.moved(elapsed).rect.h == o.rect.h,
        i64::MIN <= o.rect.y + o.speed * elapsed <= i64::MAX ==> o.moved(elapsed).rect.y
            == o.rect.y + o.speed * elapsed,
{
}

/// A frame of play takes at most one life, and none below one: a player
/// who dies with more than one life respawns with one less, and a player
/// who dies with one life or less ends the game with the lives unchanged.
pub proof fn lemma_lives_fall_one_at_a_time(
    v: GameView,
    input: Input,
    elapsed: i64,
    newcomer: Option<Obstacle>,
)
    ensures
        v.dies(&input, elapsed, newcomer) && v.player.lives > 1 ==> v.playing_next(
            &input,
            elapsed,
            newcomer,
        ).player.lives == v.player.lives - 1 && v.playing_next(&input, elapsed, newcomer).state
            == GameState::Playing,
        v.dies(&input, elapsed, newcomer) && v.player.lives <= 1 ==> v.playing_next(
            &input,
            elapsed,
            newcomer,
        ).player.lives == v.player.lives && v.playing_next(&input, elapsed, newcomer).state
            == GameState::GameOver,
        !v.dies(&input, elapsed, newcomer) ==> v.playing_next(
            &input,
            elapsed,
            newcomer,
        ).player.lives == v.player.lives && v.playing_next(&input, elapsed, newcomer).state
            == GameState::Playing,
        v.playing_next(&input, elapsed, newcomer).state == GameState::GameOver
            <==> v.playing_effects(&input, elapsed, newcomer).death && v.player.lives <= 1,
{
}

/// A player who touches none of the obstacles touches one of them as soon
/// as a single obstacle that the player overlaps is put among them,
/// wherever it is put.
pub proof fn lemma_one_overlap_kills(
    player: Player,
    obstacles: Seq<Obstacle>,
    extra: Obstacle,
    at: int,
)
    requires
        0 <= at <= obstacles.len(),
        player.touches(&extra),
    ensures
        player.touches_any(obstacles.insert(at, extra)),
        !player.touches_any(Seq::<Obstacle>::empty()),
{
    assert(obstacles.insert(at, extra)[at] == extra);
}

/// The player dies in a frame of play exactly if, after all movement, the
/// circle overlaps an obstacle, or the death flag was already set.
pub proof fn lemma_death_needs_overlap(
    v: GameView,
    input: Input,
    elapsed: i64,
    newcomer: Option<Obstacle>,
)
    requires
        !v.player.death,
    ensures
        v.playing_effects(&input, elapsed, newcomer).death == v.steered(
            &input,
            elapsed,
        ).touches_any(v.obstacles_hit(&input, elapsed, newcomer)),
        !v.playing_effects(&input, elapsed, newcomer).death ==> !v.playing_next(
            &input,
            elapsed,
            newcomer,
        ).player.death && v.playing_next(&input, elapsed, newcomer).state == GameState::Playing,
{
}

} // verus!
