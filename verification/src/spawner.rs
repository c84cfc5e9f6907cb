//! The obstacle spawner: at most one new obstacle per frame, with its size,
//! place and speed drawn at random.

use vstd::prelude::*;
use rand::rngs::ThreadRng;
use rand::Rng;
use crate::entity::{Field, Obstacle, SPAWN_SIZE_MAX};
use crate::shape::Rect;
use crate::units::UNIT;

verus! {

/// A spawn happens in this many frames ...
pub const SPAWN_CHANCE: u32 = 1;

/// ... out of this many.
pub const SPAWN_CHANCE_OUT_OF: u32 = 10;

/// Smallest size with which an obstacle is spawned.
pub const SPAWN_SIZE_MIN: i64 = 16_000_000;

/// Smallest speed of a spawned obstacle, in pixels per second.
pub const SPAWN_SPEED_MIN: i64 = 50;

/// Largest speed of a spawned obstacle, exclusive.
pub const SPAWN_SPEED_MAX: i64 = 150;

/// Where the top edge of a spawned obstacle starts: above the field.
pub const SPAWN_TOP: i64 = -10_000_000;

#[verifier::external_type_specification]
#[verifier::external_body]
pub struct ExThreadRng(ThreadRng);

/// Calls `rand::Rng::random_ratio` on the generator. Nothing is claimed of
/// the outcome but what the method documents for the two certain cases: a
/// ratio of one always gives `true`, a ratio of zero always `false`. The
/// method panics on a zero denominator or a ratio above one.
#[verifier::external_body]
fn draw_ratio(rng: &mut ThreadRng, numerator: u32, denominator: u32) -> (yes: bool)
    requires
        denominator != 0,
        numerator <= denominator,
    ensures
        numerator == denominator ==> yes,
        numerator == 0 ==> !yes,
{
    rng.random_ratio(numerator, denominator)
}

/// Calls `rand::Rng::random_range` on the generator with the half-open
/// range from `low` to `high`. The value drawn lies in that range; the
/// method panics on an empty one.
#[verifier::external_body]
fn draw_range(rng: &mut ThreadRng, low: i64, high: i64) -> (v: i64)
    requires
        low < high,
    ensures
        low <= v < high,
{
    rng.random_range(low..high)
}

/// The health of an obstacle of side `size`: a quarter of the side in
/// pixels, rounded to the nearest whole number, halves upwards.
pub open spec fn spawn_health(size: i64) -> int {
    (size + 2 * UNIT) / (4 * UNIT)
}

/// The obstacle that a draw of `size`, `x` and `speed` gives.
pub open spec fn spawned(size: i64, x: i64, speed: i64) -> Obstacle {
    Obstacle {
        rect: Rect { x, y: SPAWN_TOP, w: size, h: size },
        speed,
        health: spawn_health(size) as i64,
    }
}

/// `o` is an obstacle that the spawner can produce on `field`.
pub open spec fn spawnable(o: &Obstacle, field: &Field) -> bool {
    &&& SPAWN_SIZE_MIN <= o.rect.w < SPAWN_SIZE_MAX
    &&& o.rect.w <= o.rect.x < field.width - o.rect.w
    &&& SPAWN_SPEED_MIN <= o.speed < SPAWN_SPEED_MAX
    &&& *o == spawned(o.rect.w, o.rect.x, o.speed)
}

/// Builds the obstacle for what was drawn.
pub fn obstacle_from_draw(size: i64, x: i64, speed: i64) -> (o: Obstacle)
    requires
        SPAWN_SIZE_MIN <= size < SPAWN_SIZE_MAX,
    ensures
        o == spawned(size, x, speed),
        4 <= o.health <= 16,
        -2_000_000 <= size - 4_000_000 * o.health < 2_000_000,
{
    let health: i64 = (size + 2 * UNIT) / (4 * UNIT);
    Obstacle::new(x, SPAWN_TOP, speed, size, health)
}

/// One spawn attempt: with the fixed chance, an obstacle of a size drawn
/// from `[SPAWN_SIZE_MIN, SPAWN_SIZE_MAX)`, placed at a horizontal position
/// drawn from `[size, width - size)`, with a speed drawn from
/// `[SPAWN_SPEED_MIN, SPAWN_SPEED_MAX)`. Whether an obstacle comes, and
/// which, is up to the generator.
pub fn spawn(rng: &mut ThreadRng, field: &Field) -> (o: Option<Obstacle>)
    requires
        field.wf(),
    ensures
        o matches Some(born) ==> spawnable(&born, field) && born.rests(field),
{
    let chosen: bool = draw_ratio(rng, SPAWN_CHANCE, SPAWN_CHANCE_OUT_OF);
    spawn_if(chosen, rng, field)
}

/// The rest of a spawn attempt, once the chance has been drawn: nothing if
/// the frame was not `chosen`; else always an obstacle, built from a size,
/// a place and a speed drawn within their ranges.
pub fn spawn_if(chosen: bool, rng: &mut ThreadRng, field: &Field) -> (o: Option<Obstacle>)
    requires
        field.wf(),
    ensures
        o is Some <==> chosen,
        o matches Some(born) ==> spawnable(&born, field) && born.rests(field),
{
    if chosen {
        let size: i64 = draw_range(rng, SPAWN_SIZE_MIN, SPAWN_SIZE_MAX);
        let x: i64 = draw_range(rng, size, field.width - size);
        let speed: i64 = draw_range(rng, SPAWN_SPEED_MIN, SPAWN_SPEED_MAX);
        Some(obstacle_from_draw(size, x, speed))
    } else {
        None
    }
}

} // verus!
