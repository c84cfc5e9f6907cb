//! Fixed-point units and the limits within which the arithmetic stays exact.
//!
//! Lengths are counted in millionths of a pixel, time in microseconds, and
//! speeds in pixels per second, so that `speed * elapsed` is a length.

use vstd::prelude::*;

verus! {

/// Length units per pixel.
pub const UNIT: i64 = 1_000_000;

/// Largest magnitude of a coordinate or a size of anything at rest.
pub const COORD_LIMIT: i64 = 1_099_511_627_776;

/// Largest magnitude of a coordinate in the middle of a frame, after
/// movement and before pruning.
pub const REACH: i64 = 1_152_921_504_606_846_976;

/// Largest speed, in pixels per second.
pub const SPEED_LIMIT: i64 = 1_048_576;

/// Longest frame, in microseconds: a little over three days.
pub const TICK_LIMIT: i64 = 274_877_906_944;

/// Longest distance covered in one frame.
pub const TRAVEL_LIMIT: i64 = 288_230_376_151_711_744;

/// Lowest cooldown from which a frame may start: a frame of any admitted
/// length can then still be taken off it.
pub const COOLDOWN_FLOOR: i64 = -9_223_371_761_976_868_864;

/// Largest initial health of an obstacle and largest damage of a projectile.
pub const HEALTH_LIMIT: i64 = 1_048_576;

/// Largest number of obstacles, and of projectiles, alive at once.
pub const ENTITY_CAP: usize = 4096;

/// Within one frame the health of an obstacle does not fall below the
/// negative of this.
pub const HEALTH_FLOOR: i64 = 8_589_934_592;

/// Largest magnitude of what one frame can add to the score.
pub const FRAME_GAIN_LIMIT: i64 = 144_115_188_075_855_872;

/// Largest magnitude of a score from which a frame may start.
pub const SCORE_LIMIT: i64 = 4_611_686_018_427_387_904;

/// The distance covered at `speed` during `elapsed`.
pub open spec fn travel(speed: i64, elapsed: i64) -> int {
    speed * elapsed
}

/// Within the limits on speed and time, the distance covered is within the
/// limit on travel.
pub proof fn lemma_travel_bounds(speed: i64, elapsed: i64)
    requires
        0 <= speed <= SPEED_LIMIT,
        0 <= elapsed <= TICK_LIMIT,
    ensures
        0 <= travel(speed, elapsed) <= TRAVEL_LIMIT,
{
    assert(0 <= speed * elapsed <= 1_048_576 * 274_877_906_944) by (nonlinear_arith)
        requires
            0 <= speed <= 1_048_576,
            0 <= elapsed <= 274_877_906_944,
    ;
}

/// Computes [`travel`].
pub fn travelled(speed: i64, elapsed: i64) -> (d: i64)
    requires
        0 <= speed <= SPEED_LIMIT,
        0 <= elapsed <= TICK_LIMIT,
    ensures
        d == travel(speed, elapsed),
        0 <= d <= TRAVEL_LIMIT,
{
    proof {
        lemma_travel_bounds(speed, elapsed);
    }
    speed * elapsed
}

/// A diagonal step covers this many millionths of a straight one on each
/// axis: the reciprocal of the square root of two, rounded.
pub const DIAGONAL_SHARE: i64 = 707_107;

/// The distance covered on one axis at `speed` during `elapsed`, when
/// moving along an axis or, if `diagonal`, along both at once.
pub open spec fn stride(speed: i64, elapsed: i64, diagonal: bool) -> int {
    if diagonal {
        travel(speed, elapsed) * DIAGONAL_SHARE / 1_000_000
    } else {
        travel(speed, elapsed)
    }
}

/// Computes [`stride`].
pub fn strode(speed: i64, elapsed: i64, diagonal: bool) -> (d: i64)
    requires
        0 <= speed <= SPEED_LIMIT,
        0 <= elapsed <= TICK_LIMIT,
    ensures
        d == stride(speed, elapsed, diagonal),
        0 <= d <= TRAVEL_LIMIT,
{
    let straight: i64 = travelled(speed, elapsed);
    if diagonal {
        let wide: i128 = (straight as i128) * (DIAGONAL_SHARE as i128) / 1_000_000;
        wide as i64
    } else {
        straight
    }
}

/// `v` held within `[lo, hi]`.
pub open spec fn clamped(v: int, lo: int, hi: int) -> int {
    if v < lo {
        lo
    } else if v > hi {
        hi
    } else {
        v
    }
}

} // verus!
