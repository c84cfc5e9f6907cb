//! The things on the field: the player, the falling obstacles and the
//! projectiles that the player fires.

use vstd::prelude::*;
use crate::shape::{bounding, Circle, Rect};
use crate::units::{
    clamped, stride, strode, travel, travelled, COORD_LIMIT, HEALTH_FLOOR, HEALTH_LIMIT,
    SPEED_LIMIT, TICK_LIMIT, TRAVEL_LIMIT,
};

verus! {

/// Radius of the player's circle.
pub const PLAYER_RADIUS: i64 = 10_000_000;

/// Speed of the player, in pixels per second.
pub const PLAYER_SPEED: i64 = 320;

/// Time between two shots, in microseconds.
pub const PLAYER_RELOAD: i64 = 300_000;

/// How far above the bottom edge the player appears.
pub const PLAYER_RISE: i64 = 100_000_000;

/// Lives at the start of an attempt.
pub const START_LIVES: i8 = 3;

/// Width of a projectile.
pub const PROJECTILE_WIDTH: i64 = 8_000_000;

/// Height of a projectile.
pub const PROJECTILE_HEIGHT: i64 = 12_000_000;

/// Speed of a projectile, in pixels per second.
pub const PROJECTILE_SPEED: i64 = 1280;

/// Damage that a projectile deals to each obstacle it strikes.
pub const PROJECTILE_DAMAGE: i64 = 4;

/// Largest size with which an obstacle is spawned, exclusive.
pub const SPAWN_SIZE_MAX: i64 = 64_000_000;

/// The visible play area.
#[derive(Clone, Copy, Debug, PartialEq, Eq, Structural)]
pub struct Field {
    pub width: i64,
    pub height: i64,
}

impl Field {
    /// The field is wide enough for an obstacle of any spawn size to be
    /// placed with room on both sides, and no larger than the limit.
    pub open spec fn wf(&self) -> bool {
        &&& 2 * SPAWN_SIZE_MAX - 2 < self.width <= COORD_LIMIT
        &&& 0 <= self.height <= COORD_LIMIT
    }

    /// A field of the given size, if such a field is well formed.
    pub fn new(width: i64, height: i64) -> (f: Option<Field>)
        ensures
            f == (if (Field { width, height }).wf() {
                Some(Field { width, height })
            } else {
                None
            }),
    {
        if 2 * SPAWN_SIZE_MAX - 2 < width && width <= COORD_LIMIT && 0 <= height && height
            <= COORD_LIMIT {
            Some(Field { width, height })
        } else {
            None
        }
    }
}

/// The player: a circle that moves under input and dies on touching an
/// obstacle.
#[derive(Clone, Copy, Debug, PartialEq, Eq, Structural)]
pub struct Player {
    pub circle: Circle,
    /// Pixels per second.
    pub speed: i64,
    pub lives: i8,
    /// Time between two shots, in microseconds.
    pub reload: i64,
    /// Set once the player has touched an obstacle.
    pub death: bool,
}

/// The direction on one axis that two opposing inputs give: they cancel
/// when both or neither are held.
pub open spec fn axis_of(negative: bool, positive: bool) -> int {
    (if positive { 1int } else { 0int }) - (if negative { 1int } else { 0int })
}

/// Computes [`axis_of`].
pub fn axis(negative: bool, positive: bool) -> (d: i8)
    ensures
        d == axis_of(negative, positive),
{
    if positive && !negative {
        1
    } else if negative && !positive {
        -1
    } else {
        0
    }
}

impl Player {
    pub open spec fn wf(&self) -> bool {
        &&& -COORD_LIMIT <= self.circle.x <= COORD_LIMIT
        &&& -COORD_LIMIT <= self.circle.y <= COORD_LIMIT
        &&& 0 <= self.circle.r <= COORD_LIMIT
        &&& 0 <= self.speed <= SPEED_LIMIT
        &&& 0 <= self.reload <= TICK_LIMIT
    }

    /// The player as an attempt starts on `field`.
    pub open spec fn fresh(lives: i8, field: &Field) -> Player {
        Player {
            circle: Circle {
                x: (field.width / 2) as i64,
                y: (field.height - PLAYER_RISE) as i64,
                r: PLAYER_RADIUS,
            },
            speed: PLAYER_SPEED,
            lives,
            reload: PLAYER_RELOAD,
            death: false,
        }
    }

    /// The player after moving in direction `(dx, dy)` for `elapsed`: no
    /// change without a direction; else each coordinate advances by the
    /// stride and is held within `[r, bound - r]`.
    pub open spec fn moved(&self, dx: i8, dy: i8, elapsed: i64, bound: i64) -> Player {
        if dx == 0 && dy == 0 {
            *self
        } else {
            let step = stride(self.speed, elapsed, dx != 0 && dy != 0);
            Player {
                circle: Circle {
                    x: clamped(
                        self.circle.x + dx * step,
                        self.circle.r as int,
                        bound - self.circle.r,
                    ) as i64,
                    y: clamped(
                        self.circle.y + dy * step,
                        self.circle.r as int,
                        bound - self.circle.r,
                    ) as i64,
                    r: self.circle.r,
                },
                ..*self
            }
        }
    }

    /// Places a new player on `field`.
    pub fn new(lives: i8, field: &Field) -> (p: Player)
        requires
            field.wf(),
        ensures
            p == Player::fresh(lives, field),
            p.wf(),
    {
        Player {
            circle: Circle::new(field.width / 2, field.height - PLAYER_RISE, PLAYER_RADIUS),
            speed: PLAYER_SPEED,
            lives,
            reload: PLAYER_RELOAD,
            death: false,
        }
    }

    /// Moves the player. Both coordinates are held within the same `bound`.
    pub fn movement(&mut self, dx: i8, dy: i8, elapsed: i64, bound: i64)
        requires
            old(self).wf(),
            -1 <= dx <= 1,
            -1 <= dy <= 1,
            0 <= elapsed <= TICK_LIMIT,
            2 * old(self).circle.r <= bound <= COORD_LIMIT,
        ensures
            *final(self) == old(self).moved(dx, dy, elapsed, bound),
            final(self).wf(),
    {
        if dx != 0 || dy != 0 {
            let step: i64 = strode(self.speed, elapsed, dx != 0 && dy != 0);
            let lo: i64 = self.circle.r;
            let hi: i64 = bound - self.circle.r;
            self.circle.x = clamp_axis(self.circle.x, dx, step, lo, hi);
            self.circle.y = clamp_axis(self.circle.y, dy, step, lo, hi);
        }
    }

    /// The square around the player's circle.
    pub fn collider_rect(&self) -> (r: Rect)
        requires
            self.wf(),
        ensures
            r == bounding(&self.circle),
    {
        Rect::new(
            self.circle.x - self.circle.r,
            self.circle.y - self.circle.r,
            2 * self.circle.r,
            2 * self.circle.r,
        )
    }

    /// The player touches at least one of the obstacles.
    pub open spec fn touches_any(&self, obstacles: Seq<Obstacle>) -> bool {
        exists|i: int| 0 <= i < obstacles.len() && self.touches(&#[trigger] obstacles[i])
    }

    /// The player's circle overlaps the obstacle's box.
    pub open spec fn touches(&self, obstacle: &Obstacle) -> bool {
        self.circle.meets_rect(&obstacle.rect)
    }

    /// Tests the player against one obstacle.
    pub fn collide(&self, obstacle: &Obstacle) -> (hit: bool)
        requires
            self.wf(),
            obstacle.wf(),
        ensures
            hit == self.touches(obstacle),
    {
        self.circle.overlaps_rect(&obstacle.rect)
    }

    /// Tests the player against every obstacle and sets the death flag if
    /// any of them is touched; a flag already set stays.
    pub fn check_collisions(&mut self, obstacles: &Vec<Obstacle>)
        requires
            old(self).wf(),
            forall|i: int| 0 <= i < obstacles.len() ==> (#[trigger] obstacles[i]).wf(),
        ensures
            final(self).death == (old(self).death || old(self).touches_any(obstacles@)),
            *final(self) == (Player { death: final(self).death, ..*old(self) }),
    {
        let mut i: usize = 0;
        while i < obstacles.len()
            invariant
                0 <= i <= obstacles.len(),
                self.wf(),
                forall|k: int| 0 <= k < obstacles.len() ==> (#[trigger] obstacles[k]).wf(),
                *self == (Player { death: self.death, ..*old(self) }),
                self.death == (old(self).death || old(self).touches_any(obstacles@.take(i as int))),
            decreases obstacles.len() - i,
        {
            let hit: bool = self.collide(&obstacles[i]);
            proof {
                let before = obstacles@.take(i as int);
                let after = obstacles@.take(i + 1);
                assert(forall|k: int| 0 <= k < i ==> before[k] == after[k]);
                assert(after[i as int] == obstacles@[i as int]);
                if hit {
                    assert(old(self).touches(&after[i as int]));
                }
                if old(self).touches_any(before) {
                    let k = choose|k: int| 0 <= k < before.len() && old(self).touches(&before[k]);
                    assert(old(self).touches(&after[k]));
                }
                if old(self).touches_any(after) && !hit {
                    let k = choose|k: int| 0 <= k < after.len() && old(self).touches(&after[k]);
                    assert(k < i);
                    assert(old(self).touches(&before[k]));
                }
            }
            if hit {
                self.death = true;
            }
            i += 1;
        }
        proof {
            assert(obstacles@.take(i as int) =~= obstacles@);
        }
    }
}

/// One coordinate after a step in direction `d`, held within `[lo, hi]`.
fn clamp_axis(v: i64, d: i8, step: i64, lo: i64, hi: i64) -> (r: i64)
    requires
        -COORD_LIMIT <= v <= COORD_LIMIT,
        -1 <= d <= 1,
        0 <= step <= TRAVEL_LIMIT,
        0 <= lo <= hi <= COORD_LIMIT,
    ensures
        r == clamped(v + d * step, lo as int, hi as int),
        lo <= r <= hi,
{
    let target: i64 = if d > 0 {
        v + step
    } else if d < 0 {
        v - step
    } else {
        v
    };
    assert(target == v + d * step) by (nonlinear_arith)
        requires
            (d == 1 && target == v + step) || (d == -1 && target == v - step) || (d == 0 && target
                == v),
    ;
    if target < lo {
        lo
    } else if target > hi {
        hi
    } else {
        target
    }
}

/// A falling square.
#[derive(Clone, Copy, Debug, PartialEq, Eq, Structural)]
pub struct Obstacle {
    pub rect: Rect,
    /// Pixels per second, downwards.
    pub speed: i64,
    pub health: i64,
}

impl Obstacle {
    /// The obstacle's numbers are within the limits of a frame.
    pub open spec fn wf(&self) -> bool {
        &&& self.rect.wf()
        &&& self.rect.w <= COORD_LIMIT
        &&& self.rect.h <= COORD_LIMIT
        &&& 0 <= self.speed <= SPEED_LIMIT
        &&& -HEALTH_FLOOR <= self.health <= HEALTH_LIMIT
    }

    /// The obstacle stays on the field: it has health left and its box has
    /// not fully passed the bottom edge.
    pub open spec fn survives(&self, field: &Field) -> bool {
        self.rect.y < field.height + self.rect.h && self.health > 0
    }

    /// The obstacle may start a frame on `field`.
    pub open spec fn rests(&self, field: &Field) -> bool {
        self.wf() && self.survives(field)
    }

    /// The obstacle after falling for `elapsed`.
    pub open spec fn moved(&self, elapsed: i64) -> Obstacle {
        Obstacle {
            rect: Rect { y: (self.rect.y + travel(self.speed, elapsed)) as i64, ..self.rect },
            ..*self
        }
    }

    /// The obstacle after a hit that deals `damage`.
    pub open spec fn struck(&self, damage: i64) -> Obstacle {
        Obstacle { health: (self.health - damage) as i64, ..*self }
    }

    /// A square of side `size` with its top-left corner at `(x, y)`.
    pub fn new(x: i64, y: i64, speed: i64, size: i64, health: i64) -> (o: Obstacle)
        ensures
            o == (Obstacle { rect: Rect { x, y, w: size, h: size }, speed, health }),
    {
        Obstacle { rect: Rect::new(x, y, size, size), speed, health }
    }

    /// The obstacle's box.
    pub fn collider_rect(&self) -> (r: Rect)
        ensures
            r == self.rect,
    {
        self.rect
    }

    /// Lets the obstacle fall for `elapsed`.
    pub fn movement(&mut self, elapsed: i64)
        requires
            old(self).wf(),
            old(self).rect.y <= 2 * COORD_LIMIT,
            0 <= elapsed <= TICK_LIMIT,
        ensures
            *final(self) == old(self).moved(elapsed),
            final(self).wf(),
    {
        let d: i64 = travelled(self.speed, elapsed);
        self.rect.y = self.rect.y + d;
    }

    /// Whether the obstacle stays on the field.
    pub fn alive(&self, field: &Field) -> (keep: bool)
        requires
            self.wf(),
            field.wf(),
        ensures
            keep == self.survives(field),
    {
        self.rect.y < field.height + self.rect.h && self.health > 0
    }
}

/// A bullet that rises from where the player fired it.
#[derive(Clone, Copy, Debug, PartialEq, Eq, Structural)]
pub struct Projectile {
    pub rect: Rect,
    /// Pixels per second, upwards.
    pub speed: i64,
    /// Set on the first obstacle struck.
    pub hit: bool,
    pub damage: i64,
}

impl Projectile {
    /// The projectile's numbers are within the limits of a frame.
    pub open spec fn wf(&self) -> bool {
        &&& self.rect.wf()
        &&& self.rect.w <= COORD_LIMIT
        &&& self.rect.h <= COORD_LIMIT
        &&& 0 <= self.speed <= SPEED_LIMIT
        &&& 0 < self.damage <= HEALTH_LIMIT
    }

    /// The projectile stays on the field: it has struck nothing and has not
    /// left through the top edge.
    pub open spec fn survives(&self) -> bool {
        self.rect.y > -self.rect.h && !self.hit
    }

    /// The projectile may start a frame.
    pub open spec fn rests(&self) -> bool {
        self.wf() && self.survives()
    }

    /// The projectile fired from the point `(x, y)`.
    pub open spec fn fired(x: i64, y: i64) -> Projectile {
        Projectile {
            rect: Rect {
                x: (x - PROJECTILE_WIDTH / 2) as i64,
                y: (y - PROJECTILE_HEIGHT / 2) as i64,
                w: PROJECTILE_WIDTH,
                h: PROJECTILE_HEIGHT,
            },
            speed: PROJECTILE_SPEED,
            hit: false,
            damage: PROJECTILE_DAMAGE,
        }
    }

    /// The projectile after rising for `elapsed`.
    pub open spec fn moved(&self, elapsed: i64) -> Projectile {
        Projectile {
            rect: Rect { y: (self.rect.y - travel(self.speed, elapsed)) as i64, ..self.rect },
            ..*self
        }
    }

    /// The projectile's box overlaps the obstacle's.
    pub open spec fn strikes(&self, obstacle: &Obstacle) -> bool {
        self.rect.meets(&obstacle.rect)
    }

    /// A projectile centred on `(x, y)`.
    pub fn new(x: i64, y: i64) -> (p: Projectile)
        requires
            -COORD_LIMIT <= x <= COORD_LIMIT,
            -COORD_LIMIT <= y <= COORD_LIMIT,
        ensures
            p == Projectile::fired(x, y),
            p.wf(),
    {
        Projectile {
            rect: Rect::new(
                x - PROJECTILE_WIDTH / 2,
                y - PROJECTILE_HEIGHT / 2,
                PROJECTILE_WIDTH,
                PROJECTILE_HEIGHT,
            ),
            speed: PROJECTILE_SPEED,
            hit: false,
            damage: PROJECTILE_DAMAGE,
        }
    }

    /// The projectile's box.
    pub fn collider_rect(&self) -> (r: Rect)
        ensures
            r == self.rect,
    {
        self.rect
    }

    /// Lets the projectile rise for `elapsed`.
    pub fn movement(&mut self, elapsed: i64)
        requires
            old(self).wf(),
            -2 * COORD_LIMIT <= old(self).rect.y,
            0 <= elapsed <= TICK_LIMIT,
        ensures
            *final(self) == old(self).moved(elapsed),
            final(self).wf(),
    {
        let d: i64 = travelled(self.speed, elapsed);
        self.rect.y = self.rect.y - d;
    }

    /// Tests the projectile against one obstacle.
    pub fn collide(&self, obstacle: &Obstacle) -> (hit: bool)
        requires
            self.wf(),
            obstacle.wf(),
        ensures
            hit == self.strikes(obstacle),
    {
        self.rect.overlaps(&obstacle.rect)
    }

    /// Whether the projectile stays on the field.
    pub fn alive(&self) -> (keep: bool)
        requires
            self.wf(),
        ensures
            keep == self.survives(),
    {
        self.rect.y > -self.rect.h && !self.hit
    }
}

} // verus!
