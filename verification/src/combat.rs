//! Projectiles against obstacles: every pair is tested once per frame, in
//! the order of the projectiles and, for each, in the order of the obstacles.

use vstd::prelude::*;
use crate::entity::{Obstacle, Projectile};
use crate::units::{ENTITY_CAP, FRAME_GAIN_LIMIT, HEALTH_FLOOR, HEALTH_LIMIT};

verus! {

/// What a pass over the pairs has earned.
#[derive(Clone, Copy, Debug, PartialEq, Eq, Structural)]
pub struct Tally {
    /// Sum of the health that each struck obstacle had when it was struck.
    pub gain: i64,
    /// Number of pairs that overlapped: one kill cue for each.
    pub kills: usize,
}

/// The obstacles after projectile `p` has struck those it overlaps.
pub open spec fn struck_by(p: &Projectile, obstacles: Seq<Obstacle>) -> Seq<Obstacle> {
    Seq::new(
        obstacles.len(),
        |j: int|
            if p.strikes(&obstacles[j]) {
                obstacles[j].struck(p.damage)
            } else {
                obstacles[j]
            },
    )
}

/// How many of the first `n` obstacles projectile `p` overlaps.
pub open spec fn strike_count(p: &Projectile, obstacles: Seq<Obstacle>, n: int) -> int
    decreases n,
{
    if n <= 0 {
        0
    } else {
        strike_count(p, obstacles, n - 1) + if p.strikes(&obstacles[n - 1]) {
            1int
        } else {
            0int
        }
    }
}

/// The health, before the hit, of those of the first `n` obstacles that
/// projectile `p` overlaps, summed.
pub open spec fn strike_gain(p: &Projectile, obstacles: Seq<Obstacle>, n: int) -> int
    decreases n,
{
    if n <= 0 {
        0
    } else {
        strike_gain(p, obstacles, n - 1) + if p.strikes(&obstacles[n - 1]) {
            obstacles[n - 1].health as int
        } else {
            0int
        }
    }
}

/// Projectile `p` after its pass over the obstacles: consumed if it
/// overlapped any of them.
pub open spec fn spent(p: &Projectile, obstacles: Seq<Obstacle>) -> Projectile {
    Projectile { hit: p.hit || strike_count(p, obstacles, obstacles.len() as int) > 0, ..*p }
}

/// The obstacles after the first `m` projectiles have passed over them.
pub open spec fn obstacles_after(
    projectiles: Seq<Projectile>,
    obstacles: Seq<Obstacle>,
    m: int,
) -> Seq<Obstacle>
    decreases m,
{
    if m <= 0 {
        obstacles
    } else {
        struck_by(&projectiles[m - 1], obstacles_after(projectiles, obstacles, m - 1))
    }
}

/// The score earned by the first `m` projectiles.
pub open spec fn hits_gain(projectiles: Seq<Projectile>, obstacles: Seq<Obstacle>, m: int) -> int
    decreases m,
{
    if m <= 0 {
        0
    } else {
        let met = obstacles_after(projectiles, obstacles, m - 1);
        hits_gain(projectiles, obstacles, m - 1) + strike_gain(
            &projectiles[m - 1],
            met,
            met.len() as int,
        )
    }
}

/// The number of overlapping pairs among the first `m` projectiles and all
/// obstacles.
pub open spec fn hits_count(projectiles: Seq<Projectile>, obstacles: Seq<Obstacle>, m: int) -> int
    decreases m,
{
    if m <= 0 {
        0
    } else {
        let met = obstacles_after(projectiles, obstacles, m - 1);
        hits_count(projectiles, obstacles, m - 1) + strike_count(
            &projectiles[m - 1],
            met,
            met.len() as int,
        )
    }
}

/// The projectiles after all of them have passed over the obstacles.
pub open spec fn projectiles_after(
    projectiles: Seq<Projectile>,
    obstacles: Seq<Obstacle>,
) -> Seq<Projectile> {
    Seq::new(
        projectiles.len(),
        |i: int| spent(&projectiles[i], obstacles_after(projectiles, obstacles, i)),
    )
}

/// Hits leave every obstacle in its place and change nothing but health,
/// and health only falls: the health of an obstacle is lower after the
/// first `m` projectiles exactly if one of them overlaps it.
pub proof fn lemma_hits_lower_health_only(
    projectiles: Seq<Projectile>,
    obstacles: Seq<Obstacle>,
    m: int,
)
    requires
        0 <= m <= projectiles.len(),
        m <= ENTITY_CAP,
        forall|i: int|
            0 <= i < projectiles.len() ==> 0 < (#[trigger] projectiles[i]).damage <= HEALTH_LIMIT,
        forall|j: int|
            0 <= j < obstacles.len() ==> -HEALTH_LIMIT <= (#[trigger] obstacles[j]).health
                <= HEALTH_LIMIT,
    ensures
        obstacles_after(projectiles, obstacles, m).len() == obstacles.len(),
        forall|j: int|
            #![trigger obstacles_after(projectiles, obstacles, m)[j]]
            0 <= j < obstacles.len() ==> {
                let then = obstacles_after(projectiles, obstacles, m)[j];
                &&& then.rect == obstacles[j].rect
                &&& then.speed == obstacles[j].speed
                &&& obstacles[j].health - m * 1_048_576 <= then.health <= obstacles[j].health
                &&& then.health < obstacles[j].health <==> exists|i: int|
                    0 <= i < m && (#[trigger] projectiles[i]).strikes(&obstacles[j])
            },
    decreases m,
{
    if m > 0 {
        lemma_hits_lower_health_only(projectiles, obstacles, m - 1);
        let met = obstacles_after(projectiles, obstacles, m - 1);
        let p = projectiles[m - 1];
        assert(0 < p.damage <= HEALTH_LIMIT);
        assert forall|j: int| 0 <= j < obstacles.len() implies {
            let then = #[trigger] obstacles_after(projectiles, obstacles, m)[j];
            &&& then.rect == obstacles[j].rect
            &&& then.speed == obstacles[j].speed
            &&& obstacles[j].health - m * 1_048_576 <= then.health <= obstacles[j].health
            &&& then.health < obstacles[j].health <==> exists|i: int|
                0 <= i < m && (#[trigger] projectiles[i]).strikes(&obstacles[j])
        } by {
            let then = obstacles_after(projectiles, obstacles, m)[j];
            let mid = met[j];
            assert(-HEALTH_LIMIT <= obstacles[j].health <= HEALTH_LIMIT);
            assert(p.strikes(&mid) == p.strikes(&obstacles[j]));
            if p.strikes(&mid) {
                assert(then == mid.struck(p.damage));
                assert(projectiles[m - 1].strikes(&obstacles[j]));
            } else {
                assert(then == mid);
                if exists|i: int| 0 <= i < m && (#[trigger] projectiles[i]).strikes(&obstacles[j]) {
                    let i = choose|i: int|
                        0 <= i < m && (#[trigger] projectiles[i]).strikes(&obstacles[j]);
                    assert(i < m - 1);
                }
            }
        }
    }
}

/// One pass earns no more, in either direction, than the health of the
/// obstacles it meets allows.
pub proof fn lemma_strike_gain_bounds(p: &Projectile, met: Seq<Obstacle>, n: int)
    requires
        0 <= n <= met.len(),
        forall|j: int| 0 <= j < met.len() ==> -HEALTH_FLOOR <= (#[trigger] met[j]).health
            <= HEALTH_LIMIT,
    ensures
        -8_589_934_592 * n <= strike_gain(p, met, n) <= 8_589_934_592 * n,
        0 <= strike_count(p, met, n) <= n,
    decreases n,
{
    if n > 0 {
        lemma_strike_gain_bounds(p, met, n - 1);
        assert(-HEALTH_FLOOR <= met[n - 1].health <= HEALTH_LIMIT);
    }
}

/// What the first `m` projectiles earn stays within the limit of a frame.
pub proof fn lemma_hits_gain_bounds(
    projectiles: Seq<Projectile>,
    obstacles: Seq<Obstacle>,
    m: int,
)
    requires
        0 <= m <= projectiles.len(),
        m <= ENTITY_CAP,
        obstacles.len() <= ENTITY_CAP,
        forall|i: int|
            0 <= i < projectiles.len() ==> 0 < (#[trigger] projectiles[i]).damage <= HEALTH_LIMIT,
        forall|j: int|
            0 <= j < obstacles.len() ==> -HEALTH_LIMIT <= (#[trigger] obstacles[j]).health
                <= HEALTH_LIMIT,
    ensures
        -35_184_372_088_832 * m <= hits_gain(projectiles, obstacles, m) <= 35_184_372_088_832 * m,
        -FRAME_GAIN_LIMIT <= hits_gain(projectiles, obstacles, m) <= FRAME_GAIN_LIMIT,
        0 <= hits_count(projectiles, obstacles, m) <= 4096 * m,
    decreases m,
{
    if m > 0 {
        lemma_hits_gain_bounds(projectiles, obstacles, m - 1);
        lemma_hits_lower_health_only(projectiles, obstacles, m - 1);
        let met = obstacles_after(projectiles, obstacles, m - 1);
        assert forall|j: int| 0 <= j < met.len() implies -HEALTH_FLOOR <= (#[trigger] met[j]).health
            <= HEALTH_LIMIT by {
            assert(-HEALTH_LIMIT <= obstacles[j].health <= HEALTH_LIMIT);
        }
        lemma_strike_gain_bounds(&projectiles[m - 1], met, met.len() as int);
    }
}

/// No hit among those of the first `m` projectiles lands on an obstacle
/// whose health has already fallen below zero.
pub open spec fn no_overkill(projectiles: Seq<Projectile>, obstacles: Seq<Obstacle>, m: int) -> bool {
    forall|i: int, j: int|
        #![trigger obstacles_after(projectiles, obstacles, i)[j]]
        0 <= i < m && 0 <= j < obstacles.len() && projectiles[i].strikes(
            &obstacles_after(projectiles, obstacles, i)[j],
        ) ==> obstacles_after(projectiles, obstacles, i)[j].health >= 0
}

/// A pass over obstacles of which those struck have health left earns
/// nothing negative.
pub proof fn lemma_strike_gain_nonnegative(p: &Projectile, met: Seq<Obstacle>, n: int)
    requires
        0 <= n <= met.len(),
        forall|j: int| 0 <= j < n && p.strikes(&met[j]) ==> (#[trigger] met[j]).health >= 0,
    ensures
        strike_gain(p, met, n) >= 0,
    decreases n,
{
    if n > 0 {
        lemma_strike_gain_nonnegative(p, met, n - 1);
        assert(p.strikes(&met[n - 1]) ==> met[n - 1].health >= 0);
    }
}

/// As long as no hit lands on an obstacle whose health is already below
/// zero, the hits earn nothing negative.
pub proof fn lemma_gain_without_overkill(
    projectiles: Seq<Projectile>,
    obstacles: Seq<Obstacle>,
    m: int,
)
    requires
        0 <= m <= projectiles.len(),
        m <= ENTITY_CAP,
        forall|i: int|
            0 <= i < projectiles.len() ==> 0 < (#[trigger] projectiles[i]).damage <= HEALTH_LIMIT,
        forall|j: int|
            0 <= j < obstacles.len() ==> -HEALTH_LIMIT <= (#[trigger] obstacles[j]).health
                <= HEALTH_LIMIT,
        no_overkill(projectiles, obstacles, m),
    ensures
        hits_gain(projectiles, obstacles, m) >= 0,
    decreases m,
{
    if m > 0 {
        lemma_gain_without_overkill(projectiles, obstacles, m - 1);
        lemma_hits_lower_health_only(projectiles, obstacles, m - 1);
        let met = obstacles_after(projectiles, obstacles, m - 1);
        let p = projectiles[m - 1];
        assert forall|j: int| 0 <= j < met.len() && p.strikes(&met[j]) implies (
        #[trigger] met[j]).health >= 0 by {
            assert(projectiles[m - 1].strikes(&obstacles_after(projectiles, obstacles, m - 1)[j]));
        }
        lemma_strike_gain_nonnegative(&p, met, met.len() as int);
    }
}

/// Lets one projectile strike every obstacle it overlaps: each such
/// obstacle loses the projectile's damage, and the projectile is consumed.
pub fn strike(p: &mut Projectile, obstacles: &mut Vec<Obstacle>) -> (tally: Tally)
    requires
        old(p).wf(),
        old(obstacles).len() <= ENTITY_CAP,
        forall|j: int|
            0 <= j < old(obstacles).len() ==> (#[trigger] old(obstacles)[j]).wf() && old(
                obstacles,
            )[j].health - old(p).damage >= -HEALTH_FLOOR,
    ensures
        final(obstacles)@ == struck_by(old(p), old(obstacles)@),
        *final(p) == spent(old(p), old(obstacles)@),
        tally.gain == strike_gain(old(p), old(obstacles)@, old(obstacles).len() as int),
        tally.kills == strike_count(old(p), old(obstacles)@, old(obstacles).len() as int),
        tally.kills <= old(obstacles).len(),
        -8_589_934_592 * old(obstacles).len() <= tally.gain <= 8_589_934_592 * old(obstacles).len(),
        forall|j: int| 0 <= j < final(obstacles).len() ==> (#[trigger] final(obstacles)[j]).wf(),
{
    let ghost before = obstacles@;
    let n: usize = obstacles.len();
    let mut gain: i64 = 0;
    let mut kills: usize = 0;
    let mut j: usize = 0;
    while j < n
        invariant
            0 <= j <= n,
            n == before.len(),
            n <= ENTITY_CAP,
            obstacles@.len() == n,
            before == old(obstacles)@,
            *p == *old(p),
            p.wf(),
            forall|k: int|
                0 <= k < n ==> (#[trigger] before[k]).wf() && before[k].health - p.damage
                    >= -HEALTH_FLOOR,
            forall|k: int| 0 <= k < j ==> #[trigger] obstacles@[k] == struck_by(p, before)[k],
            forall|k: int| j <= k < n ==> #[trigger] obstacles@[k] == before[k],
            gain == strike_gain(p, before, j as int),
            kills == strike_count(p, before, j as int),
            kills <= j,
            -8_589_934_592 * j <= gain <= 8_589_934_592 * j,
        decreases n - j,
    {
        let target: Obstacle = obstacles[j];
        assert(target == before[j as int]);
        if p.collide(&target) {
            gain = gain + target.health;
            kills = kills + 1;
            obstacles.set(
                j,
                Obstacle { rect: target.rect, speed: target.speed, health: target.health - p.damage },
            );
        }
        j += 1;
    }
    if kills > 0 {
        p.hit = true;
    }
    assert(obstacles@ =~= struck_by(old(p), before));
    Tally { gain, kills }
}

/// Resolves every projectile against every obstacle. Nothing is removed
/// here: consumed projectiles and dead obstacles stay until pruning.
pub fn resolve_hits(projectiles: &mut Vec<Projectile>, obstacles: &mut Vec<Obstacle>) -> (tally:
    Tally)
    requires
        old(projectiles).len() <= ENTITY_CAP,
        old(obstacles).len() <= ENTITY_CAP,
        forall|i: int| 0 <= i < old(projectiles).len() ==> (#[trigger] old(projectiles)[i]).wf(),
        forall|j: int|
            0 <= j < old(obstacles).len() ==> (#[trigger] old(obstacles)[j]).wf() && old(
                obstacles,
            )[j].health >= -HEALTH_LIMIT,
    ensures
        final(obstacles)@ == obstacles_after(
            old(projectiles)@,
            old(obstacles)@,
            old(projectiles).len() as int,
        ),
        final(projectiles)@ == projectiles_after(old(projectiles)@, old(obstacles)@),
        tally.gain == hits_gain(old(projectiles)@, old(obstacles)@, old(projectiles).len() as int),
        tally.kills == hits_count(
            old(projectiles)@,
            old(obstacles)@,
            old(projectiles).len() as int,
        ),
        -FRAME_GAIN_LIMIT <= tally.gain <= FRAME_GAIN_LIMIT,
        tally.kills <= 16_777_216,
        final(obstacles).len() == old(obstacles).len(),
        final(projectiles).len() == old(projectiles).len(),
        forall|i: int|
            0 <= i < final(projectiles).len() ==> (#[trigger] final(projectiles)[i]).wf(),
        forall|j: int| 0 <= j < final(obstacles).len() ==> (#[trigger] final(obstacles)[j]).wf(),
{
    let ghost shots = projectiles@;
    let ghost targets = obstacles@;
    let m: usize = projectiles.len();
    let n: usize = obstacles.len();
    let mut gain: i64 = 0;
    let mut kills: usize = 0;
    let mut i: usize = 0;
    while i < m
        invariant
            0 <= i <= m,
            m == shots.len(),
            n == targets.len(),
            m <= ENTITY_CAP,
            n <= ENTITY_CAP,
            projectiles@.len() == m,
            obstacles@.len() == n,
            forall|k: int| 0 <= k < m ==> (#[trigger] shots[k]).wf(),
            forall|k: int| 0 <= k < m ==> (#[trigger] projectiles@[k]).wf(),
            forall|k: int| i <= k < m ==> #[trigger] projectiles@[k] == shots[k],
            forall|k: int|
                0 <= k < i ==> #[trigger] projectiles@[k] == projectiles_after(shots, targets)[k],
            obstacles@ == obstacles_after(shots, targets, i as int),
            forall|k: int|
                0 <= k < n ==> (#[trigger] obstacles@[k]).wf() && obstacles@[k].health
                    >= -1_048_576 - i * 1_048_576,
            gain == hits_gain(shots, targets, i as int),
            kills == hits_count(shots, targets, i as int),
            kills <= i * 4096,
            -35_184_372_088_832 * i <= gain <= 35_184_372_088_832 * i,
        decreases m - i,
    {
        let mut p: Projectile = projectiles[i];
        let pass: Tally = strike(&mut p, obstacles);
        projectiles.set(i, p);
        gain = gain + pass.gain;
        kills = kills + pass.kills;
        i += 1;
    }
    assert(projectiles@ =~= projectiles_after(shots, targets));
    Tally { gain, kills }
}

} // verus!
