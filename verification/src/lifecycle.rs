//! Movement of whole collections, and the pruning that ends a frame.

use vstd::prelude::*;
use crate::entity::{Field, Obstacle, Projectile};
use crate::units::{COORD_LIMIT, TICK_LIMIT};

verus! {

/// The test that keeps an obstacle on `field`.
pub open spec fn obstacle_stays(field: Field) -> spec_fn(Obstacle) -> bool {
    |o: Obstacle| o.survives(&field)
}

/// The test that keeps a projectile.
pub open spec fn projectile_stays() -> spec_fn(Projectile) -> bool {
    |p: Projectile| p.survives()
}

/// The obstacles that stay on `field`, in their order.
pub open spec fn kept_obstacles(obstacles: Seq<Obstacle>, field: &Field) -> Seq<Obstacle> {
    obstacles.filter(obstacle_stays(*field))
}

/// The projectiles that stay, in their order.
pub open spec fn kept_projectiles(projectiles: Seq<Projectile>) -> Seq<Projectile> {
    projectiles.filter(projectile_stays())
}

/// Every obstacle after falling for `elapsed`.
pub open spec fn fallen(obstacles: Seq<Obstacle>, elapsed: i64) -> Seq<Obstacle> {
    Seq::new(obstacles.len(), |i: int| obstacles[i].moved(elapsed))
}

/// Every projectile after rising for `elapsed`.
pub open spec fn risen(projectiles: Seq<Projectile>, elapsed: i64) -> Seq<Projectile> {
    Seq::new(projectiles.len(), |i: int| projectiles[i].moved(elapsed))
}

/// Lets every obstacle fall for `elapsed`.
pub fn advance_obstacles(obstacles: &mut Vec<Obstacle>, elapsed: i64)
    requires
        0 <= elapsed <= TICK_LIMIT,
        forall|i: int|
            0 <= i < old(obstacles).len() ==> (#[trigger] old(obstacles)[i]).wf() && old(
                obstacles,
            )[i].rect.y <= 2 * COORD_LIMIT,
    ensures
        final(obstacles)@ == fallen(old(obstacles)@, elapsed),
        forall|i: int| 0 <= i < final(obstacles).len() ==> (#[trigger] final(obstacles)[i]).wf(),
{
    let ghost before = obstacles@;
    let n: usize = obstacles.len();
    let mut i: usize = 0;
    while i < n
        invariant
            0 <= i <= n,
            n == before.len(),
            obstacles@.len() == n,
            0 <= elapsed <= TICK_LIMIT,
            forall|k: int|
                0 <= k < n ==> (#[trigger] before[k]).wf() && before[k].rect.y <= 2 * COORD_LIMIT,
            forall|k: int| 0 <= k < i ==> #[trigger] obstacles@[k] == before[k].moved(elapsed),
            forall|k: int| 0 <= k < i ==> (#[trigger] obstacles@[k]).wf(),
            forall|k: int| i <= k < n ==> #[trigger] obstacles@[k] == before[k],
        decreases n - i,
    {
        let mut o: Obstacle = obstacles[i];
        o.movement(elapsed);
        obstacles.set(i, o);
        i += 1;
    }
    assert(obstacles@ =~= fallen(before, elapsed));
}

/// Lets every projectile rise for `elapsed`.
pub fn advance_projectiles(projectiles: &mut Vec<Projectile>, elapsed: i64)
    requires
        0 <= elapsed <= TICK_LIMIT,
        forall|i: int|
            0 <= i < old(projectiles).len() ==> (#[trigger] old(projectiles)[i]).wf() && -2
                * COORD_LIMIT <= old(projectiles)[i].rect.y,
    ensures
        final(projectiles)@ == risen(old(projectiles)@, elapsed),
        forall|i: int|
            0 <= i < final(projectiles).len() ==> (#[trigger] final(projectiles)[i]).wf(),
{
    let ghost before = projectiles@;
    let n: usize = projectiles.len();
    let mut i: usize = 0;
    while i < n
        invariant
            0 <= i <= n,
            n == before.len(),
            projectiles@.len() == n,
            0 <= elapsed <= TICK_LIMIT,
            forall|k: int|
                0 <= k < n ==> (#[trigger] before[k]).wf() && -2 * COORD_LIMIT
                    <= before[k].rect.y,
            forall|k: int| 0 <= k < i ==> #[trigger] projectiles@[k] == before[k].moved(elapsed),
            forall|k: int| 0 <= k < i ==> (#[trigger] projectiles@[k]).wf(),
            forall|k: int| i <= k < n ==> #[trigger] projectiles@[k] == before[k],
        decreases n - i,
    {
        let mut p: Projectile = projectiles[i];
        p.movement(elapsed);
        projectiles.set(i, p);
        i += 1;
    }
    assert(projectiles@ =~= risen(before, elapsed));
}

/// Filtering one more element: the filtered prefix grows by that element if
/// it passes the test and stays as it is otherwise.
pub proof fn lemma_filter_step<T>(s: Seq<T>, pred: spec_fn(T) -> bool, i: int)
    requires
        0 <= i < s.len(),
    ensures
        s.take(i + 1).filter(pred) == if pred(s[i]) {
            s.take(i).filter(pred).push(s[i])
        } else {
            s.take(i).filter(pred)
        },
{
    reveal(Seq::filter);
    assert(s.take(i + 1).drop_last() =~= s.take(i));
    assert(s.take(i + 1).last() == s[i]);
}

/// Removes the obstacles that have no health left or have fully passed the
/// bottom edge. The others keep their order.
pub fn prune_obstacles(obstacles: &mut Vec<Obstacle>, field: &Field)
    requires
        field.wf(),
        forall|i: int| 0 <= i < old(obstacles).len() ==> (#[trigger] old(obstacles)[i]).wf(),
    ensures
        final(obstacles)@ == kept_obstacles(old(obstacles)@, field),
        final(obstacles).len() <= old(obstacles).len(),
        forall|i: int|
            0 <= i < final(obstacles).len() ==> (#[trigger] final(obstacles)[i]).wf()
                && final(obstacles)[i].survives(field),
{
    let ghost before = obstacles@;
    let ghost pred = obstacle_stays(*field);
    let n: usize = obstacles.len();
    let mut kept: Vec<Obstacle> = Vec::new();
    let mut i: usize = 0;
    proof {
        reveal(Seq::filter);
        assert(before.take(0).filter(pred) =~= Seq::<Obstacle>::empty());
    }
    while i < n
        invariant
            0 <= i <= n,
            n == before.len(),
            obstacles@ == before,
            field.wf(),
            pred == obstacle_stays(*field),
            forall|k: int| 0 <= k < n ==> (#[trigger] before[k]).wf(),
            kept@ == before.take(i as int).filter(pred),
            kept@.len() <= i,
            forall|k: int|
                0 <= k < kept@.len() ==> (#[trigger] kept@[k]).wf() && kept@[k].survives(field),
        decreases n - i,
    {
        let o: Obstacle = obstacles[i];
        proof {
            lemma_filter_step(before, pred, i as int);
        }
        if o.alive(field) {
            kept.push(o);
        }
        i += 1;
    }
    proof {
        assert(before.take(n as int) =~= before);
    }
    *obstacles = kept;
}

/// Removes the projectiles that are consumed or have left through the top
/// edge. The others keep their order.
pub fn prune_projectiles(projectiles: &mut Vec<Projectile>)
    requires
        forall|i: int| 0 <= i < old(projectiles).len() ==> (#[trigger] old(projectiles)[i]).wf(),
    ensures
        final(projectiles)@ == kept_projectiles(old(projectiles)@),
        final(projectiles).len() <= old(projectiles).len(),
        forall|i: int|
            0 <= i < final(projectiles).len() ==> (#[trigger] final(projectiles)[i]).wf()
                && final(projectiles)[i].survives(),
{
    let ghost before = projectiles@;
    let ghost pred = projectile_stays();
    let n: usize = projectiles.len();
    let mut kept: Vec<Projectile> = Vec::new();
    let mut i: usize = 0;
    proof {
        reveal(Seq::filter);
        assert(before.take(0).filter(pred) =~= Seq::<Projectile>::empty());
    }
    while i < n
        invariant
            0 <= i <= n,
            n == before.len(),
            projectiles@ == before,
            pred == projectile_stays(),
            forall|k: int| 0 <= k < n ==> (#[trigger] before[k]).wf(),
            kept@ == before.take(i as int).filter(pred),
            kept@.len() <= i,
            forall|k: int|
                0 <= k < kept@.len() ==> (#[trigger] kept@[k]).wf() && kept@[k].survives(),
        decreases n - i,
    {
        let p: Projectile = projectiles[i];
        proof {
            lemma_filter_step(before, pred, i as int);
        }
        if p.alive() {
            kept.push(p);
        }
        i += 1;
    }
    proof {
        assert(before.take(n as int) =~= before);
    }
    *projectiles = kept;
}

} // verus!
