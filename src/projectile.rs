use vstd::prelude::*;

use crate::enemy::PADDLE_RADIUS;

verus! {

/// What a projectile is aimed at.
#[derive(Clone, Copy, Debug, PartialEq, Eq, Structural)]
pub enum ProjectileTarget {
    /// Fired by the paddle.
    Enemy,
    /// Fired by a ranged enemy.
    Core,
}

/// Speed of a projectile, in thousandths of a game unit per second.
pub open spec fn projectile_speed_of(t: ProjectileTarget) -> int {
    match t {
        ProjectileTarget::Enemy => 1_600_000,
        ProjectileTarget::Core => 250_000,
    }
}

/// Damping of a projectile, in thousandths per second.
pub open spec fn projectile_damping_of(t: ProjectileTarget) -> int {
    match t {
        ProjectileTarget::Enemy => 800,
        ProjectileTarget::Core => 100,
    }
}

impl ProjectileTarget {
    pub fn speed(&self) -> (r: u64)
        ensures
            r == projectile_speed_of(*self),
    {
        match self {
            ProjectileTarget::Enemy => 1_600_000,
            ProjectileTarget::Core => 250_000,
        }
    }

    pub fn damping(&self) -> (r: u64)
        ensures
            r == projectile_damping_of(*self),
    {
        match self {
            ProjectileTarget::Enemy => 800,
            ProjectileTarget::Core => 100,
        }
    }
}

/// Damping, in thousandths per second, of a projectile that has hit an enemy.
pub const SPENT_DAMPING: u64 = 30_000;

/// A projectile in flight, or spent after a hit.
#[derive(Clone, Copy, Debug, PartialEq, Eq, Structural)]
pub struct Projectile {
    pub target: ProjectileTarget,
    /// Speed in thousandths of a game unit per second.
    pub speed: u64,
    /// Damping in thousandths per second.
    pub damping: u64,
    /// False once it has hit: it no longer hits anything and fades out.
    pub active: bool,
}

impl Projectile {
    /// A fresh projectile aimed at `target`, with that target's speed and damping.
    pub fn new(target: ProjectileTarget) -> (r: Projectile)
        ensures
            r.target == target,
            r.speed == projectile_speed_of(target),
            r.damping == projectile_damping_of(target),
            r.active,
    {
        Projectile { target, speed: target.speed(), damping: target.damping(), active: true }
    }

    /// The projectile hit an enemy: it is spent, and strongly damped as it fades out.
    pub fn on_hit(&mut self)
        ensures
            *final(self) == (Projectile { active: false, damping: SPENT_DAMPING, ..*old(self) }),
    {
        self.active = false;
        self.damping = SPENT_DAMPING;
    }
}

/// What a hit on the core clears from inside the paddle's orbit: the enemies there, and
/// the projectiles there that are aimed at the core. Takes each one's distance from the
/// core; gives the indices to despawn, in order.
pub fn clear_inside_orbit(
    enemy_dists: &Vec<u64>,
    projectiles: &Vec<(ProjectileTarget, u64)>,
) -> (r: (Vec<usize>, Vec<usize>))
    ensures
        forall|k: int| 0 <= k < r.0@.len() ==> #[trigger] r.0@[k] < enemy_dists@.len(),
        forall|k: int| 0 <= k < r.1@.len() ==> #[trigger] r.1@[k] < projectiles@.len(),
        forall|i: int|
            0 <= i < enemy_dists@.len() ==> (r.0@.contains(i as usize) <==> #[trigger] enemy_dists@[i]
                < PADDLE_RADIUS),
        forall|i: int|
            0 <= i < projectiles@.len() ==> (r.1@.contains(i as usize) <==> (#[trigger] projectiles@[i]).0
                == ProjectileTarget::Core && projectiles@[i].1 < PADDLE_RADIUS),
        forall|a: int, b: int| 0 <= a < b < r.0@.len() ==> r.0@[a] < r.0@[b],
        forall|a: int, b: int| 0 <= a < b < r.1@.len() ==> r.1@[a] < r.1@[b],
{
    let mut enemies: Vec<usize> = Vec::new();
    let mut i: usize = 0;
    while i < enemy_dists.len()
        invariant
            i <= enemy_dists@.len(),
            forall|k: int| 0 <= k < enemies@.len() ==> #[trigger] enemies@[k] < i,
            forall|j: int|
                0 <= j < i ==> (enemies@.contains(j as usize) <==> #[trigger] enemy_dists@[j]
                    < PADDLE_RADIUS),
            forall|a: int, b: int| 0 <= a < b < enemies@.len() ==> enemies@[a] < enemies@[b],
        decreases enemy_dists@.len() - i,
    {
        let ghost before = enemies@;
        if enemy_dists[i] < PADDLE_RADIUS {
            enemies.push(i);
        }
        assert forall|j: int| 0 <= j <= i implies (enemies@.contains(j as usize) <==> #[trigger] enemy_dists@[j]
            < PADDLE_RADIUS) by {
            if j < i {
                if before.contains(j as usize) {
                    let k = choose|k: int| 0 <= k < before.len() && before[k] == j as usize;
                    assert(enemies@[k] == j as usize);
                }
                if enemies@.contains(j as usize) {
                    let k = choose|k: int| 0 <= k < enemies@.len() && enemies@[k] == j as usize;
                    if k < before.len() {
                        assert(before[k] == j as usize);
                    }
                }
            } else {
                if enemy_dists@[j] < PADDLE_RADIUS {
                    assert(enemies@[enemies@.len() - 1] == j as usize);
                }
                if enemies@.contains(j as usize) {
                    let k = choose|k: int| 0 <= k < enemies@.len() && enemies@[k] == j as usize;
                    if k < before.len() {
                        assert(before[k] < i);
                    }
                }
            }
        }
        i = i + 1;
    }
    let mut shots: Vec<usize> = Vec::new();
    let mut i: usize = 0;
    while i < projectiles.len()
        invariant
            i <= projectiles@.len(),
            forall|k: int| 0 <= k < shots@.len() ==> #[trigger] shots@[k] < i,
            forall|j: int|
                0 <= j < i ==> (shots@.contains(j as usize) <==> (#[trigger] projectiles@[j]).0
                    == ProjectileTarget::Core && projectiles@[j].1 < PADDLE_RADIUS),
            forall|a: int, b: int| 0 <= a < b < shots@.len() ==> shots@[a] < shots@[b],
        decreases projectiles@.len() - i,
    {
        let ghost before = shots@;
        let (target, dist) = projectiles[i];
        let hit = target == ProjectileTarget::Core && dist < PADDLE_RADIUS;
        if hit {
            shots.push(i);
        }
        assert forall|j: int| 0 <= j <= i implies (shots@.contains(j as usize) <==> (
        #[trigger] projectiles@[j]).0 == ProjectileTarget::Core && projectiles@[j].1
            < PADDLE_RADIUS) by {
            if j < i {
                if before.contains(j as usize) {
                    let k = choose|k: int| 0 <= k < before.len() && before[k] == j as usize;
                    assert(shots@[k] == j as usize);
                }
                if shots@.contains(j as usize) {
                    let k = choose|k: int| 0 <= k < shots@.len() && shots@[k] == j as usize;
                    if k < before.len() {
                        assert(before[k] == j as usize);
                    }
                }
            } else {
                if hit {
                    assert(shots@[shots@.len() - 1] == j as usize);
                }
                if shots@.contains(j as usize) {
                    let k = choose|k: int| 0 <= k < shots@.len() && shots@[k] == j as usize;
                    if k < before.len() {
                        assert(before[k] < i);
                    }
                }
            }
        }
        i = i + 1;
    }
    (enemies, shots)
}

} // verus!
