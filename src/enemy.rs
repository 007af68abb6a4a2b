use vstd::prelude::*;

use vstd::arithmetic::div_mod::lemma_fundamental_div_mod;

use crate::fixed::{
    bounded_dir, floor_sqrt, floor_sqrt_u64, lemma_div_at_most, Vec2i, DIR_MAX, POS_MAX,
};
use crate::random::{pick_weighted, random_in, weight_sum};
use crate::timer::Timer;

verus! {

/// Radius of the paddle's orbit around the core, in thousandths of a game unit.
pub const PADDLE_RADIUS: u64 = 200_000;

/// Width of the band above its stop radius in which a ranged enemy slows down.
pub const STOP_BAND: u64 = 50_000;

/// Speed multiplier (in thousandths) at or below which a ranged enemy counts as stopped.
pub const STOP_CUTOFF: u64 = 50;

/// Impulse given by a projectile hit per unit of its direction.
pub const KNOCKBACK: i64 = 30;

/// Damping (thousandths per second) of an enemy that has become debris.
pub const DEBRIS_DAMPING: u64 = 5_000;

#[derive(Clone, Copy, Debug, PartialEq, Eq, Structural)]
pub enum EnemyKind {
    Creepinek,
    Shieldy,
    BigBoi,
    BangBang,
    ShieldedBang,
}

#[derive(Clone, Copy, Debug, PartialEq, Eq, Structural)]
pub enum EnemyGunBarrel {
    Inactive,
    Active,
}

pub open spec fn base_speed_of(k: EnemyKind) -> int {
    match k {
        EnemyKind::Creepinek => 35_000,
        EnemyKind::Shieldy => 20_000,
        EnemyKind::BigBoi => 15_000,
        EnemyKind::BangBang => 30_000,
        EnemyKind::ShieldedBang => 15_000,
    }
}

pub open spec fn base_time_of(k: EnemyKind) -> int {
    match k {
        EnemyKind::Creepinek => 2_000,
        EnemyKind::Shieldy => 3_000,
        EnemyKind::BigBoi => 4_500,
        EnemyKind::BangBang => 3_000,
        EnemyKind::ShieldedBang => 4_500,
    }
}

/// Ranged kinds approach from a cone and stop near the core to shoot.
pub open spec fn is_ranged(k: EnemyKind) -> bool {
    k == EnemyKind::BangBang || k == EnemyKind::ShieldedBang
}

/// The kinds the spawner draws from, in the order of its weight tables.
pub open spec fn spawnable(i: int) -> EnemyKind {
    if i == 0 {
        EnemyKind::Creepinek
    } else if i == 1 {
        EnemyKind::Shieldy
    } else if i == 2 {
        EnemyKind::BangBang
    } else if i == 3 {
        EnemyKind::BigBoi
    } else {
        EnemyKind::ShieldedBang
    }
}

/// Spawn weights of the kinds of `spawnable`, by score bracket.
pub open spec fn weights_for(score: int) -> Seq<u32> {
    if score <= 2 {
        seq![1u32, 0, 0, 0, 0]
    } else if score <= 10 {
        seq![5u32, 2, 0, 0, 0]
    } else if score <= 22 {
        seq![4u32, 1, 1, 0, 0]
    } else {
        seq![4u32, 1, 1, 1, 0]
    }
}

/// Range `[lo, hi)` of the spawn-interval multiplier, in thousandths, by score bracket:
/// the higher the score, the shorter the intervals.
pub open spec fn mult_range_for(score: int) -> (int, int) {
    if score <= 1 {
        (2500, 3000)
    } else if score <= 5 {
        (1500, 2000)
    } else if score <= 15 {
        (1200, 1500)
    } else if score <= 30 {
        (900, 1200)
    } else if score <= 50 {
        (700, 1000)
    } else if score <= 70 {
        (500, 800)
    } else if score <= 90 {
        (400, 700)
    } else {
        (300, 500)
    }
}

/// Milliseconds until the next spawn after one of `kind`, for a multiplier in thousandths.
pub open spec fn interval_of(kind: EnemyKind, mult: int) -> int {
    base_time_of(kind) * mult / 1000
}

/// Spawn heading in millidegrees: any angle for the melee kinds; for the ranged kinds
/// a base angle turned by a whole number of quarter turns.
pub open spec fn heading_of(kind: EnemyKind, base: int, quadrant: int) -> int {
    if is_ranged(kind) {
        base + 90_000 * quadrant
    } else {
        base
    }
}

/// The ranges the spawner draws a heading from: a base angle in `[30, 60)` degrees and
/// a quarter-turn count in `0..=3` for the ranged kinds, any angle in `[-360, 360)`
/// degrees for the others.
pub open spec fn heading_draw_ok(kind: EnemyKind, base: int, quadrant: int) -> bool {
    if is_ranged(kind) {
        30_000 <= base < 60_000 && 0 <= quadrant <= 3
    } else {
        -360_000 <= base < 360_000 && quadrant == 0
    }
}

impl EnemyKind {
    /// Base speed, in thousandths of a game unit per second.
    pub fn base_speed(&self) -> (r: u64)
        ensures
            r == base_speed_of(*self),
    {
        match self {
            EnemyKind::Creepinek => 35_000,
            EnemyKind::Shieldy => 20_000,
            EnemyKind::BigBoi => 15_000,
            EnemyKind::BangBang => 30_000,
            EnemyKind::ShieldedBang => 15_000,
        }
    }

    /// Base spawn interval in milliseconds.
    pub fn base_time(&self) -> (r: u64)
        ensures
            r == base_time_of(*self),
    {
        match self {
            EnemyKind::Creepinek => 2_000,
            EnemyKind::Shieldy => 3_000,
            EnemyKind::BigBoi => 4_500,
            EnemyKind::BangBang => 3_000,
            EnemyKind::ShieldedBang => 4_500,
        }
    }
}

/// The kind at position `i` of the spawner's tables.
pub fn spawnable_kind(i: usize) -> (r: EnemyKind)
    ensures
        r == spawnable(i as int),
{
    if i == 0 {
        EnemyKind::Creepinek
    } else if i == 1 {
        EnemyKind::Shieldy
    } else if i == 2 {
        EnemyKind::BangBang
    } else if i == 3 {
        EnemyKind::BigBoi
    } else {
        EnemyKind::ShieldedBang
    }
}

/// The spawn weights for the current score.
pub fn spawn_weights(score: u64) -> (r: Vec<u32>)
    ensures
        r@ == weights_for(score as int),
{
    let r = if score <= 2 {
        vec![1u32, 0, 0, 0, 0]
    } else if score <= 10 {
        vec![5u32, 2, 0, 0, 0]
    } else if score <= 22 {
        vec![4u32, 1, 1, 0, 0]
    } else {
        vec![4u32, 1, 1, 1, 0]
    };
    assert(r@ =~= weights_for(score as int));
    r
}

/// The range of the spawn-interval multiplier for the current score.
pub fn time_mult_range(score: u64) -> (r: (u64, u64))
    ensures
        (r.0 as int, r.1 as int) == mult_range_for(score as int),
{
    if score <= 1 {
        (2500, 3000)
    } else if score <= 5 {
        (1500, 2000)
    } else if score <= 15 {
        (1200, 1500)
    } else if score <= 30 {
        (900, 1200)
    } else if score <= 50 {
        (700, 1000)
    } else if score <= 70 {
        (500, 800)
    } else if score <= 90 {
        (400, 700)
    } else {
        (300, 500)
    }
}

/// Milliseconds until the next spawn after one of `kind`: its base time scaled by
/// `mult` thousandths, rounded down.
pub fn spawn_interval_ms(kind: EnemyKind, mult: u64) -> (r: u64)
    requires
        mult <= 1_000_000,
    ensures
        r == interval_of(kind, mult as int),
{
    kind.base_time() * mult / 1000
}

/// A request to spawn an enemy.
#[derive(Clone, Copy, Debug, PartialEq, Eq, Structural)]
pub struct SpawnEnemy {
    pub kind: EnemyKind,
    /// Direction from the core to the spawn point, in millidegrees.
    pub heading: i64,
    /// Distance of the spawn point from the core, in thousandths of a game unit.
    pub distance: u64,
}

/// Half the side of the visible playfield, in thousandths of a game unit.
pub const HALF_GAME_SIZE: u64 = 800_000;

/// Enemies appear this far beyond the playfield's corners.
pub const SPAWN_MARGIN: u64 = 100_000;

/// Distance from the core at which enemies appear: the half-diagonal of the playfield
/// (rounded down) plus `SPAWN_MARGIN`, outside the visible area in every direction.
pub open spec fn spawn_distance() -> int {
    floor_sqrt(2 * HALF_GAME_SIZE * HALF_GAME_SIZE) + SPAWN_MARGIN
}

/// What the spawner decides when its timer fires.
#[derive(Clone, Copy, Debug, PartialEq, Eq, Structural)]
pub struct SpawnPlan {
    pub spawn: SpawnEnemy,
    pub next_interval_ms: u64,
}

/// The spawn decided from the draws: the kind at `pick`, its heading from `base_angle`
/// and `quadrant`, and the next interval from the multiplier `mult`.
pub fn plan_spawn(pick: usize, base_angle: i64, quadrant: i64, mult: u64) -> (r: SpawnPlan)
    requires
        -1_000_000 <= base_angle <= 1_000_000,
        0 <= quadrant <= 3,
        mult <= 1_000_000,
    ensures
        r.spawn.kind == spawnable(pick as int),
        r.spawn.heading == heading_of(r.spawn.kind, base_angle as int, quadrant as int),
        r.spawn.distance == spawn_distance(),
        r.next_interval_ms == interval_of(r.spawn.kind, mult as int),
{
    let kind = spawnable_kind(pick);
    let half_diagonal = floor_sqrt_u64(2 * HALF_GAME_SIZE * HALF_GAME_SIZE);
    assert(half_diagonal <= 2 * HALF_GAME_SIZE) by {
        if half_diagonal > 2 * HALF_GAME_SIZE {
            assert(half_diagonal * half_diagonal > 2 * HALF_GAME_SIZE * HALF_GAME_SIZE)
                by (nonlinear_arith)
                requires half_diagonal > 2 * HALF_GAME_SIZE;
        }
    }
    let distance = half_diagonal + SPAWN_MARGIN;
    let heading = match kind {
        EnemyKind::BangBang | EnemyKind::ShieldedBang => base_angle + 90_000 * quadrant,
        _ => base_angle,
    };
    SpawnPlan {
        spawn: SpawnEnemy { kind, heading, distance },
        next_interval_ms: spawn_interval_ms(kind, mult),
    }
}

/// The periodic enemy spawner. It fires on its first tick.
pub struct Spawner {
    pub timer: Timer,
}

impl Spawner {
    pub fn new() -> (r: Spawner)
        ensures
            r.timer.wf(),
            r.timer.duration_ms == 0,
            !r.timer.finished,
    {
        Spawner { timer: Timer::new(0) }
    }

    /// Advances the spawn timer by `dt_ms`. When it fires, draws a kind by the weights of
    /// the current score (a kind of weight zero is never drawn), a heading, and a
    /// multiplier from the score's range, and restarts the timer with the new interval.
    pub fn tick(&mut self, dt_ms: u64, score: u64) -> (r: Option<SpawnPlan>)
        requires
            old(self).timer.wf(),
        ensures
            final(self).timer.wf(),
            r.is_some() == (!old(self).timer.finished && old(self).timer.elapsed_ms + dt_ms
                >= old(self).timer.duration_ms),
            r.is_none() ==> final(self).timer.duration_ms == old(self).timer.duration_ms,
            r matches Some(p) ==> {
                &&& exists|i: int|
                    0 <= i < 5 && p.spawn.kind == spawnable(i) && weights_for(score as int)[i]
                        > 0
                &&& exists|m: int|
                    mult_range_for(score as int).0 <= m < mult_range_for(score as int).1
                        && p.next_interval_ms == interval_of(p.spawn.kind, m)
                &&& exists|b: int, q: int|
                    heading_draw_ok(p.spawn.kind, b, q) && p.spawn.heading == #[trigger] heading_of(
                        p.spawn.kind,
                        b,
                        q,
                    )
                &&& p.spawn.distance == spawn_distance()
                &&& final(self).timer.duration_ms == p.next_interval_ms
                &&& final(self).timer.elapsed_ms == 0
                &&& !final(self).timer.finished
            },
    {
        if !self.timer.tick(dt_ms) {
            return None;
        }
        let weights = spawn_weights(score);
        assert(weight_sum(weights@) > 0 && weight_sum(weights@) <= 10) by {
            reveal_with_fuel(weight_sum, 6);
        }
        let pick = pick_weighted(&weights);
        let kind = spawnable_kind(pick);
        let (lo, hi) = time_mult_range(score);
        let mult = random_in(lo as i64, hi as i64) as u64;
        let plan = match kind {
            EnemyKind::BangBang | EnemyKind::ShieldedBang => {
                let base = random_in(30_000, 60_000);
                let quadrant = random_in(0, 4);
                plan_spawn(pick, base, quadrant, mult)
            },
            _ => {
                let angle = random_in(-360_000, 360_000);
                plan_spawn(pick, angle, 0, mult)
            },
        };
        self.timer = Timer::new(plan.next_interval_ms);
        Some(plan)
    }
}

/// Hit points a kind spawns with.
pub open spec fn health_of(k: EnemyKind) -> int {
    match k {
        EnemyKind::Creepinek => 3,
        EnemyKind::Shieldy => 3,
        EnemyKind::BigBoi => 8,
        EnemyKind::BangBang => 5,
        EnemyKind::ShieldedBang => 0,
    }
}

/// `b` to the power `e`.
pub open spec fn ipow(b: int, e: nat) -> int
    decreases e,
{
    if e == 0 {
        1
    } else {
        ipow(b, (e - 1) as nat) * b
    }
}

/// `1000^7`: the scale that makes `(r / 1000)^10 <= (t / 1000)^17` an integer comparison.
pub const CURVE_SCALE: u128 = 1_000_000_000_000_000_000_000;

/// The slow-down curve: `r / 1000` is `(t / 1000)` raised to the power 1.7, rounded down;
/// that is, the largest `r` with `r^10 * 1000^7 <= t^17`.
pub open spec fn is_slowdown(t: int, r: int) -> bool {
    0 <= r && ipow(r, 10) * (CURVE_SCALE as int) <= ipow(t, 17) && ipow(t, 17) < ipow(r + 1, 10)
        * (CURVE_SCALE as int)
}

/// Position of `dist` in the band `[stop, stop + STOP_BAND]`, in thousandths, clamped to
/// `[0, 1000]`.
pub open spec fn band_position(stop: int, dist: int) -> int {
    if dist <= stop {
        0
    } else if dist - stop >= STOP_BAND {
        1000
    } else {
        (dist - stop) * 1000 / (STOP_BAND as int)
    }
}

/// What a projectile hit did to an enemy.
#[derive(Clone, Copy, Debug, PartialEq, Eq, Structural)]
pub enum ProjectileHit {
    /// Its last hit point went: it becomes debris.
    Killed,
    /// It lost a hit point and was knocked back.
    Damaged,
    /// Its shield took the hit: no damage, only knockback.
    Deflected,
}

/// A change of a ranged enemy's gun barrel.
#[derive(Clone, Copy, Debug, PartialEq, Eq, Structural)]
pub enum BarrelChange {
    Unchanged,
    /// The enemy has stopped near the core: it may fire.
    Activated,
    /// The enemy has moved off again: it may not fire.
    Deactivated,
}

/// An enemy, or the debris of one.
#[derive(Clone, Copy, Debug)]
pub struct Enemy {
    pub kind: EnemyKind,
    pub health: u8,
    /// Hits take no hit points while it is set.
    pub shielded: bool,
    /// Speed in thousandths of a game unit per second.
    pub speed: u64,
    /// Distance from the core at which a ranged enemy stops.
    pub stop_radius: Option<u64>,
    /// Speed multiplier in thousandths.
    pub speed_mult: u64,
    pub barrel: Option<EnemyGunBarrel>,
    /// Knockback still to be applied.
    pub impulse: Vec2i,
    /// Damping in thousandths per second, once it is debris.
    pub damping: Option<u64>,
    /// False once it has become debris: it is no longer hit nor counted as an enemy.
    pub active: bool,
}

impl Enemy {
    pub open spec fn wf(&self) -> bool {
        &&& self.active ==> self.health > 0
        &&& self.speed_mult <= 1000
        &&& -POS_MAX <= self.impulse.x <= POS_MAX
        &&& -POS_MAX <= self.impulse.y <= POS_MAX
    }

    /// A fresh enemy of `kind`, with the drawn `speed` and, for the ranged kind, the drawn
    /// `stop_radius`. The shielded ranged kind has no body yet: `None`.
    pub fn spawn(kind: EnemyKind, speed: u64, stop_radius: u64) -> (r: Option<Enemy>)
        ensures
            kind == EnemyKind::ShieldedBang <==> r.is_none(),
            r matches Some(e) ==> {
                &&& e.wf()
                &&& e.kind == kind
                &&& e.active
                &&& e.health == health_of(kind)
                &&& e.shielded == (kind == EnemyKind::Shieldy)
                &&& e.speed == speed
                &&& e.impulse == Vec2i { x: 0, y: 0 }
                &&& e.damping.is_none()
                &&& if kind == EnemyKind::BangBang {
                    e.stop_radius == Some(stop_radius) && e.barrel == Some(EnemyGunBarrel::Inactive)
                        && e.speed_mult == 0
                } else {
                    e.stop_radius.is_none() && e.barrel.is_none() && e.speed_mult == 1000
                }
            },
    {
        let base = Enemy {
            kind,
            health: 3,
            shielded: false,
            speed,
            stop_radius: None,
            speed_mult: 1000,
            barrel: None,
            impulse: Vec2i { x: 0, y: 0 },
            damping: None,
            active: true,
        };
        match kind {
            EnemyKind::Creepinek => Some(base),
            EnemyKind::Shieldy => Some(Enemy { shielded: true, ..base }),
            EnemyKind::BigBoi => Some(Enemy { health: 8, ..base }),
            EnemyKind::BangBang => Some(
                Enemy {
                    health: 5,
                    stop_radius: Some(stop_radius),
                    speed_mult: 0,
                    barrel: Some(EnemyGunBarrel::Inactive),
                    ..base
                },
            ),
            EnemyKind::ShieldedBang => None,
        }
    }

    /// Spawns an enemy of `kind` with a speed drawn from `[base, 1.5 * base)` and, for the
    /// ranged kind, a stop radius drawn from `[2, 2.4)` paddle radii.
    pub fn spawn_random(kind: EnemyKind) -> (r: Option<Enemy>)
        ensures
            kind == EnemyKind::ShieldedBang <==> r.is_none(),
            r matches Some(e) ==> {
                &&& e.wf()
                &&& e.kind == kind
                &&& e.active
                &&& e.health == health_of(kind)
                &&& e.shielded == (kind == EnemyKind::Shieldy)
                &&& base_speed_of(kind) <= e.speed < base_speed_of(kind) * 3 / 2
                &&& e.impulse == Vec2i { x: 0, y: 0 }
                &&& e.damping.is_none()
                &&& if kind == EnemyKind::BangBang {
                    &&& e.stop_radius matches Some(s) && 2 * PADDLE_RADIUS <= s < 2 * PADDLE_RADIUS
                        + 2 * PADDLE_RADIUS / 5
                    &&& e.barrel == Some(EnemyGunBarrel::Inactive)
                    &&& e.speed_mult == 0
                } else {
                    e.stop_radius.is_none() && e.barrel.is_none() && e.speed_mult == 1000
                }
            },
    {
        let base = kind.base_speed();
        let speed = random_in(base as i64, (base * 3 / 2) as i64) as u64;
        let stop = random_in(
            (2 * PADDLE_RADIUS) as i64,
            (2 * PADDLE_RADIUS + 2 * PADDLE_RADIUS / 5) as i64,
        ) as u64;
        Enemy::spawn(kind, speed, stop)
    }

    /// A projectile moving along `dir` hits this enemy. A shielded enemy keeps its hit
    /// points and is knocked back; another loses one hit point and is knocked back, or
    /// becomes debris (strongly damped) when that was its last.
    pub fn on_projectile_hit(&mut self, dir: Vec2i) -> (r: ProjectileHit)
        requires
            old(self).wf(),
            old(self).active,
            bounded_dir(dir),
            -POS_MAX + DIR_MAX * KNOCKBACK <= old(self).impulse.x <= POS_MAX - DIR_MAX * KNOCKBACK,
            -POS_MAX + DIR_MAX * KNOCKBACK <= old(self).impulse.y <= POS_MAX - DIR_MAX * KNOCKBACK,
        ensures
            final(self).wf(),
            final(self).kind == old(self).kind,
            final(self).shielded == old(self).shielded,
            old(self).shielded ==> r == ProjectileHit::Deflected,
            !old(self).shielded && old(self).health == 1 ==> r == ProjectileHit::Killed,
            !old(self).shielded && old(self).health > 1 ==> r == ProjectileHit::Damaged,
            r == ProjectileHit::Deflected ==> final(self).health == old(self).health,
            r != ProjectileHit::Deflected ==> final(self).health == old(self).health - 1,
            r != ProjectileHit::Killed ==> {
                &&& final(self).impulse.x == old(self).impulse.x + KNOCKBACK * dir.x
                &&& final(self).impulse.y == old(self).impulse.y + KNOCKBACK * dir.y
                &&& final(self).active
                &&& final(self).damping == old(self).damping
            },
            r == ProjectileHit::Killed ==> {
                &&& final(self).impulse == old(self).impulse
                &&& !final(self).active
                &&& final(self).damping == Some(DEBRIS_DAMPING)
            },
    {
        if self.shielded {
            self.knock_back(dir);
            ProjectileHit::Deflected
        } else {
            self.health = self.health - 1;
            if self.health == 0 {
                self.active = false;
                self.damping = Some(DEBRIS_DAMPING);
                ProjectileHit::Killed
            } else {
                self.knock_back(dir);
                ProjectileHit::Damaged
            }
        }
    }

    fn knock_back(&mut self, dir: Vec2i)
        requires
            bounded_dir(dir),
            -POS_MAX + DIR_MAX * KNOCKBACK <= old(self).impulse.x <= POS_MAX - DIR_MAX * KNOCKBACK,
            -POS_MAX + DIR_MAX * KNOCKBACK <= old(self).impulse.y <= POS_MAX - DIR_MAX * KNOCKBACK,
        ensures
            final(self).impulse.x == old(self).impulse.x + KNOCKBACK * dir.x,
            final(self).impulse.y == old(self).impulse.y + KNOCKBACK * dir.y,
            -POS_MAX <= final(self).impulse.x <= POS_MAX,
            -POS_MAX <= final(self).impulse.y <= POS_MAX,
            *final(self) == (Enemy { impulse: final(self).impulse, ..*old(self) }),
    {
        self.impulse = Vec2i {
            x: self.impulse.x + KNOCKBACK * dir.x,
            y: self.impulse.y + KNOCKBACK * dir.y,
        };
    }

    /// Turns the enemy into debris: no longer an enemy, strongly damped.
    pub fn despawn(&mut self)
        requires
            old(self).wf(),
        ensures
            final(self).wf(),
            *final(self) == (Enemy { active: false, damping: Some(DEBRIS_DAMPING), ..*old(self) }),
    {
        self.active = false;
        self.damping = Some(DEBRIS_DAMPING);
    }

    /// Sets the speed multiplier of an enemy that stops near the core from its distance
    /// `core_dist` to the core: 1 far away, falling along the slow-down curve to 0 within
    /// the band above its stop radius. Crossing the cutoff downward activates its gun
    /// barrel, crossing it upward deactivates it; the same cutoff holds both ways.
    pub fn slow_down_near_core(&mut self, core_dist: u64) -> (r: BarrelChange)
        requires
            old(self).wf(),
        ensures
            final(self).wf(),
            old(self).stop_radius.is_none() ==> r == BarrelChange::Unchanged && *final(self)
                == *old(self),
            old(self).stop_radius matches Some(stop) ==> {
                &&& is_slowdown(band_position(stop as int, core_dist as int), final(self).speed_mult as int)
                &&& r == if final(self).speed_mult <= STOP_CUTOFF && old(self).speed_mult > STOP_CUTOFF {
                    BarrelChange::Activated
                } else if final(self).speed_mult > STOP_CUTOFF && old(self).speed_mult <= STOP_CUTOFF {
                    BarrelChange::Deactivated
                } else {
                    BarrelChange::Unchanged
                }
                &&& final(self).barrel == match (old(self).barrel, r) {
                    (Some(_), BarrelChange::Activated) => Some(EnemyGunBarrel::Active),
                    (Some(_), BarrelChange::Deactivated) => Some(EnemyGunBarrel::Inactive),
                    _ => old(self).barrel,
                }
            },
    {
        match self.stop_radius {
            None => BarrelChange::Unchanged,
            Some(stop) => {
                let t = if core_dist <= stop {
                    0
                } else if core_dist - stop >= STOP_BAND {
                    1000
                } else {
                    (core_dist - stop) * 1000 / STOP_BAND
                };
                let prev = self.speed_mult;
                self.speed_mult = slowdown_curve(t);
                let change = if self.speed_mult <= STOP_CUTOFF && prev > STOP_CUTOFF {
                    BarrelChange::Activated
                } else if self.speed_mult > STOP_CUTOFF && prev <= STOP_CUTOFF {
                    BarrelChange::Deactivated
                } else {
                    BarrelChange::Unchanged
                };
                if self.barrel.is_some() {
                    match change {
                        BarrelChange::Activated => self.barrel = Some(EnemyGunBarrel::Active),
                        BarrelChange::Deactivated => self.barrel = Some(EnemyGunBarrel::Inactive),
                        BarrelChange::Unchanged => {},
                    }
                }
                change
            },
        }
    }
}

proof fn lemma_ipow_nonneg(b: int, e: nat)
    requires
        b >= 0,
    ensures
        ipow(b, e) >= 0,
    decreases e,
{
    if e > 0 {
        lemma_ipow_nonneg(b, (e - 1) as nat);
        let p = ipow(b, (e - 1) as nat);
        assert(p * b >= 0) by (nonlinear_arith)
            requires p >= 0, b >= 0;
    }
}

proof fn lemma_ipow_mono_base(a: int, b: int, e: nat)
    requires
        0 <= a <= b,
    ensures
        ipow(a, e) <= ipow(b, e),
    decreases e,
{
    if e > 0 {
        lemma_ipow_mono_base(a, b, (e - 1) as nat);
        lemma_ipow_nonneg(a, (e - 1) as nat);
        let (p, q) = (ipow(a, (e - 1) as nat), ipow(b, (e - 1) as nat));
        assert(p * a <= q * b) by (nonlinear_arith)
            requires 0 <= p <= q, 0 <= a <= b;
    }
}

proof fn lemma_ipow_mono_exp(b: int, k: nat, e: nat)
    requires
        b >= 1,
        k <= e,
    ensures
        ipow(b, k) <= ipow(b, e),
    decreases e,
{
    if k < e {
        lemma_ipow_mono_exp(b, k, (e - 1) as nat);
        lemma_ipow_nonneg(b, (e - 1) as nat);
        let p = ipow(b, (e - 1) as nat);
        assert(p <= p * b) by (nonlinear_arith)
            requires p >= 0, b >= 1;
    }
}

proof fn lemma_ipow_add(b: int, e1: nat, e2: nat)
    ensures
        ipow(b, e1 + e2) == ipow(b, e1) * ipow(b, e2),
    decreases e2,
{
    if e2 > 0 {
        lemma_ipow_add(b, e1, (e2 - 1) as nat);
        assert((e1 + e2 - 1) as nat == e1 + (e2 - 1) as nat);
        let (p, q) = (ipow(b, e1), ipow(b, (e2 - 1) as nat));
        assert(p * q * b == p * (q * b)) by (nonlinear_arith);
    }
}

/// `b^e`, for a power that fits in 128 bits.
fn pow_u128(b: u128, e: u32) -> (r: u128)
    requires
        ipow(b as int, e as nat) <= u128::MAX,
    ensures
        r == ipow(b as int, e as nat),
{
    let mut p: u128 = 1;
    let mut k: u32 = 0;
    while k < e
        invariant
            k <= e,
            p == ipow(b as int, k as nat),
            ipow(b as int, e as nat) <= u128::MAX,
        decreases e - k,
    {
        proof {
            lemma_ipow_nonneg(b as int, k as nat);
            if b >= 1 {
                lemma_ipow_mono_exp(b as int, (k + 1) as nat, e as nat);
            }
            assert(ipow(b as int, (k + 1) as nat) == p * b);
        }
        p = p * b;
        k = k + 1;
    }
    p
}

/// `a <= x / d` exactly when `a * d <= x`.
proof fn lemma_le_floor_div(a: int, x: int, d: int)
    requires
        d > 0,
        x >= 0,
    ensures
        a <= x / d <==> a * d <= x,
{
    lemma_fundamental_div_mod(x, d);
    vstd::arithmetic::div_mod::lemma_mod_bound(x, d);
    let q = x / d;
    assert(q * d <= x && x < (q + 1) * d) by (nonlinear_arith)
        requires x == d * q + x % d, 0 <= x % d < d;
    if a <= q {
        assert(a * d <= q * d) by (nonlinear_arith)
            requires a <= q, d > 0;
    } else {
        assert(a * d >= (q + 1) * d) by (nonlinear_arith)
            requires a >= q + 1, d > 0;
    }
}

/// The slow-down curve at `t` thousandths.
pub fn slowdown_curve(t: u64) -> (r: u64)
    requires
        t <= 1000,
    ensures
        is_slowdown(t as int, r as int),
        r <= 1000,
{
    let ghost ti = t as int;
    reveal_with_fuel(ipow, 11);
    assert(ipow(1000, 8) == 1_000_000_000_000_000_000_000_000);
    assert(ipow(1000, 9) == 1_000_000_000_000_000_000_000_000_000);
    assert(ipow(1000, 10) == 1_000_000_000_000_000_000_000_000_000_000);
    proof {
        lemma_ipow_mono_base(ti, 1000, 8);
        lemma_ipow_mono_base(ti, 1000, 9);
        lemma_ipow_nonneg(ti, 8);
        lemma_ipow_nonneg(ti, 9);
        lemma_ipow_add(ti, 8, 9);
    }
    // t^17 = x * y, split so that no product exceeds 128 bits.
    let x = pow_u128(t as u128, 8);
    let y = pow_u128(t as u128, 9);
    let y1 = y / 100_000_000_000_000;
    let y0 = y % 100_000_000_000_000;
    proof {
        lemma_fundamental_div_mod(y as int, 100_000_000_000_000);
        vstd::arithmetic::div_mod::lemma_mod_bound(y as int, 100_000_000_000_000);
        lemma_div_at_most(y as int, 10_000_000_000_000, 100_000_000_000_000);
        assert(x * y1 <= 10_000_000_000_000_000_000_000_000_000_000_000_000) by (nonlinear_arith)
            requires x <= 1_000_000_000_000_000_000_000_000, y1 <= 10_000_000_000_000;
        assert(x * y0 <= 100_000_000_000_000_000_000_000_000_000_000_000_000) by (nonlinear_arith)
            requires x <= 1_000_000_000_000_000_000_000_000, y0 < 100_000_000_000_000;
        lemma_div_at_most((x * y0) as int, 1_000_000_000_000_000_000_000_000, 100_000_000_000_000);
    }
    let high = x * y1;
    let low = x * y0 / 100_000_000_000_000;
    let f = (high + low) / 10_000_000;
    proof {
        // f == floor(t^17 / 1000^7)
        let a = (x * y1) as int;
        let bb = (x * y0) as int;
        assert(ipow(ti, 17) == a * 100_000_000_000_000 + bb) by (nonlinear_arith)
            requires
                ipow(ti, 17) == x * y,
                y == 100_000_000_000_000 * y1 + y0,
                a == x * y1,
                bb == x * y0;
        vstd::arithmetic::div_mod::lemma_hoist_over_denominator(bb, a, 100_000_000_000_000);
        vstd::arithmetic::div_mod::lemma_div_denominator(
            a * 100_000_000_000_000 + bb,
            100_000_000_000_000,
            10_000_000,
        );
        assert(f as int == ipow(ti, 17) / (CURVE_SCALE as int));
        assert(ipow(ti, 17) <= 1_000_000_000_000_000_000_000_000_000_000 * CURVE_SCALE) by (
        nonlinear_arith)
            requires
                ipow(ti, 17) == ipow(ti, 8) * ipow(ti, 9),
                0 <= ipow(ti, 8) <= 1_000_000_000_000_000_000_000_000,
                0 <= ipow(ti, 9) <= 1_000_000_000_000_000_000_000_000_000;
        lemma_div_at_most(ipow(ti, 17), 1_000_000_000_000_000_000_000_000_000_000, CURVE_SCALE as int);
        lemma_ipow_nonneg(1001, 9);
        lemma_ipow_mono_base(1000, 1001, 9);
        assert(ipow(1001, 10) > 1_000_000_000_000_000_000_000_000_000_000);
    }
    let mut lo: u64 = 0;
    let mut hi: u64 = 1001;
    while hi - lo > 1
        invariant
            lo < hi <= 1001,
            ipow(lo as int, 10) <= f,
            f < ipow(hi as int, 10),
            f <= 1_000_000_000_000_000_000_000_000_000_000,
            ipow(1001, 10) > 1_000_000_000_000_000_000_000_000_000_000,
            ipow(1001, 10) <= u128::MAX,
        decreases hi - lo,
    {
        let mid: u64 = lo + (hi - lo) / 2;
        proof {
            lemma_ipow_mono_base(mid as int, 1001, 10);
        }
        if pow_u128(mid as u128, 10) <= f {
            lo = mid;
        } else {
            hi = mid;
        }
    }
    proof {
        if lo > 1000 {
            lemma_ipow_mono_base(1001, lo as int, 10);
        }
        lemma_le_floor_div(ipow(lo as int, 10), ipow(ti, 17), CURVE_SCALE as int);
        lemma_le_floor_div(ipow(hi as int, 10), ipow(ti, 17), CURVE_SCALE as int);
        assert(hi == lo + 1);
    }
    lo
}

} // verus!
