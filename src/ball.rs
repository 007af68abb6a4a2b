use vstd::prelude::*;

use crate::ammo::{clamp_int, PaddleAmmo};
use crate::fixed::{abs, bounded_dir, div0, floor_sqrt, floor_sqrt_u64, lemma_div_at_most, len_sq, mirror_x, mirror_y, reflect, Vec2i};
use crate::paddle::{holds_ball, launch_heading, wrap_angle, PaddleMode};
use crate::timer::{CooldownTag, Cooldowns};

verus! {

/// Speed of a fresh ball, in thousandths of a game unit per second.
pub const BALL_BASE_SPEED: u64 = 250_000;

/// Half the height of the paddle's collider, in thousandths of a game unit.
pub const PADDLE_HALF_HEIGHT: u64 = 50_000;

/// Largest deflection of a ball off the paddle, in millidegrees.
pub const MAX_REFLECTION_ANGLE: u64 = 20_000;

/// Time after a reflection during which further paddle hits are ignored.
pub const PADDLE_GRACE_MS: u64 = 200;

/// Time after a reflection during which further wall hits are ignored.
pub const WALL_GRACE_MS: u64 = 100;

/// Speed gain of a paddle reflection, in thousandths.
pub const REFLECT_SPEEDUP: u64 = 1225;

/// Speed kept after a wall hit, in thousandths.
pub const WALL_SLOWDOWN: u64 = 900;

/// Largest ball speed the contracts admit.
pub const SPEED_MAX: u64 = 1_000_000_000_000;

/// Where `speed` lies between the reference speeds `min` and `max`, in thousandths:
/// 0 at or below `min`, 1000 at or above `max`, linear (rounded down) between.
pub open spec fn speed_factor_of(speed: int, min: int, max: int) -> int {
    if speed <= min {
        0
    } else if speed >= max {
        1000
    } else {
        (speed - min) * 1000 / (max - min)
    }
}

/// The speed factor of `speed` between `min` and `max`, in thousandths.
pub fn speed_factor(speed: u64, min: u64, max: u64) -> (r: u64)
    requires
        min < max,
        speed <= SPEED_MAX,
    ensures
        r == speed_factor_of(speed as int, min as int, max as int),
        r <= 1000,
{
    if speed <= min {
        0
    } else if speed >= max {
        1000
    } else {
        proof {
            assert((speed - min) * 1000 <= 1000 * (max - min)) by (nonlinear_arith)
                requires speed - min <= max - min;
            lemma_div_at_most(((speed - min) * 1000) as int, 1000, (max - min) as int);
        }
        (speed - min) * 1000 / (max - min)
    }
}

/// Deflection of a ball off the paddle, in millidegrees, from where it hit the paddle in
/// the paddle's frame: `x` positive on the outer side, `y` along the paddle. The further
/// from the centre, the larger the deflection (up to `MAX_REFLECTION_ANGLE`, along a
/// curve of power 3/2); a hit from outside is sent back outside (a half turn more).
pub open spec fn paddle_deflection(x: int, y: int) -> int {
    let ratio = if abs(y) * 1000 / (PADDLE_HALF_HEIGHT as int) >= 1000 {
        1000
    } else {
        abs(y) * 1000 / (PADDLE_HALF_HEIGHT as int)
    };
    let factor = ratio * floor_sqrt(ratio * 1000) / 1000;
    let magnitude = factor * (MAX_REFLECTION_ANGLE as int) / 1000;
    let signed = if (y < 0) != (x < 0) {
        -magnitude
    } else {
        magnitude
    };
    signed + if x > 0 {
        180_000int
    } else {
        0
    }
}

/// The deflection of a ball off the paddle for a hit at `(x, y)` in the paddle's frame.
pub fn reflection_angle(x: i64, y: i64) -> (r: i64)
    requires
        -1_000_000_000_000 <= x <= 1_000_000_000_000,
        -1_000_000_000_000 <= y <= 1_000_000_000_000,
    ensures
        r == paddle_deflection(x as int, y as int),
        -20_000 <= r <= 200_000,
{
    let ay: u64 = if y < 0 {
        (-y) as u64
    } else {
        y as u64
    };
    let q = ay * 1000 / PADDLE_HALF_HEIGHT;
    let ratio: u64 = if q >= 1000 {
        1000
    } else {
        q
    };
    let root = floor_sqrt_u64(ratio * 1000);
    assert(root <= 1000) by {
        if root > 1000 {
            assert(root * root > 1_000_000) by (nonlinear_arith)
                requires root > 1000;
        }
    }
    assert(ratio * root <= 1_000_000) by (nonlinear_arith)
        requires ratio <= 1000, root <= 1000;
    let factor = ratio * root / 1000;
    proof {
        lemma_div_at_most((ratio * root) as int, 1000, 1000);
    }
    let magnitude = (factor * MAX_REFLECTION_ANGLE / 1000) as i64;
    proof {
        lemma_div_at_most((factor * MAX_REFLECTION_ANGLE) as int, 20_000, 1000);
    }
    let signed = if (y < 0) != (x < 0) {
        -magnitude
    } else {
        magnitude
    };
    if x > 0 {
        signed + 180_000
    } else {
        signed
    }
}

/// Speed of a ball reflected off the paddle: 1.225 times faster, kept within one to five
/// base speeds.
pub open spec fn reflected_speed(speed: int) -> int {
    clamp_int(speed * (REFLECT_SPEEDUP as int) / 1000, BALL_BASE_SPEED as int, 5 * BALL_BASE_SPEED)
}

/// Where the ball is relative to the paddle's orbit.
#[derive(Clone, Copy, Debug, PartialEq, Eq, Structural)]
pub enum BallZone {
    /// Within the paddle's orbit: no homing.
    Inside,
    /// Outside it: homing toward enemies.
    Outside,
}

/// Distance from the core (thousandths of a unit) below which a ball is inside the orbit.
pub const INSIDE_RADIUS: u64 = 220_000;

/// The outcome of a paddle hit.
#[derive(Clone, Copy, Debug, PartialEq, Eq, Structural)]
pub enum PaddleHit {
    /// Too soon after the last reflection, or the paddle already holds a ball.
    Ignored,
    /// The paddle caught the ball from the inside; it will be launched at
    /// `shoot_rotation` from the paddle's inward direction.
    Captured { shoot_rotation: i64 },
    /// The ball bounced off along `heading` (millidegrees), paused for `pause_ms`, and the
    /// camera shakes by `trauma` thousandths.
    Reflected { heading: i64, pause_ms: u64, trauma: u64 },
}

/// The outcome of a wall hit.
#[derive(Clone, Copy, Debug, PartialEq, Eq, Structural)]
pub enum WallHit {
    Ignored,
    /// The ball now moves along `dir`, paused for `pause_ms`; it will look for an enemy to
    /// aim at.
    Reflected { dir: Vec2i, pause_ms: u64, trauma: u64 },
}

/// The outcome of an enemy hit by the ball.
#[derive(Clone, Copy, Debug, PartialEq, Eq, Structural)]
pub enum EnemyHit {
    /// The paddle holds a ball: nothing happens.
    Ignored,
    /// The enemy is destroyed, the score rises by one and the ball pauses for `pause_ms`.
    Destroyed { pause_ms: u64, trauma: u64 },
}

/// A ball.
pub struct Ball {
    /// Speed in thousandths of a game unit per second.
    pub speed: u64,
    /// Time before which further hits count as the same reflection.
    pub last_reflection_ms: u64,
    pub zone: BallZone,
    /// After a wall or enemy hit it looks for the nearest enemy to aim at.
    pub retarget: bool,
    pub cooldowns: Cooldowns,
}

/// Bonus rounds a paddle reflection gives at a ball speed factor of `f` thousandths:
/// twice `3 f` rounded, at least two.
pub open spec fn ammo_bonus_of(f: int) -> int {
    let rounded = (3 * f + 500) / 1000;
    2 * if rounded < 1 {
        1
    } else {
        rounded
    }
}

impl Ball {
    pub open spec fn wf(&self) -> bool {
        &&& self.speed <= 5 * BALL_BASE_SPEED
        &&& self.last_reflection_ms <= 1_000_000_000_001_000
        &&& self.cooldowns.wf()
    }

    /// A fresh ball: base speed, inside the orbit, held still.
    pub fn new() -> (r: Ball)
        ensures
            r.wf(),
            r.speed == BALL_BASE_SPEED,
            r.last_reflection_ms == 0,
            r.zone == BallZone::Inside,
            !r.retarget,
            forall|t: CooldownTag| #[trigger] r.cooldowns.remaining(t) == None::<int>,
    {
        Ball {
            speed: BALL_BASE_SPEED,
            last_reflection_ms: 0,
            zone: BallZone::Inside,
            retarget: false,
            cooldowns: Cooldowns::new(),
        }
    }

    /// Moves the ball between the zones by its distance `dist` from the core; returns
    /// whether the zone changed (homing is then switched on or off).
    pub fn update_zone(&mut self, dist: u64) -> (changed: bool)
        ensures
            final(self).zone == if dist < INSIDE_RADIUS {
                BallZone::Inside
            } else {
                BallZone::Outside
            },
            changed == (final(self).zone != old(self).zone),
            final(self).speed == old(self).speed,
            final(self).last_reflection_ms == old(self).last_reflection_ms,
            final(self).retarget == old(self).retarget,
            final(self).cooldowns == old(self).cooldowns,
    {
        let zone = if dist < INSIDE_RADIUS {
            BallZone::Inside
        } else {
            BallZone::Outside
        };
        let changed = zone != self.zone;
        self.zone = zone;
        changed
    }

    /// While the paddle holds a ball, it slows toward the base speed by 0.4 base speeds
    /// per second.
    pub fn settle_speed(&mut self, captured: bool, dt_ms: u64)
        requires
            old(self).wf(),
            dt_ms <= 1_000_000,
        ensures
            final(self).wf(),
            final(self).speed == if captured {
                let slowed = old(self).speed - BALL_BASE_SPEED * dt_ms * 4 / 10_000;
                if slowed < BALL_BASE_SPEED {
                    BALL_BASE_SPEED as int
                } else {
                    slowed
                }
            } else {
                old(self).speed as int
            },
            final(self).last_reflection_ms == old(self).last_reflection_ms,
            final(self).zone == old(self).zone,
            final(self).cooldowns == old(self).cooldowns,
    {
        if captured {
            let drop = BALL_BASE_SPEED * dt_ms * 4 / 10_000;
            if self.speed < drop || self.speed - drop < BALL_BASE_SPEED {
                self.speed = BALL_BASE_SPEED;
            } else {
                self.speed = self.speed - drop;
            }
        }
    }

    /// The ball hits the paddle at `(hit_x, hit_y)` in the paddle's frame, at time `now_ms`.
    /// Ignored while the paddle holds a ball or within `PADDLE_GRACE_MS` of the last
    /// reflection. A paddle in Capture mode catches a ball that comes from the inside;
    /// otherwise the ball is reflected: deflected by `reflection_angle`, sped up, paused
    /// briefly, and the paddle gains the bonus rounds for `max_factor`.
    pub fn hit_paddle(
        &mut self,
        mode: &mut PaddleMode,
        ammo: &mut PaddleAmmo,
        ball_id: u64,
        paddle_heading: i64,
        hit_x: i64,
        hit_y: i64,
        now_ms: u64,
        max_factor: u64,
    ) -> (r: PaddleHit)
        requires
            old(self).wf(),
            old(ammo).wf(),
            -180_000 <= paddle_heading <= 180_000,
            -1_000_000_000_000 <= hit_x <= 1_000_000_000_000,
            -1_000_000_000_000 <= hit_y <= 1_000_000_000_000,
            now_ms <= 1_000_000_000_000_000,
            max_factor <= 1000,
        ensures
            final(self).wf(),
            final(ammo).wf(),
            final(self).zone == old(self).zone,
            (holds_ball(*old(mode)) || now_ms < old(self).last_reflection_ms + PADDLE_GRACE_MS)
                ==> r == PaddleHit::Ignored && *final(mode) == *old(mode) && *final(ammo)
                == *old(ammo) && final(self).speed == old(self).speed
                && final(self).last_reflection_ms == old(self).last_reflection_ms,
            !holds_ball(*old(mode)) && now_ms >= old(self).last_reflection_ms + PADDLE_GRACE_MS
                && *old(mode) == PaddleMode::Capture && hit_x < 0 ==> {
                &&& r == PaddleHit::Captured {
                    shoot_rotation: paddle_deflection(hit_x as int, hit_y as int) as i64,
                }
                &&& *final(mode) == PaddleMode::Captured {
                    shoot_rotation: paddle_deflection(hit_x as int, hit_y as int) as i64,
                    ball: ball_id,
                }
                &&& *final(ammo) == *old(ammo)
                &&& final(self).speed == old(self).speed
            },
            !holds_ball(*old(mode)) && now_ms >= old(self).last_reflection_ms + PADDLE_GRACE_MS
                && !(*old(mode) == PaddleMode::Capture && hit_x < 0) ==> {
                let sf_pause = speed_factor_of(
                    old(self).speed as int,
                    BALL_BASE_SPEED as int,
                    (BALL_BASE_SPEED + BALL_BASE_SPEED / 2) as int,
                );
                let sf_shake = speed_factor_of(
                    old(self).speed as int,
                    BALL_BASE_SPEED as int,
                    2 * BALL_BASE_SPEED,
                );
                let pause = 100 + sf_pause * 200 / 1000;
                &&& r == PaddleHit::Reflected {
                    heading: launch_heading(
                        paddle_heading as int,
                        paddle_deflection(hit_x as int, hit_y as int),
                    ) as i64,
                    pause_ms: pause as u64,
                    trauma: (150 + sf_shake * 150 / 1000) as u64,
                }
                &&& *final(mode) == *old(mode)
                &&& final(self).speed == reflected_speed(old(self).speed as int)
                &&& final(ammo).max_amount() == old(ammo).max_amount()
                &&& final(ammo).amount() == clamp_int(
                    old(ammo).amount() + ammo_bonus_of(max_factor as int),
                    0,
                    old(ammo).max_amount(),
                )
                &&& final(self).last_reflection_ms == now_ms + pause
                &&& final(self).cooldowns.remaining(CooldownTag::MovementPaused) == Some(pause)
            },
    {
        if mode.is_captured() || now_ms < self.last_reflection_ms + PADDLE_GRACE_MS {
            return PaddleHit::Ignored;
        }
        let angle = reflection_angle(hit_x, hit_y);
        if *mode == PaddleMode::Capture && hit_x < 0 {
            *mode = PaddleMode::Captured { shoot_rotation: angle, ball: ball_id };
            return PaddleHit::Captured { shoot_rotation: angle };
        }
        let sf_shake = speed_factor(self.speed, BALL_BASE_SPEED, 2 * BALL_BASE_SPEED);
        let sf_pause = speed_factor(self.speed, BALL_BASE_SPEED, BALL_BASE_SPEED + BALL_BASE_SPEED / 2);
        let trauma = 150 + sf_shake * 150 / 1000;
        let faster = self.speed * REFLECT_SPEEDUP / 1000;
        self.speed = if faster < BALL_BASE_SPEED {
            BALL_BASE_SPEED
        } else if faster > 5 * BALL_BASE_SPEED {
            5 * BALL_BASE_SPEED
        } else {
            faster
        };
        let heading = wrap_angle(paddle_heading + 180_000 + angle);
        let bonus = ammo_bonus(max_factor);
        ammo.offset(bonus as isize);
        let pause = 100 + sf_pause * 200 / 1000;
        self.cooldowns.start(CooldownTag::MovementPaused, pause);
        self.last_reflection_ms = now_ms + pause;
        PaddleHit::Reflected { heading, pause_ms: pause, trauma }
    }

    /// The ball, moving along `dir`, hits a wall of normal `normal` at time `now_ms`.
    /// Ignored within `WALL_GRACE_MS` of the last reflection; otherwise the ball is
    /// mirrored off the wall, slowed to nine tenths, paused briefly, and set to look for
    /// an enemy to aim at.
    pub fn hit_wall(&mut self, dir: Vec2i, normal: Vec2i, now_ms: u64) -> (r: WallHit)
        requires
            old(self).wf(),
            bounded_dir(dir),
            bounded_dir(normal),
            len_sq(normal) > 0,
            now_ms <= 1_000_000_000_000_000,
        ensures
            final(self).wf(),
            final(self).zone == old(self).zone,
            now_ms < old(self).last_reflection_ms + WALL_GRACE_MS ==> r == WallHit::Ignored
                && final(self).speed == old(self).speed && final(self).last_reflection_ms == old(
                self,
            ).last_reflection_ms && final(self).retarget == old(self).retarget,
            now_ms >= old(self).last_reflection_ms + WALL_GRACE_MS ==> {
                let sf = speed_factor_of(
                    old(self).speed as int,
                    (BALL_BASE_SPEED / 2) as int,
                    2 * BALL_BASE_SPEED,
                );
                let pause = 85 + sf * 125 / 1000;
                &&& r == WallHit::Reflected {
                    dir: Vec2i {
                        x: div0(mirror_x(dir, normal), len_sq(normal)) as i64,
                        y: div0(mirror_y(dir, normal), len_sq(normal)) as i64,
                    },
                    pause_ms: pause as u64,
                    trauma: (200 + sf * 125 / 1000) as u64,
                }
                &&& final(self).speed == old(self).speed * (WALL_SLOWDOWN as int) / 1000
                &&& final(self).last_reflection_ms == now_ms + pause
                &&& final(self).retarget
                &&& final(self).cooldowns.remaining(CooldownTag::MovementPaused) == Some(pause)
            },
    {
        if now_ms < self.last_reflection_ms + WALL_GRACE_MS {
            return WallHit::Ignored;
        }
        let sf = speed_factor(self.speed, BALL_BASE_SPEED / 2, 2 * BALL_BASE_SPEED);
        let trauma = 200 + sf * 125 / 1000;
        let pause = 85 + sf * 125 / 1000;
        self.cooldowns.start(CooldownTag::MovementPaused, pause);
        self.retarget = true;
        self.last_reflection_ms = now_ms + pause;
        self.speed = self.speed * WALL_SLOWDOWN / 1000;
        WallHit::Reflected { dir: reflect(dir, normal), pause_ms: pause, trauma }
    }

    /// The ball hits an enemy. Ignored while the paddle holds a ball; otherwise the enemy
    /// is destroyed, the score rises by one, and the ball pauses briefly and looks for the
    /// next enemy to aim at.
    pub fn hit_enemy(&mut self, paddle_captured: bool, score: &mut u64) -> (r: EnemyHit)
        requires
            old(self).wf(),
            *old(score) < u64::MAX,
        ensures
            final(self).wf(),
            final(self).speed == old(self).speed,
            final(self).zone == old(self).zone,
            final(self).last_reflection_ms == old(self).last_reflection_ms,
            paddle_captured ==> r == EnemyHit::Ignored && *final(score) == *old(score)
                && final(self).retarget == old(self).retarget,
            !paddle_captured ==> {
                let sf = speed_factor_of(
                    old(self).speed as int,
                    (BALL_BASE_SPEED / 2) as int,
                    (BALL_BASE_SPEED + BALL_BASE_SPEED * 3 / 4) as int,
                );
                let pause = 80 + sf * 60 / 1000;
                &&& r == EnemyHit::Destroyed { pause_ms: pause as u64, trauma: 150 }
                &&& *final(score) == *old(score) + 1
                &&& final(self).retarget
                &&& final(self).cooldowns.remaining(CooldownTag::MovementPaused) == Some(pause)
            },
    {
        if paddle_captured {
            return EnemyHit::Ignored;
        }
        *score = *score + 1;
        let sf = speed_factor(
            self.speed,
            BALL_BASE_SPEED / 2,
            BALL_BASE_SPEED + BALL_BASE_SPEED * 3 / 4,
        );
        let pause = 80 + sf * 60 / 1000;
        self.cooldowns.start(CooldownTag::MovementPaused, pause);
        self.retarget = true;
        EnemyHit::Destroyed { pause_ms: pause, trauma: 150 }
    }
}

/// Bonus rounds a paddle reflection gives at a ball speed factor of `f` thousandths.
pub fn ammo_bonus(f: u64) -> (r: u64)
    requires
        f <= 1000,
    ensures
        r == ammo_bonus_of(f as int),
        2 <= r <= 6,
{
    let rounded = (3 * f + 500) / 1000;
    2 * if rounded < 1 {
        1
    } else {
        rounded
    }
}

/// Highest speed factor over the balls' speeds, measured between 1.3 and 2.5 base speeds;
/// 0 with no ball.
pub open spec fn max_factor_of(speeds: Seq<u64>) -> int
    decreases speeds.len(),
{
    if speeds.len() == 0 {
        0
    } else {
        let rest = max_factor_of(speeds.drop_last());
        let f = speed_factor_of(speeds.last() as int, FACTOR_MIN_SPEED as int, FACTOR_MAX_SPEED as int);
        if f > rest {
            f
        } else {
            rest
        }
    }
}

/// Lower reference speed of the ball speed factor.
pub const FACTOR_MIN_SPEED: u64 = 325_000;

/// Upper reference speed of the ball speed factor.
pub const FACTOR_MAX_SPEED: u64 = 625_000;

/// One smoothing step of `current` toward `target` over `dt_ms`: it covers six thousandths
/// of the gap per millisecond, all of it after 167 ms, rounding toward `current`.
pub open spec fn smoothed(current: int, target: int, dt_ms: int) -> int {
    let share = if 6 * dt_ms >= 1000 {
        1000
    } else {
        6 * dt_ms
    };
    current + div0((target - current) * share, 1000)
}

/// The highest speed factor among the balls, eased over time rather than snapped: it
/// drives ammunition bonuses and the feel of the game.
pub struct MaxBallSpeedFactor {
    /// Thousandths.
    pub value: u64,
}

/// The unsmoothed highest speed factor among `speeds`.
pub fn target_factor(speeds: &Vec<u64>) -> (r: u64)
    requires
        forall|i: int| 0 <= i < speeds@.len() ==> #[trigger] speeds@[i] <= SPEED_MAX,
    ensures
        r == max_factor_of(speeds@),
        r <= 1000,
{
    let mut best: u64 = 0;
    let mut i: usize = 0;
    while i < speeds.len()
        invariant
            i <= speeds@.len(),
            forall|k: int| 0 <= k < speeds@.len() ==> #[trigger] speeds@[k] <= SPEED_MAX,
            best == max_factor_of(speeds@.subrange(0, i as int)),
            best <= 1000,
        decreases speeds@.len() - i,
    {
        let f = speed_factor(speeds[i], FACTOR_MIN_SPEED, FACTOR_MAX_SPEED);
        assert(speeds@.subrange(0, i + 1).drop_last() =~= speeds@.subrange(0, i as int));
        if f > best {
            best = f;
        }
        i = i + 1;
    }
    assert(speeds@.subrange(0, speeds@.len() as int) =~= speeds@);
    best
}

impl MaxBallSpeedFactor {
    pub fn new() -> (r: MaxBallSpeedFactor)
        ensures
            r.value == 0,
    {
        MaxBallSpeedFactor { value: 0 }
    }

    /// Eases the factor toward the highest speed factor among `speeds` over `dt_ms`.
    pub fn update(&mut self, speeds: &Vec<u64>, dt_ms: u64)
        requires
            old(self).value <= 1000,
            forall|i: int| 0 <= i < speeds@.len() ==> #[trigger] speeds@[i] <= SPEED_MAX,
        ensures
            final(self).value == smoothed(old(self).value as int, max_factor_of(speeds@), dt_ms as int),
            final(self).value <= 1000,
    {
        let target = target_factor(speeds);
        let share: i64 = if dt_ms >= 167 {
            1000
        } else {
            6 * dt_ms as i64
        };
        let cur = self.value as i64;
        let gap = (target as i64) - cur;
        assert(-1_000_000 <= gap * share <= 1_000_000) by (nonlinear_arith)
            requires -1000 <= gap <= 1000, 0 <= share <= 1000;
        let step = crate::fixed::div_toward_zero((gap as i128) * (share as i128), 1000);
        proof {
            lemma_smoothing_between(cur as int, target as int, dt_ms as int);
        }
        self.value = (cur + step as i64) as u64;
    }

    /// Bonus rounds a paddle reflection gives at the current factor.
    pub fn ammo_bonus(&self) -> (r: u64)
        requires
            self.value <= 1000,
        ensures
            r == ammo_bonus_of(self.value as int),
    {
        ammo_bonus(self.value)
    }
}

/// Smoothing never overshoots: the eased factor lies between the current value and the
/// target.
pub proof fn lemma_smoothing_between(current: int, target: int, dt_ms: int)
    requires
        dt_ms >= 0,
    ensures
        current <= target ==> current <= smoothed(current, target, dt_ms) <= target,
        target <= current ==> target <= smoothed(current, target, dt_ms) <= current,
{
    let share = if 6 * dt_ms >= 1000 {
        1000
    } else {
        6 * dt_ms
    };
    let gap = target - current;
    if gap >= 0 {
        assert(gap * share <= gap * 1000) by (nonlinear_arith)
            requires gap >= 0, 0 <= share <= 1000;
        assert(gap * share >= 0) by (nonlinear_arith)
            requires gap >= 0, share >= 0;
        lemma_div_at_most(gap * share, gap, 1000);
    } else {
        assert((-gap) * share <= (-gap) * 1000) by (nonlinear_arith)
            requires gap < 0, 0 <= share <= 1000;
        assert((-gap) * share >= 0) by (nonlinear_arith)
            requires gap < 0, share >= 0;
        assert(-(gap * share) == (-gap) * share) by (nonlinear_arith);
        lemma_div_at_most((-gap) * share, -gap, 1000);
    }
}

} // verus!
