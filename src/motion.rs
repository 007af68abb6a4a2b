use vstd::prelude::*;

use vstd::arithmetic::div_mod::lemma_fundamental_div_mod;

use crate::ball::{speed_factor, speed_factor_of};
use crate::fixed::{is_isqrt, abs, bounded_dir, bounded_pos, div0, dot, lemma_div_at_most, len_sq, Vec2i};

verus! {

/// Scale of a damping multiplier: millionths.
pub const DAMPING_UNIT: i128 = 1_000_000;

/// Half the side of the playfield within which homing targets count, in thousandths of a
/// game unit.
pub const HOMING_WINDOW: i64 = 750_000;

/// `v` after one damping step: multiplied by `1 - damping * dt` (damping in thousandths
/// per second, `dt` in milliseconds), rounded toward zero.
pub open spec fn damped(v: int, damping: int, dt_ms: int) -> int {
    div0(v * (DAMPING_UNIT - damping * dt_ms), DAMPING_UNIT as int)
}

proof fn lemma_scaled_shrinks(a: int, m: int, s: int)
    requires
        -s < m <= s,
        0 < s,
    ensures
        abs(div0(a * m, s)) <= abs(a),
        m < s && a != 0 ==> abs(div0(a * m, s)) < abs(a),
        m == s ==> div0(a * m, s) == a,
{
    let b = abs(a);
    let mm = abs(m);
    assert(abs(a * m) == b * mm) by (nonlinear_arith)
        requires b == abs(a), mm == abs(m);
    assert(b * mm <= b * s) by (nonlinear_arith)
        requires b >= 0, mm <= s;
    assert(b * mm >= 0) by (nonlinear_arith)
        requires b >= 0, mm >= 0;
    lemma_div_at_most(b * mm, b, s);
    assert(abs(div0(a * m, s)) == (b * mm) / s);
    if m < s && a != 0 {
        assert(b * mm < b * s) by (nonlinear_arith)
            requires b > 0, mm < s;
        lemma_fundamental_div_mod(b * mm, s);
        assert((b * mm) / s < b) by (nonlinear_arith)
            requires b * mm < b * s, b * mm == s * ((b * mm) / s) + (b * mm) % s, (b * mm) % s >= 0, s > 0;
    }
    if m == s {
        assert(b * m == b * s);
        vstd::arithmetic::div_mod::lemma_div_by_multiple(b, s);
        assert(a * m == a * s) by (nonlinear_arith)
            requires m == s;
        if a < 0 {
            assert(-(a * s) == b * s) by (nonlinear_arith)
                requires b == -a;
        }
    }
}

/// Damping never speeds a thing up: for `damping > 0` and `dt > 0` with `damping * dt < 2`
/// (so that the factor `1 - damping * dt` lies in `(-1, 1)`) a moving velocity strictly
/// loses length and each component shrinks in magnitude, so repeated steps give a
/// strictly falling length until the velocity is zero; with `damping == 0` the velocity
/// is unchanged.
pub proof fn lemma_damping_shrinks(v: Vec2i, damping: int, dt_ms: int)
    requires
        damping >= 0,
        dt_ms >= 0,
        damping * dt_ms < 2 * DAMPING_UNIT,
    ensures
        abs(damped(v.x as int, damping, dt_ms)) <= abs(v.x as int),
        abs(damped(v.y as int, damping, dt_ms)) <= abs(v.y as int),
        damping > 0 && dt_ms > 0 && (v.x != 0 || v.y != 0) ==> ({
            let x = damped(v.x as int, damping, dt_ms);
            let y = damped(v.y as int, damping, dt_ms);
            x * x + y * y < len_sq(v)
        }),
        damping == 0 ==> damped(v.x as int, damping, dt_ms) == v.x && damped(v.y as int, damping, dt_ms)
            == v.y,
{
    let m = DAMPING_UNIT - damping * dt_ms;
    if damping > 0 && dt_ms > 0 {
        assert(damping * dt_ms > 0) by (nonlinear_arith)
            requires damping > 0, dt_ms > 0;
    }
    if damping == 0 {
        assert(damping * dt_ms == 0);
    }
    lemma_scaled_shrinks(v.x as int, m, DAMPING_UNIT as int);
    lemma_scaled_shrinks(v.y as int, m, DAMPING_UNIT as int);
    let x = damped(v.x as int, damping, dt_ms);
    let y = damped(v.y as int, damping, dt_ms);
    lemma_square_le(x, v.x as int);
    lemma_square_le(y, v.y as int);
}

proof fn lemma_square_le(a: int, b: int)
    requires
        abs(a) <= abs(b),
    ensures
        a * a <= b * b,
        abs(a) < abs(b) ==> a * a < b * b,
{
    let (p, q) = (abs(a), abs(b));
    assert(a * a == p * p && b * b == q * q) by (nonlinear_arith)
        requires p == abs(a), q == abs(b);
    assert(p * p <= q * q) by (nonlinear_arith)
        requires 0 <= p <= q;
    if p < q {
        assert(p * p < q * q) by (nonlinear_arith)
            requires 0 <= p < q;
    }
}

fn damp_component(v: i64, mult: i128) -> (r: i64)
    requires
        -DAMPING_UNIT < mult <= DAMPING_UNIT,
    ensures
        r == div0(v * mult, DAMPING_UNIT as int),
{
    proof {
        lemma_scaled_shrinks(v as int, mult as int, DAMPING_UNIT as int);
        assert(-9_223_372_036_854_775_808 * 1_000_000 <= v * mult <= 9_223_372_036_854_775_808
            * 1_000_000) by (nonlinear_arith)
            requires -1_000_000 <= mult <= 1_000_000, i64::MIN <= v <= i64::MAX;
    }
    crate::fixed::div_toward_zero((v as i128) * mult, DAMPING_UNIT) as i64
}

/// One damping step over `dt_ms`: the velocity, and the speed where there is one, are
/// multiplied by `1 - damping * dt` (coupled decay). `damping` is in thousandths per
/// second. A speed cannot turn negative, so with a speed the factor must not either.
pub fn apply_damping(vel: Vec2i, speed: Option<u64>, damping: u64, dt_ms: u64) -> (r: (
    Vec2i,
    Option<u64>,
))
    requires
        damping * dt_ms < 2 * DAMPING_UNIT,
        speed is Some ==> damping * dt_ms <= DAMPING_UNIT,
    ensures
        r.0.x == damped(vel.x as int, damping as int, dt_ms as int),
        r.0.y == damped(vel.y as int, damping as int, dt_ms as int),
        r.1 == match speed {
            Some(s) => Some(damped(s as int, damping as int, dt_ms as int) as u64),
            None => None::<u64>,
        },
{
    let mult: i128 = DAMPING_UNIT - (damping as i128) * (dt_ms as i128);
    let v = Vec2i { x: damp_component(vel.x, mult), y: damp_component(vel.y, mult) };
    let s = match speed {
        Some(s) => {
            proof {
                lemma_scaled_shrinks(s as int, mult as int, DAMPING_UNIT as int);
                assert(0 <= s * mult) by (nonlinear_arith)
                    requires s >= 0, mult >= 0;
                lemma_div_at_most((s * mult) as int, s as int, DAMPING_UNIT as int);
                assert(s * mult <= s * DAMPING_UNIT) by (nonlinear_arith)
                    requires s >= 0, mult <= DAMPING_UNIT;
            }
            Some((((s as u128) * (mult as u128)) / (DAMPING_UNIT as u128)) as u64)
        },
        None => None,
    };
    (v, s)
}

/// The velocity of one tick: direction (unit length `DIR_SCALE`) times speed (thousandths
/// of a unit per second) times multiplier (thousandths) times `dt_ms`, rounded toward zero.
pub open spec fn tick_velocity(dir: int, speed: int, mult: int, dt_ms: int) -> int {
    div0(dir * speed * mult * dt_ms, 1_000_000_000)
}

fn velocity_component(dir: i64, speed: u64, mult: u64, dt_ms: u64) -> (r: i64)
    requires
        -10_000 <= dir <= 10_000,
        speed <= 1_000_000_000_000,
        mult <= 1000,
        dt_ms <= 1_000_000,
    ensures
        r == tick_velocity(dir as int, speed as int, mult as int, dt_ms as int),
{
    let d = dir as i128;
    let s = speed as i128;
    let m = mult as i128;
    let t = dt_ms as i128;
    assert(-10_000_000_000_000_000 <= d * s <= 10_000_000_000_000_000) by (nonlinear_arith)
        requires -10_000 <= d <= 10_000, 0 <= s <= 1_000_000_000_000;
    assert(-10_000_000_000_000_000_000 <= d * s * m <= 10_000_000_000_000_000_000) by (nonlinear_arith)
        requires -10_000_000_000_000_000 <= d * s <= 10_000_000_000_000_000, 0 <= m <= 1000;
    assert(-10_000_000_000_000_000_000_000_000 <= d * s * m * t <= 10_000_000_000_000_000_000_000_000)
        by (nonlinear_arith)
        requires -10_000_000_000_000_000_000 <= d * s * m <= 10_000_000_000_000_000_000, 0 <= t <= 1_000_000;
    let p = d * s * m * t;
    let r = crate::fixed::div_toward_zero(p, 1_000_000_000);
    proof {
        let a = abs(p as int);
        lemma_div_at_most(a, 10_000_000_000_000_000, 1_000_000_000);
    }
    r as i64
}

/// The velocity of one tick from direction, speed and speed multiplier; it replaces the
/// previous velocity.
pub fn compute_velocity(dir: Vec2i, speed: u64, mult: u64, dt_ms: u64) -> (r: Vec2i)
    requires
        bounded_dir(dir),
        speed <= 1_000_000_000_000,
        mult <= 1000,
        dt_ms <= 1_000_000,
    ensures
        r.x == tick_velocity(dir.x as int, speed as int, mult as int, dt_ms as int),
        r.y == tick_velocity(dir.y as int, speed as int, mult as int, dt_ms as int),
{
    Vec2i {
        x: velocity_component(dir.x, speed, mult, dt_ms),
        y: velocity_component(dir.y, speed, mult, dt_ms),
    }
}

/// Share of an impulse released per tick: `dt * 6.5` per second, in two-thousandths.
pub open spec fn impulse_share(dt_ms: int) -> int {
    13 * dt_ms
}

/// An impulse kick: the velocity gains `impulse * dt * 6.5`, and the impulse bleeds to
/// `impulse * (1 - dt * 6.5)`.
pub fn apply_impulse(vel: Vec2i, impulse: Vec2i, dt_ms: u64) -> (r: (Vec2i, Vec2i))
    requires
        bounded_pos(vel),
        bounded_pos(impulse),
        dt_ms <= 1_000,
    ensures
        r.0.x == vel.x + div0(impulse.x * impulse_share(dt_ms as int), 2000),
        r.0.y == vel.y + div0(impulse.y * impulse_share(dt_ms as int), 2000),
        r.1.x == div0(impulse.x * (2000 - impulse_share(dt_ms as int)), 2000),
        r.1.y == div0(impulse.y * (2000 - impulse_share(dt_ms as int)), 2000),
{
    let share = 13 * (dt_ms as i128);
    let keep = 2000 - share;
    proof {
        assert(-13_000_000_000_000 <= impulse.x * share <= 13_000_000_000_000) by (nonlinear_arith)
            requires -1_000_000_000 <= impulse.x <= 1_000_000_000, 0 <= share <= 13_000;
        assert(-13_000_000_000_000 <= impulse.y * share <= 13_000_000_000_000) by (nonlinear_arith)
            requires -1_000_000_000 <= impulse.y <= 1_000_000_000, 0 <= share <= 13_000;
        assert(-11_000_000_000_000 <= impulse.x * keep <= 11_000_000_000_000) by (nonlinear_arith)
            requires -1_000_000_000 <= impulse.x <= 1_000_000_000, -11_000 <= keep <= 2000;
        assert(-11_000_000_000_000 <= impulse.y * keep <= 11_000_000_000_000) by (nonlinear_arith)
            requires -1_000_000_000 <= impulse.y <= 1_000_000_000, -11_000 <= keep <= 2000;
    }
    let gx = crate::fixed::div_toward_zero((impulse.x as i128) * share, 2000);
    let gy = crate::fixed::div_toward_zero((impulse.y as i128) * share, 2000);
    let kx = crate::fixed::div_toward_zero((impulse.x as i128) * keep, 2000);
    let ky = crate::fixed::div_toward_zero((impulse.y as i128) * keep, 2000);
    (
        Vec2i { x: vel.x + gx as i64, y: vel.y + gy as i64 },
        Vec2i { x: kx as i64, y: ky as i64 },
    )
}

/// Homing: a steer toward the nearest qualifying target.
#[derive(Clone, Copy, Debug)]
pub struct Homing {
    /// Farthest a target may be, in thousandths of a unit.
    pub max_distance: u64,
    /// Strength of the steer at zero distance.
    pub max_factor: u64,
    /// Exponent of the decay of the steer with distance.
    pub factor_decay: u32,
    /// Cosine (thousandths) of the widest angle between the heading and a target:
    /// a target further off the heading is never chosen.
    pub max_angle_cos: u64,
    /// Speeds over which the steer grows from nothing to full, if limited.
    pub speed_range: Option<(u64, u64)>,
}

pub open spec fn in_window(p: Vec2i) -> bool {
    -HOMING_WINDOW <= p.x <= HOMING_WINDOW && -HOMING_WINDOW <= p.y <= HOMING_WINDOW
}

pub open spec fn offset(from: Vec2i, to: Vec2i) -> Vec2i {
    Vec2i { x: (to.x - from.x) as i64, y: (to.y - from.y) as i64 }
}

pub open spec fn dist_sq(a: Vec2i, b: Vec2i) -> int {
    (b.x - a.x) * (b.x - a.x) + (b.y - a.y) * (b.y - a.y)
}

/// The angle between `dir` and `off` is at most the angle of cosine `cos / 1000`
/// (for angles up to a right angle).
pub open spec fn within_angle(dir: Vec2i, off: Vec2i, cos: int) -> bool {
    let d = dot(dir, off);
    d >= 0 && d * d * 1_000_000 >= cos * cos * len_sq(dir) * len_sq(off)
}

/// A target the homing at `pos` heading along `dir` may steer toward.
pub open spec fn qualifies(pos: Vec2i, dir: Vec2i, h: Homing, t: Vec2i) -> bool {
    &&& in_window(t)
    &&& dist_sq(pos, t) <= (h.max_distance as int) * (h.max_distance as int)
    &&& within_angle(dir, offset(pos, t), h.max_angle_cos as int)
}

impl Homing {
    /// The nearest target that lies within the window, within `max_distance` and within
    /// the angle limit of the heading `dir`; the first of equally near ones. A target
    /// beyond the angle limit is never chosen, however near.
    pub fn select_target(&self, pos: Vec2i, dir: Vec2i, targets: &Vec<Vec2i>) -> (r: Option<usize>)
        requires
            bounded_pos(pos),
            bounded_dir(dir),
            self.max_angle_cos <= 1000,
            self.max_distance <= 4_000_000_000,
            forall|i: int| 0 <= i < targets@.len() ==> bounded_pos(#[trigger] targets@[i]),
        ensures
            match r {
                Some(i) => {
                    &&& i < targets@.len()
                    &&& qualifies(pos, dir, *self, targets@[i as int])
                    &&& forall|j: int|
                        0 <= j < targets@.len() && qualifies(pos, dir, *self, #[trigger] targets@[j])
                            ==> dist_sq(pos, targets@[i as int]) <= dist_sq(pos, targets@[j])
                    &&& forall|j: int|
                        0 <= j < i && qualifies(pos, dir, *self, #[trigger] targets@[j]) ==> dist_sq(
                            pos,
                            targets@[i as int],
                        ) < dist_sq(pos, targets@[j])
                },
                None => forall|j: int|
                    0 <= j < targets@.len() ==> !qualifies(pos, dir, *self, #[trigger] targets@[j]),
            },
    {
        let mut best: Option<usize> = None;
        let mut best_d: i128 = 0;
        let mut i: usize = 0;
        while i < targets.len()
            invariant
                i <= targets@.len(),
                bounded_pos(pos),
                bounded_dir(dir),
                self.max_angle_cos <= 1000,
                self.max_distance <= 4_000_000_000,
                forall|k: int| 0 <= k < targets@.len() ==> bounded_pos(#[trigger] targets@[k]),
                match best {
                    Some(b) => {
                        &&& b < i
                        &&& best_d == dist_sq(pos, targets@[b as int])
                        &&& qualifies(pos, dir, *self, targets@[b as int])
                        &&& forall|j: int|
                            0 <= j < i && qualifies(pos, dir, *self, #[trigger] targets@[j]) ==> best_d
                                <= dist_sq(pos, targets@[j])
                        &&& forall|j: int|
                            0 <= j < b && qualifies(pos, dir, *self, #[trigger] targets@[j]) ==> best_d
                                < dist_sq(pos, targets@[j])
                    },
                    None => forall|j: int|
                        0 <= j < i ==> !qualifies(pos, dir, *self, #[trigger] targets@[j]),
                },
            decreases targets@.len() - i,
        {
            let t = targets[i];
            let ok = self.qualifies_exec(pos, dir, t);
            if ok {
                let d = dist_sq_exec(pos, t);
                let better = match best {
                    Some(_) => d < best_d,
                    None => true,
                };
                if better {
                    best = Some(i);
                    best_d = d;
                }
            }
            i = i + 1;
        }
        best
    }

    fn qualifies_exec(&self, pos: Vec2i, dir: Vec2i, t: Vec2i) -> (r: bool)
        requires
            bounded_pos(pos),
            bounded_dir(dir),
            bounded_pos(t),
            self.max_angle_cos <= 1000,
            self.max_distance <= 4_000_000_000,
        ensures
            r == qualifies(pos, dir, *self, t),
    {
        if !(-HOMING_WINDOW <= t.x && t.x <= HOMING_WINDOW && -HOMING_WINDOW <= t.y && t.y
            <= HOMING_WINDOW) {
            return false;
        }
        let d = dist_sq_exec(pos, t);
        let md = self.max_distance as i128;
        assert(md * md <= 16_000_000_000_000_000_000) by (nonlinear_arith)
            requires 0 <= md <= 4_000_000_000;
        if d > md * md {
            return false;
        }
        let ox = (t.x as i128) - (pos.x as i128);
        let oy = (t.y as i128) - (pos.y as i128);
        let dx = dir.x as i128;
        let dy = dir.y as i128;
        proof {
            assert(-20_000_000_000_000 <= dx * ox <= 20_000_000_000_000) by (nonlinear_arith)
                requires -10_000 <= dx <= 10_000, -2_000_000_000 <= ox <= 2_000_000_000;
            assert(-20_000_000_000_000 <= dy * oy <= 20_000_000_000_000) by (nonlinear_arith)
                requires -10_000 <= dy <= 10_000, -2_000_000_000 <= oy <= 2_000_000_000;
        }
        let dt = dx * ox + dy * oy;
        if dt < 0 {
            return false;
        }
        proof {
            assert(dt * dt <= 1_600_000_000_000_000_000_000_000_000) by (nonlinear_arith)
                requires 0 <= dt <= 40_000_000_000_000;
            assert(0 <= dx * dx <= 100_000_000 && 0 <= dy * dy <= 100_000_000) by (nonlinear_arith)
                requires -10_000 <= dx <= 10_000, -10_000 <= dy <= 10_000;
            assert(0 <= ox * ox <= 4_000_000_000_000_000_000 && 0 <= oy * oy
                <= 4_000_000_000_000_000_000) by (nonlinear_arith)
                requires -2_000_000_000 <= ox <= 2_000_000_000, -2_000_000_000 <= oy <= 2_000_000_000;
        }
        let c = self.max_angle_cos as i128;
        let ld = dx * dx + dy * dy;
        let lo = ox * ox + oy * oy;
        proof {
            assert(0 <= c * c <= 1_000_000) by (nonlinear_arith)
                requires 0 <= c <= 1000;
            assert(0 <= c * c * ld <= 200_000_000_000_000) by (nonlinear_arith)
                requires 0 <= c * c <= 1_000_000, 0 <= ld <= 200_000_000;
            assert(0 <= c * c * ld * lo <= 1_600_000_000_000_000_000_000_000_000_000_000)
                by (nonlinear_arith)
                requires 0 <= c * c * ld <= 200_000_000_000_000, 0 <= lo <= 8_000_000_000_000_000_000;
        }
        let lhs = dt * dt * 1_000_000;
        let rhs = c * c * ld * lo;
        proof {
            assert(offset(pos, t).x == ox && offset(pos, t).y == oy);
        }
        lhs >= rhs
    }
}

fn dist_sq_exec(a: Vec2i, b: Vec2i) -> (r: i128)
    requires
        bounded_pos(a),
        bounded_pos(b),
    ensures
        r == dist_sq(a, b),
        0 <= r <= 8_000_000_000_000_000_000,
{
    let dx = (b.x as i128) - (a.x as i128);
    let dy = (b.y as i128) - (a.y as i128);
    proof {
        assert(0 <= dx * dx <= 4_000_000_000_000_000_000) by (nonlinear_arith)
            requires -2_000_000_000 <= dx <= 2_000_000_000;
        assert(0 <= dy * dy <= 4_000_000_000_000_000_000) by (nonlinear_arith)
            requires -2_000_000_000 <= dy <= 2_000_000_000;
    }
    dx * dx + dy * dy
}

/// `(b / 1000)^n` in thousandths, each product rounded down.
pub open spec fn frac_pow(b: int, n: nat) -> int
    decreases n,
{
    if n == 0 {
        1000
    } else {
        frac_pow(b, (n - 1) as nat) * b / 1000
    }
}

/// How much of the steer the current speed allows, in thousandths.
pub open spec fn speed_share(h: Homing, speed: int) -> int {
    match h.speed_range {
        Some((lo, hi)) => speed_factor_of(speed, lo as int, hi as int),
        None => 1000,
    }
}

/// Strength of the steer toward a target at `dist`, in thousandths: it decays with
/// distance as `(1 - dist / max_distance)^factor_decay`, scaled by `max_factor`, by the
/// speed share and by `dt`.
pub open spec fn steer_strength_of(h: Homing, dist: int, speed: int, dt_ms: int) -> int {
    let closeness = 1000 - dist * 1000 / (h.max_distance as int);
    frac_pow(closeness, h.factor_decay as nat) * (h.max_factor as int) * speed_share(h, speed)
        * dt_ms / 1_000_000
}

proof fn lemma_frac_pow_bounds(b: int, n: nat)
    requires
        0 <= b <= 1000,
    ensures
        0 <= frac_pow(b, n) <= 1000,
    decreases n,
{
    if n > 0 {
        lemma_frac_pow_bounds(b, (n - 1) as nat);
        let p = frac_pow(b, (n - 1) as nat);
        assert(0 <= p * b <= 1000 * 1000) by (nonlinear_arith)
            requires 0 <= p <= 1000, 0 <= b <= 1000;
        lemma_div_at_most(p * b, 1000, 1000);
    }
}

impl Homing {
    /// The steer toward a target at `dist` (within `max_distance`) for a mover at `speed`
    /// over `dt_ms`; `None` where the speed allows no steer at all.
    pub fn steer_strength(&self, dist: u64, speed: u64, dt_ms: u64) -> (r: Option<u64>)
        requires
            0 < self.max_distance <= 4_000_000_000,
            dist <= self.max_distance,
            self.max_factor <= 1000,
            self.factor_decay <= 64,
            speed <= crate::ball::SPEED_MAX,
            dt_ms <= 1000,
            self.speed_range matches Some((lo, hi)) ==> lo < hi,
        ensures
            speed_share(*self, speed as int) == 0 <==> r is None,
            r matches Some(f) ==> f == steer_strength_of(*self, dist as int, speed as int, dt_ms as int)
                && f <= self.max_factor * dt_ms,
    {
        let share = match self.speed_range {
            Some((lo, hi)) => speed_factor(speed, lo, hi),
            None => 1000,
        };
        if share == 0 {
            return None;
        }
        proof {
            lemma_div_at_most((dist * 1000) as int, 1000, self.max_distance as int);
            assert(dist * 1000 <= 1000 * self.max_distance) by (nonlinear_arith)
                requires dist <= self.max_distance;
        }
        assert(dist * 1000 <= 4_000_000_000_000) by (nonlinear_arith)
            requires dist <= 4_000_000_000;
        let closeness = 1000 - dist * 1000 / self.max_distance;
        let mut p: u64 = 1000;
        let mut k: u32 = 0;
        while k < self.factor_decay
            invariant
                k <= self.factor_decay,
                closeness <= 1000,
                p == frac_pow(closeness as int, k as nat),
                p <= 1000,
            decreases self.factor_decay - k,
        {
            proof {
                assert(p * closeness <= 1_000_000) by (nonlinear_arith)
                    requires p <= 1000, closeness <= 1000;
                lemma_div_at_most((p * closeness) as int, 1000, 1000);
            }
            p = p * closeness / 1000;
            k = k + 1;
        }
        proof {
            assert(p * self.max_factor <= 1_000_000) by (nonlinear_arith)
                requires p <= 1000, self.max_factor <= 1000;
            assert(p * self.max_factor * share <= 1_000_000_000) by (nonlinear_arith)
                requires p * self.max_factor <= 1_000_000, share <= 1000;
            assert(p * self.max_factor * share * dt_ms <= 1_000_000_000_000) by (nonlinear_arith)
                requires p * self.max_factor * share <= 1_000_000_000, dt_ms <= 1000;
            assert(p * share <= 1_000_000) by (nonlinear_arith)
                requires p <= 1000, share <= 1000;
            assert(p * self.max_factor * share * dt_ms == (p * share) * (self.max_factor * dt_ms))
                by (nonlinear_arith);
            assert((p * share) * (self.max_factor * dt_ms) <= (self.max_factor * dt_ms) * 1_000_000)
                by (nonlinear_arith)
                requires p * share <= 1_000_000, self.max_factor * dt_ms >= 0;
            lemma_div_at_most(
                (p * self.max_factor * share * dt_ms) as int,
                (self.max_factor * dt_ms) as int,
                1_000_000,
            );
        }
        Some(p * self.max_factor * share * dt_ms / 1_000_000)
    }
}

/// The heading after a steer of strength `f` thousandths from `dir` toward `toward`,
/// before it is rescaled to unit length.
pub open spec fn steered(dir: Vec2i, toward: Vec2i, f: int) -> (int, int) {
    (dir.x * (1000 - f) + toward.x * f, dir.y * (1000 - f) + toward.y * f)
}

/// `(x, y)` rescaled to unit length `DIR_SCALE`, each component rounded toward zero;
/// the zero vector stays zero.
pub open spec fn unit_xy(x: int, y: int) -> (int, int) {
    let n = crate::fixed::floor_sqrt(x * x + y * y);
    if n == 0 {
        (0, 0)
    } else {
        (div0(x * 1000, n), div0(y * 1000, n))
    }
}

pub open spec fn unit_vec(x: int, y: int) -> Vec2i {
    Vec2i { x: unit_xy(x, y).0 as i64, y: unit_xy(x, y).1 as i64 }
}

/// Rescales `(x, y)` to unit length.
pub fn normalize_xy(x: i64, y: i64) -> (r: Vec2i)
    requires
        -2_000_000_000 <= x <= 2_000_000_000,
        -2_000_000_000 <= y <= 2_000_000_000,
    ensures
        r == unit_vec(x as int, y as int),
        -1000 <= r.x <= 1000,
        -1000 <= r.y <= 1000,
{
    proof {
        assert(0 <= x * x <= 4_000_000_000_000_000_000) by (nonlinear_arith)
            requires -2_000_000_000 <= x <= 2_000_000_000;
        assert(0 <= y * y <= 4_000_000_000_000_000_000) by (nonlinear_arith)
            requires -2_000_000_000 <= y <= 2_000_000_000;
    }
    let sq: u64 = ((x as i128) * (x as i128) + (y as i128) * (y as i128)) as u64;
    assert(sq as int == x * x + y * y);
    let n = crate::fixed::floor_sqrt_u64(sq);
    if n == 0 {
        proof {
            assert(is_isqrt(sq as int, n as int));
            assert((n as int + 1) * (n as int + 1) == 1) by (nonlinear_arith)
                requires n == 0;
            assert(x == 0 && y == 0) by (nonlinear_arith)
                requires x * x + y * y < 1;
        }
        return Vec2i { x: 0, y: 0 };
    }
    proof {
        assert(-(n as int) <= x <= n && -(n as int) <= y <= n) by (nonlinear_arith)
            requires x * x + y * y < (n + 1) * (n + 1), x * x >= 0, y * y >= 0, n >= 1;
        assert(-(n * 1000) <= x * 1000 <= n * 1000) by (nonlinear_arith)
            requires -(n as int) <= x <= n;
        assert(-(n * 1000) <= y * 1000 <= n * 1000) by (nonlinear_arith)
            requires -(n as int) <= y <= n;
        lemma_div_at_most(abs(x * 1000), 1000, n as int);
        lemma_div_at_most(abs(y * 1000), 1000, n as int);
    }
    let rx = crate::fixed::div_toward_zero((x as i128) * 1000, n as i128);
    let ry = crate::fixed::div_toward_zero((y as i128) * 1000, n as i128);
    Vec2i { x: rx as i64, y: ry as i64 }
}

/// Steers the heading `dir` toward `toward` by `f` thousandths and brings the result back
/// to unit length (`DIR_SCALE`); a steer that cancels out gives the zero vector.
pub fn steer(dir: Vec2i, toward: Vec2i, f: u64) -> (r: Vec2i)
    requires
        bounded_dir(dir),
        bounded_dir(toward),
        f <= 100_000,
    ensures
        r == unit_vec(steered(dir, toward, f as int).0, steered(dir, toward, f as int).1),
        -1000 <= r.x <= 1000,
        -1000 <= r.y <= 1000,
{
    let w = 1000 - (f as i64);
    proof {
        assert(-1_000_000_000 <= dir.x * w <= 1_000_000_000) by (nonlinear_arith)
            requires -10_000 <= dir.x <= 10_000, -99_000 <= w <= 1000;
        assert(-1_000_000_000 <= dir.y * w <= 1_000_000_000) by (nonlinear_arith)
            requires -10_000 <= dir.y <= 10_000, -99_000 <= w <= 1000;
        assert(-1_000_000_000 <= toward.x * f <= 1_000_000_000) by (nonlinear_arith)
            requires -10_000 <= toward.x <= 10_000, 0 <= f <= 100_000;
        assert(-1_000_000_000 <= toward.y * f <= 1_000_000_000) by (nonlinear_arith)
            requires -10_000 <= toward.y <= 10_000, 0 <= f <= 100_000;
    }
    let x: i64 = dir.x * w + toward.x * (f as i64);
    let y: i64 = dir.y * w + toward.y * (f as i64);
    normalize_xy(x, y)
}

/// Target `i` is the one homing picks among `targets`: it qualifies and is the first of the
/// nearest that do.
pub open spec fn is_best_target(pos: Vec2i, dir: Vec2i, h: Homing, targets: Seq<Vec2i>, i: int) -> bool {
    &&& 0 <= i < targets.len()
    &&& qualifies(pos, dir, h, targets[i])
    &&& forall|j: int|
        0 <= j < targets.len() && qualifies(pos, dir, h, #[trigger] targets[j]) ==> dist_sq(
            pos,
            targets[i],
        ) <= dist_sq(pos, targets[j])
    &&& forall|j: int|
        0 <= j < i && qualifies(pos, dir, h, #[trigger] targets[j]) ==> dist_sq(pos, targets[i])
            < dist_sq(pos, targets[j])
}

/// The heading after homing toward target `t`: steered toward the target's direction by
/// the strength for its distance.
pub open spec fn homed_heading(pos: Vec2i, dir: Vec2i, h: Homing, t: Vec2i, speed: int, dt_ms: int) -> Vec2i {
    let toward = unit_vec(t.x - pos.x, t.y - pos.y);
    let f = steer_strength_of(h, crate::fixed::floor_sqrt(dist_sq(pos, t)), speed, dt_ms);
    unit_vec(steered(dir, toward, f).0, steered(dir, toward, f).1)
}

impl Homing {
    /// One homing step for a mover at `pos` heading along `dir` at `speed`: where the speed
    /// allows a steer and a target qualifies, the new heading, steered toward the target
    /// homing picks; otherwise `None` and the heading is kept.
    pub fn home(&self, pos: Vec2i, dir: Vec2i, speed: u64, targets: &Vec<Vec2i>, dt_ms: u64) -> (r: Option<Vec2i>)
        requires
            bounded_pos(pos),
            bounded_dir(dir),
            self.max_angle_cos <= 1000,
            0 < self.max_distance <= 4_000_000_000,
            self.max_factor <= 1000,
            self.factor_decay <= 64,
            self.max_factor * dt_ms <= 100_000,
            dt_ms <= 1000,
            speed <= crate::ball::SPEED_MAX,
            self.speed_range matches Some((lo, hi)) ==> lo < hi,
            forall|i: int| 0 <= i < targets@.len() ==> bounded_pos(#[trigger] targets@[i]),
        ensures
            speed_share(*self, speed as int) == 0 ==> r is None,
            speed_share(*self, speed as int) > 0 ==> (r is None <==> forall|j: int|
                0 <= j < targets@.len() ==> !qualifies(pos, dir, *self, #[trigger] targets@[j])),
            r matches Some(v) ==> exists|i: int|
                is_best_target(pos, dir, *self, targets@, i) && v == #[trigger] homed_heading(
                    pos,
                    dir,
                    *self,
                    targets@[i],
                    speed as int,
                    dt_ms as int,
                ),
    {
        let share = match self.speed_range {
            Some((lo, hi)) => speed_factor(speed, lo, hi),
            None => 1000,
        };
        if share == 0 {
            return None;
        }
        let pick = self.select_target(pos, dir, targets);
        match pick {
            None => None,
            Some(i) => {
                let t = targets[i];
                let d2 = dist_sq_exec(pos, t);
                let dist = crate::fixed::floor_sqrt_u64(d2 as u64);
                let md = self.max_distance;
                proof {
                    assert(dist <= md) by {
                        if dist > md {
                            assert(dist * dist > md * md) by (nonlinear_arith)
                                requires dist > md, md > 0;
                        }
                    }
                }
                let toward = normalize_xy(t.x - pos.x, t.y - pos.y);
                let f = match self.steer_strength(dist, speed, dt_ms) {
                    Some(f) => f,
                    None => 0,
                };
                let r = steer(dir, toward, f);
                proof {
                    assert(is_best_target(pos, dir, *self, targets@, i as int));
                    assert(r == homed_heading(pos, dir, *self, targets@[i as int], speed as int, dt_ms as int));
                }
                Some(r)
            },
        }
    }
}

/// Moves a position by one tick's velocity (already scaled by the tick's duration).
pub fn integrate(pos: Vec2i, vel: Vec2i) -> (r: Vec2i)
    requires
        bounded_pos(pos),
        bounded_pos(vel),
    ensures
        r.x == pos.x + vel.x,
        r.y == pos.y + vel.y,
{
    Vec2i { x: pos.x + vel.x, y: pos.y + vel.y }
}

/// The first of `targets` (in the order found) inside the playfield window: where a ball
/// that just hit something turns to next.
pub fn first_in_window(targets: &Vec<Vec2i>) -> (r: Option<usize>)
    ensures
        match r {
            Some(i) => i < targets@.len() && in_window(targets@[i as int]) && forall|j: int|
                0 <= j < i ==> !in_window(#[trigger] targets@[j]),
            None => forall|j: int| 0 <= j < targets@.len() ==> !in_window(#[trigger] targets@[j]),
        },
{
    let mut i: usize = 0;
    while i < targets.len()
        invariant
            i <= targets@.len(),
            forall|j: int| 0 <= j < i ==> !in_window(#[trigger] targets@[j]),
        decreases targets@.len() - i,
    {
        let t = targets[i];
        if -HOMING_WINDOW <= t.x && t.x <= HOMING_WINDOW && -HOMING_WINDOW <= t.y && t.y
            <= HOMING_WINDOW {
            return Some(i);
        }
        i = i + 1;
    }
    None
}

/// Beyond this coordinate a projectile has left the playfield.
pub const DESPAWN_BOUND: i64 = 1_750_000;

/// A projectile whose larger coordinate exceeds `DESPAWN_BOUND` is removed.
pub fn out_of_bounds(pos: Vec2i) -> (r: bool)
    ensures
        r == (pos.x > DESPAWN_BOUND || pos.y > DESPAWN_BOUND),
{
    let m = if pos.x > pos.y {
        pos.x
    } else {
        pos.y
    };
    m > DESPAWN_BOUND
}

} // verus!
