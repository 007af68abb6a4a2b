use vstd::prelude::*;

use vstd::arithmetic::div_mod::{lemma_div_by_multiple, lemma_div_is_ordered};
use vstd::arithmetic::mul::lemma_mul_inequality;

verus! {

/// `a / c` stays at most `b` where `a` is at most `b * c`.
pub proof fn lemma_div_at_most(a: int, b: int, c: int)
    requires
        0 <= a,
        a <= b * c,
        0 < c,
        0 <= b,
    ensures
        a / c <= b,
        0 <= a / c,
{
    lemma_div_is_ordered(a, b * c, c);
    lemma_div_by_multiple(b, c);
    lemma_div_is_ordered(0, a, c);
}

} // verus!

verus! {

/// Length of a direction vector of unit length: directions are stored in thousandths.
pub const DIR_SCALE: i64 = 1000;

/// Largest coordinate magnitude of a position, in thousandths of a game unit.
pub const POS_MAX: i64 = 1_000_000_000;

/// Largest component magnitude of a direction vector.
pub const DIR_MAX: i64 = 10_000;

/// A two-dimensional integer vector.
#[derive(Clone, Copy, Debug, PartialEq, Eq, Structural)]
pub struct Vec2i {
    pub x: i64,
    pub y: i64,
}

pub open spec fn dot(a: Vec2i, b: Vec2i) -> int {
    a.x * b.x + a.y * b.y
}

pub open spec fn len_sq(a: Vec2i) -> int {
    dot(a, a)
}

/// Integer division that rounds toward zero, as machine division does.
pub open spec fn div0(a: int, b: int) -> int {
    if a >= 0 {
        a / b
    } else {
        -((-a) / b)
    }
}

pub open spec fn abs(a: int) -> int {
    if a < 0 {
        -a
    } else {
        a
    }
}

/// The mirror image of `d` in the line normal to `n`, scaled by `|n|^2`:
/// `d |n|^2 - 2 (d . n) n`, which is `|n|^2 (d - 2 (d . n) n)` for a unit `n`.
pub open spec fn mirror_x(d: Vec2i, n: Vec2i) -> int {
    d.x * len_sq(n) - 2 * dot(d, n) * n.x
}

pub open spec fn mirror_y(d: Vec2i, n: Vec2i) -> int {
    d.y * len_sq(n) - 2 * dot(d, n) * n.y
}

/// `r` is the integer square root of `n`.
pub open spec fn is_isqrt(n: int, r: int) -> bool {
    0 <= r && r * r <= n && n < (r + 1) * (r + 1)
}

pub open spec fn bounded_dir(d: Vec2i) -> bool {
    -DIR_MAX <= d.x <= DIR_MAX && -DIR_MAX <= d.y <= DIR_MAX
}

pub open spec fn bounded_pos(p: Vec2i) -> bool {
    -POS_MAX <= p.x <= POS_MAX && -POS_MAX <= p.y <= POS_MAX
}

impl Vec2i {
    pub fn new(x: i64, y: i64) -> (r: Vec2i)
        ensures
            r.x == x,
            r.y == y,
    {
        Vec2i { x, y }
    }

    pub fn zero() -> (r: Vec2i)
        ensures
            r.x == 0,
            r.y == 0,
    {
        Vec2i { x: 0, y: 0 }
    }

    pub fn is_zero(&self) -> (r: bool)
        ensures
            r == (self.x == 0 && self.y == 0),
    {
        self.x == 0 && self.y == 0
    }
}

/// Rounds `a / b` toward zero.
pub fn div_toward_zero(a: i128, b: i128) -> (r: i128)
    requires
        b > 0,
        a > i128::MIN,
    ensures
        r == div0(a as int, b as int),
        abs(r as int) <= abs(a as int),
{
    proof {
        lemma_div0_shrinks(a as int, b as int);
    }
    if a >= 0 {
        a / b
    } else {
        -((-a) / b)
    }
}

proof fn lemma_div0_shrinks(a: int, b: int)
    requires
        b >= 1,
    ensures
        abs(div0(a, b)) <= abs(a),
{
    if a >= 0 {
        assert(a <= a * b) by (nonlinear_arith)
            requires a >= 0, b >= 1;
        lemma_div_at_most(a, a, b);
    } else {
        assert(-a <= (-a) * b) by (nonlinear_arith)
            requires a < 0, b >= 1;
        lemma_div_at_most(-a, -a, b);
    }
}

/// The integer square root: the largest `r` with `r * r <= n`.
pub fn isqrt(n: u64) -> (r: u64)
    ensures
        is_isqrt(n as int, r as int),
{
    let mut lo: u64 = 0;
    let mut hi: u64 = 4_294_967_296;
    assert((hi as int) * (hi as int) > u64::MAX);
    while hi - lo > 1
        invariant
            lo < hi,
            hi <= 4_294_967_296,
            (lo as int) * (lo as int) <= n as int,
            (n as int) < (hi as int) * (hi as int),
        decreases hi - lo,
    {
        let mid: u64 = lo + (hi - lo) / 2;
        assert(mid < 4_294_967_296);
        assert((mid as int) * (mid as int) < 18_446_744_073_709_551_616) by (nonlinear_arith)
            requires 0 <= mid < 4_294_967_296;
        if mid * mid <= n {
            lo = mid;
        } else {
            hi = mid;
        }
    }
    assert(hi == lo + 1);
    lo
}

/// Uniqueness of the integer square root.
pub proof fn lemma_isqrt_unique(n: int, r1: int, r2: int)
    requires
        is_isqrt(n, r1),
        is_isqrt(n, r2),
    ensures
        r1 == r2,
{
    if r1 < r2 {
        assert((r1 + 1) * (r1 + 1) <= r2 * r2) by (nonlinear_arith)
            requires 0 <= r1, r1 + 1 <= r2;
    } else if r2 < r1 {
        assert((r2 + 1) * (r2 + 1) <= r1 * r1) by (nonlinear_arith)
            requires 0 <= r2, r2 + 1 <= r1;
    }
}

/// The floor of the square root of `n`.
pub open spec fn floor_sqrt(n: int) -> int
    recommends
        n >= 0,
{
    choose|r: int| is_isqrt(n, r)
}

/// The integer square root, stated through `floor_sqrt`.
pub fn floor_sqrt_u64(n: u64) -> (r: u64)
    ensures
        r == floor_sqrt(n as int),
        is_isqrt(n as int, r as int),
{
    let r = isqrt(n);
    proof {
        let c = choose|c: int| is_isqrt(n as int, c);
        lemma_isqrt_unique(n as int, r as int, c);
    }
    r
}

/// Mirror reflection of direction `d` off a surface of normal `n`:
/// `d - 2 (d . n) n / |n|^2`, each component rounded toward zero.
/// For a unit normal (`|n| == 1`) this is exactly `d - 2 (d . n) n`.
pub fn reflect(d: Vec2i, n: Vec2i) -> (r: Vec2i)
    requires
        bounded_dir(d),
        bounded_dir(n),
        len_sq(n) > 0,
    ensures
        r.x == div0(mirror_x(d, n), len_sq(n)),
        r.y == div0(mirror_y(d, n), len_sq(n)),
        len_sq(n) == 1 ==> r.x == d.x - 2 * dot(d, n) * n.x && r.y == d.y - 2 * dot(d, n) * n.y,
{
    let dx = d.x as i128;
    let dy = d.y as i128;
    let nx = n.x as i128;
    let ny = n.y as i128;
    assert(-100_000_000 <= dx * nx <= 100_000_000) by (nonlinear_arith)
        requires -10_000 <= dx <= 10_000, -10_000 <= nx <= 10_000;
    assert(-100_000_000 <= dy * ny <= 100_000_000) by (nonlinear_arith)
        requires -10_000 <= dy <= 10_000, -10_000 <= ny <= 10_000;
    assert(0 <= nx * nx <= 100_000_000) by (nonlinear_arith)
        requires -10_000 <= nx <= 10_000;
    assert(0 <= ny * ny <= 100_000_000) by (nonlinear_arith)
        requires -10_000 <= ny <= 10_000;
    let dn = dx * nx + dy * ny;
    let nn = nx * nx + ny * ny;
    assert(-2_000_000_000_000 <= dx * nn <= 2_000_000_000_000) by (nonlinear_arith)
        requires -10_000 <= dx <= 10_000, 0 <= nn <= 200_000_000;
    assert(-2_000_000_000_000 <= dy * nn <= 2_000_000_000_000) by (nonlinear_arith)
        requires -10_000 <= dy <= 10_000, 0 <= nn <= 200_000_000;
    assert(-4_000_000_000_000 <= 2 * dn * nx <= 4_000_000_000_000) by (nonlinear_arith)
        requires -200_000_000 <= dn <= 200_000_000, -10_000 <= nx <= 10_000;
    assert(-4_000_000_000_000 <= 2 * dn * ny <= 4_000_000_000_000) by (nonlinear_arith)
        requires -200_000_000 <= dn <= 200_000_000, -10_000 <= ny <= 10_000;
    let mx = dx * nn - 2 * dn * nx;
    let my = dy * nn - 2 * dn * ny;
    let rx = div_toward_zero(mx, nn);
    let ry = div_toward_zero(my, nn);
    proof {
        lemma_div0_shrinks(mx as int, nn as int);
        lemma_div0_shrinks(my as int, nn as int);
        if nn == 1 {
            assert(mx == dx - 2 * dn * nx && my == dy - 2 * dn * ny) by (nonlinear_arith)
                requires nn == 1, mx == dx * nn - 2 * dn * nx, my == dy * nn - 2 * dn * ny;
            assert(div0(mx as int, 1) == mx && div0(my as int, 1) == my);
        }
    }
    Vec2i { x: rx as i64, y: ry as i64 }
}

/// A mirror reflection keeps the length of the direction: the scaled image
/// `d |n|^2 - 2 (d . n) n` has length `|n|^2 |d|`, so for a unit normal the
/// reflected direction `d - 2 (d . n) n` is exactly as long as `d`.
pub proof fn lemma_reflection_preserves_length(d: Vec2i, n: Vec2i)
    ensures
        mirror_x(d, n) * mirror_x(d, n) + mirror_y(d, n) * mirror_y(d, n)
            == len_sq(n) * len_sq(n) * len_sq(d),
        len_sq(n) == 1 ==> mirror_x(d, n) == d.x - 2 * dot(d, n) * n.x
            && mirror_y(d, n) == d.y - 2 * dot(d, n) * n.y,
{
    let nn = len_sq(n);
    let k = dot(d, n);
    lemma_mirror_component(d.x as int, n.x as int, nn, k);
    lemma_mirror_component(d.y as int, n.y as int, nn, k);
    let (dx, dy, nx, ny) = (d.x as int, d.y as int, n.x as int, n.y as int);
    assert(nn * nn * (dx * dx) + nn * nn * (dy * dy) == nn * nn * (dx * dx + dy * dy))
        by (nonlinear_arith);
    assert(4 * k * nn * (dx * nx) + 4 * k * nn * (dy * ny) == 4 * k * nn * k) by (nonlinear_arith)
        requires k == dx * nx + dy * ny;
    assert(4 * (k * k) * (nx * nx) + 4 * (k * k) * (ny * ny) == 4 * (k * k) * nn)
        by (nonlinear_arith)
        requires nn == nx * nx + ny * ny;
    assert(4 * k * nn * k == 4 * (k * k) * nn) by (nonlinear_arith);
}

proof fn lemma_mirror_component(dc: int, nc: int, nn: int, k: int)
    ensures
        (dc * nn - 2 * k * nc) * (dc * nn - 2 * k * nc) == nn * nn * (dc * dc) - 4 * k * nn * (dc
            * nc) + 4 * (k * k) * (nc * nc),
{
    let p = dc * nn;
    let q = k * nc;
    assert((p - 2 * q) * (p - 2 * q) == p * p - 4 * (p * q) + 4 * (q * q)) by (nonlinear_arith);
    assert(p * p == nn * nn * (dc * dc)) by (nonlinear_arith)
        requires p == dc * nn;
    assert(4 * (p * q) == 4 * k * nn * (dc * nc)) by (nonlinear_arith)
        requires p == dc * nn, q == k * nc;
    assert(q * q == (k * k) * (nc * nc)) by (nonlinear_arith)
        requires q == k * nc;
    assert(dc * nn - 2 * k * nc == p - 2 * q) by (nonlinear_arith)
        requires p == dc * nn, q == k * nc;
    assert(4 * (q * q) == 4 * (k * k) * (nc * nc)) by (nonlinear_arith)
        requires q * q == (k * k) * (nc * nc);
    let x = dc * nn - 2 * k * nc;
    assert(x * x == (p - 2 * q) * (p - 2 * q));
}

} // verus!
