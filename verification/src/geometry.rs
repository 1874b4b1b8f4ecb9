//! Integer 3-D vectors, squared distances, an exact integer square root, and
//! the truncating multiply-divide helper the interpolation code is built on.

use vstd::prelude::*;

verus! {

/// Largest coordinate magnitude the geometry routines accept.  Keeping every
/// coordinate within this bound means a squared distance fits in `u64` and all
/// intermediate products fit in `i128`.
pub const POS_LIMIT: i64 = 1_000_000_000;

/// Largest coordinate magnitude for world-space points, in units.  A point
/// within this bound can be rescaled to milli-units and still satisfy
/// [`Vec3i::in_bounds`], so fine-grained milli-unit positions go through the
/// same geometry routines.
pub const WORLD_LIMIT: i64 = 1_000_000;

/// A point or displacement in 3-D space, in integer units.
#[derive(Clone, Copy, Debug, PartialEq, Eq, Structural)]
pub struct Vec3i {
    pub x: i64,
    pub y: i64,
    pub z: i64,
}

/// The square of a mathematical integer.
pub open spec fn sq(a: int) -> int {
    a * a
}

/// Squared Euclidean distance between two points, as a mathematical integer.
pub open spec fn dist2_spec(a: Vec3i, b: Vec3i) -> int {
    sq(b.x - a.x) + sq(b.y - a.y) + sq(b.z - a.z)
}

/// `r` is the integer square root of `n`: the largest integer whose square
/// does not exceed `n`.
pub open spec fn is_isqrt(n: int, r: int) -> bool {
    &&& 0 <= r
    &&& r * r <= n
    &&& n < (r + 1) * (r + 1)
}

/// The integer square root as a spec-level function.
pub open spec fn isqrt_spec(n: nat) -> nat {
    choose|r: nat| is_isqrt(n as int, r as int)
}

/// Truncating division of `a` by a positive `b`: rounds toward zero, like
/// hardware division, rather than toward negative infinity.
pub open spec fn div_trunc(a: int, b: int) -> int {
    if a >= 0 {
        a / b
    } else {
        -((-a) / b)
    }
}

impl Vec3i {
    /// All three coordinates lie within `POS_LIMIT`.
    pub open spec fn in_bounds(self) -> bool {
        &&& -POS_LIMIT <= self.x <= POS_LIMIT
        &&& -POS_LIMIT <= self.y <= POS_LIMIT
        &&& -POS_LIMIT <= self.z <= POS_LIMIT
    }

    /// All three coordinates lie within `WORLD_LIMIT`.
    pub open spec fn in_world_bounds(self) -> bool {
        &&& -WORLD_LIMIT <= self.x <= WORLD_LIMIT
        &&& -WORLD_LIMIT <= self.y <= WORLD_LIMIT
        &&& -WORLD_LIMIT <= self.z <= WORLD_LIMIT
    }

    pub fn new(x: i64, y: i64, z: i64) -> (r: Vec3i)
        ensures
            r == (Vec3i { x, y, z }),
    {
        Vec3i { x, y, z }
    }

    /// The origin.
    pub fn zero() -> (r: Vec3i)
        ensures
            r == (Vec3i { x: 0, y: 0, z: 0 }),
    {
        Vec3i { x: 0, y: 0, z: 0 }
    }
}

/// A world-space point rescaled to milli-units.
pub open spec fn milli_spec(p: Vec3i) -> Vec3i {
    Vec3i { x: (p.x * 1000) as i64, y: (p.y * 1000) as i64, z: (p.z * 1000) as i64 }
}

/// Rescales a world-space point to milli-units; the result is in bounds for
/// every geometry routine.
pub fn to_milli(p: Vec3i) -> (r: Vec3i)
    requires
        p.in_world_bounds(),
    ensures
        r == milli_spec(p),
        r.in_bounds(),
{
    Vec3i { x: p.x * 1000, y: p.y * 1000, z: p.z * 1000 }
}

/// Any two in-bounds points are at squared distance at most `12e18`, which
/// fits in `u64`.
pub proof fn lemma_dist2_bound(a: Vec3i, b: Vec3i)
    requires
        a.in_bounds(),
        b.in_bounds(),
    ensures
        0 <= dist2_spec(a, b) <= 12_000_000_000_000_000_000,
{
    assert(sq(b.x - a.x) <= 4_000_000_000_000_000_000 && sq(b.x - a.x) >= 0)
        by (nonlinear_arith)
        requires -2_000_000_000 <= b.x - a.x <= 2_000_000_000;
    assert(sq(b.y - a.y) <= 4_000_000_000_000_000_000 && sq(b.y - a.y) >= 0)
        by (nonlinear_arith)
        requires -2_000_000_000 <= b.y - a.y <= 2_000_000_000;
    assert(sq(b.z - a.z) <= 4_000_000_000_000_000_000 && sq(b.z - a.z) >= 0)
        by (nonlinear_arith)
        requires -2_000_000_000 <= b.z - a.z <= 2_000_000_000;
}

/// Squared distance between two in-bounds points.
pub fn dist2(a: Vec3i, b: Vec3i) -> (r: u64)
    requires
        a.in_bounds(),
        b.in_bounds(),
    ensures
        r == dist2_spec(a, b),
{
    proof {
        lemma_dist2_bound(a, b);
    }
    let dx: i128 = b.x as i128 - a.x as i128;
    let dy: i128 = b.y as i128 - a.y as i128;
    let dz: i128 = b.z as i128 - a.z as i128;
    proof {
        assert(dx * dx == sq(b.x - a.x) && 0 <= dx * dx <= 4_000_000_000_000_000_000)
            by (nonlinear_arith)
            requires dx == b.x - a.x, -2_000_000_000 <= dx <= 2_000_000_000;
        assert(dy * dy == sq(b.y - a.y) && 0 <= dy * dy <= 4_000_000_000_000_000_000)
            by (nonlinear_arith)
            requires dy == b.y - a.y, -2_000_000_000 <= dy <= 2_000_000_000;
        assert(dz * dz == sq(b.z - a.z) && 0 <= dz * dz <= 4_000_000_000_000_000_000)
            by (nonlinear_arith)
            requires dz == b.z - a.z, -2_000_000_000 <= dz <= 2_000_000_000;
    }
    let s: i128 = dx * dx + dy * dy + dz * dz;
    s as u64
}

/// The integer square root is unique.
pub proof fn lemma_isqrt_unique(n: int, r1: int, r2: int)
    requires
        is_isqrt(n, r1),
        is_isqrt(n, r2),
    ensures
        r1 == r2,
{
    if r1 < r2 {
        assert((r1 + 1) * (r1 + 1) <= r2 * r2) by (nonlinear_arith)
            requires 0 <= r1, r1 < r2;
    }
    if r2 < r1 {
        assert((r2 + 1) * (r2 + 1) <= r1 * r1) by (nonlinear_arith)
            requires 0 <= r2, r2 < r1;
    }
}

/// Largest integer whose square does not exceed `n`, by binary search.
pub fn isqrt(n: u64) -> (r: u64)
    ensures
        is_isqrt(n as int, r as int),
        r == isqrt_spec(n as nat),
{
    let mut lo: u64 = 0;
    let mut hi: u64 = 4_294_967_296;
    proof {
        assert(n < hi * hi) by (nonlinear_arith)
            requires hi == 4_294_967_296u64, n <= u64::MAX;
    }
    while lo + 1 < hi
        invariant
            0 <= lo < hi <= 4_294_967_296,
            lo * lo <= n,
            n < hi * hi,
        decreases hi - lo,
    {
        let mid: u64 = lo + (hi - lo) / 2;
        proof {
            assert((mid as u128) * (mid as u128) <= 0x1_0000_0000_0000_0000u128)
                by (nonlinear_arith)
                requires 0 <= mid <= 4_294_967_296u64;
        }
        let sq_mid: u128 = (mid as u128) * (mid as u128);
        if sq_mid <= n as u128 {
            lo = mid;
        } else {
            hi = mid;
        }
    }
    proof {
        assert(is_isqrt(n as int, lo as int));
        assert(exists|r: nat| is_isqrt(n as int, r as int)) by {
            assert(is_isqrt(n as int, (lo as nat) as int));
        }
        let r_w = choose|r: nat| is_isqrt(n as int, r as int);
        lemma_isqrt_unique(n as int, lo as int, r_w as int);
    }
    lo
}

/// Euclidean distance between two in-bounds points, rounded down.
pub fn dist(a: Vec3i, b: Vec3i) -> (r: u64)
    requires
        a.in_bounds(),
        b.in_bounds(),
    ensures
        is_isqrt(dist2_spec(a, b), r as int),
        r == isqrt_spec(dist2_spec(a, b) as nat),
{
    let d2 = dist2(a, b);
    isqrt(d2)
}

/// Truncating division never grows a magnitude and keeps its sign.
pub proof fn lemma_div_trunc_abs(a: int, d: int)
    requires
        1 <= d,
    ensures
        a >= 0 ==> 0 <= div_trunc(a, d) <= a,
        a < 0 ==> a <= div_trunc(a, d) <= 0,
{
    if a >= 0 {
        vstd::arithmetic::div_mod::lemma_div_pos_is_pos(a, d);
        vstd::arithmetic::div_mod::lemma_div_is_ordered_by_denominator(a, 1, d);
        vstd::arithmetic::div_mod::lemma_div_by_self(1);
        assert(a / 1 == a) by {
            vstd::arithmetic::div_mod::lemma_fundamental_div_mod(a, 1);
        }
    } else {
        let m = -a;
        vstd::arithmetic::div_mod::lemma_div_pos_is_pos(m, d);
        vstd::arithmetic::div_mod::lemma_div_is_ordered_by_denominator(m, 1, d);
        assert(m / 1 == m) by {
            vstd::arithmetic::div_mod::lemma_fundamental_div_mod(m, 1);
        }
    }
}

/// Scaling a component no longer than the whole by `b / c` keeps it within
/// `b`: the normalized direction times a speed stays within that speed.
pub proof fn lemma_scaled_div_bound(a: int, b: int, c: int)
    requires
        -c <= a <= c,
        1 <= c,
        0 <= b,
    ensures
        -b <= div_trunc(a * b, c) <= b,
{
    if a >= 0 {
        assert(0 <= a * b <= c * b) by (nonlinear_arith)
            requires 0 <= a <= c, 0 <= b;
        vstd::arithmetic::div_mod::lemma_div_is_ordered(a * b, c * b, c);
        vstd::arithmetic::div_mod::lemma_div_multiples_vanish(b, c);
        assert(c * b == c * b);
        vstd::arithmetic::div_mod::lemma_div_pos_is_pos(a * b, c);
    } else {
        let m = -a;
        assert(0 <= m * b <= c * b) by (nonlinear_arith)
            requires 0 <= m <= c, 0 <= b;
        vstd::arithmetic::div_mod::lemma_div_is_ordered(m * b, c * b, c);
        vstd::arithmetic::div_mod::lemma_div_multiples_vanish(b, c);
        vstd::arithmetic::div_mod::lemma_div_pos_is_pos(m * b, c);
        assert(-(a * b) == m * b) by (nonlinear_arith)
            requires m == -a;
        if a * b < 0 {
            assert(div_trunc(a * b, c) == -((m * b) / c));
        } else {
            assert(a * b == 0 && m * b == 0) by (nonlinear_arith)
                requires a * b >= 0, a < 0, b >= 0, -(a * b) == m * b;
            vstd::arithmetic::div_mod::lemma_div_of0(c);
        }
    }
}

/// One coordinate of a displacement is no longer than the displacement's
/// rounded-down length.
pub proof fn lemma_axis_le_dist(delta: int, d2: int, len: int)
    requires
        delta * delta <= d2,
        is_isqrt(d2, len),
    ensures
        -len <= delta <= len,
{
    if delta > len {
        assert((len + 1) * (len + 1) <= delta * delta) by (nonlinear_arith)
            requires 0 <= len, len < delta;
    }
    if delta < -len {
        assert((len + 1) * (len + 1) <= delta * delta) by (nonlinear_arith)
            requires 0 <= len, delta < -len;
    }
}

/// Truncating division of an `i128` by a positive `u64`.
pub fn div_trunc_i128(a: i128, d: u64) -> (r: i128)
    requires
        d >= 1,
        a > i128::MIN,
    ensures
        r == div_trunc(a as int, d as int),
{
    proof {
        lemma_div_trunc_abs(a as int, d as int);
    }
    if a >= 0 {
        let q: u128 = (a as u128) / (d as u128);
        q as i128
    } else {
        let m: u128 = (-a) as u128;
        let q: u128 = m / (d as u128);
        -(q as i128)
    }
}

/// `a * b / d` with the division truncating toward zero, exact over `i128`
/// intermediates.
pub fn mul_div(a: i64, b: i64, d: u64) -> (r: i64)
    requires
        d >= 1,
        i64::MIN <= div_trunc(a * b, d as int) <= i64::MAX,
    ensures
        r == div_trunc(a * b, d as int),
{
    proof {
        assert((a as int) * (b as int) <= i128::MAX && i128::MIN < (a as int) * (b as int))
            by (nonlinear_arith)
            requires i64::MIN <= a <= i64::MAX, i64::MIN <= b <= i64::MAX;
    }
    let p: i128 = a as i128 * b as i128;
    if p >= 0 {
        let q: u128 = (p as u128) / (d as u128);
        proof {
            assert(q == div_trunc(a * b, d as int));
        }
        q as i64
    } else {
        let m: u128 = (-p) as u128;
        let q: u128 = m / (d as u128);
        proof {
            assert(q == (-(a * b)) / (d as int));
        }
        -(q as i128) as i64
    }
}

} // verus!
