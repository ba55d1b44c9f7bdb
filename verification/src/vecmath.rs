//! Fixed-point vector arithmetic shared by the whole pipeline.
//!
//! World positions are integer vectors in milli-units (one game unit
//! is 1000), screen positions are integer vectors in milli-pixels.
//! Working in integers keeps every operation exactly specifiable.

use vstd::prelude::*;

verus! {

/// Largest admissible magnitude of a world coordinate, in milli-units.
pub const COORD_LIMIT: i64 = 2_000_000_000;

/// A point or direction in world space, in milli-units per axis.
#[derive(Clone, Copy, Debug, PartialEq, Eq, Structural)]
pub struct WorldVec {
    pub x: i64,
    pub y: i64,
    pub z: i64,
}

/// A point or delta in screen space, in milli-pixels per axis.
#[derive(Clone, Copy, Debug, PartialEq, Eq, Structural)]
pub struct ScreenVec {
    pub x: i64,
    pub y: i64,
}

impl WorldVec {
    pub open spec fn in_bounds(self) -> bool {
        -COORD_LIMIT <= self.x <= COORD_LIMIT
        && -COORD_LIMIT <= self.y <= COORD_LIMIT
        && -COORD_LIMIT <= self.z <= COORD_LIMIT
    }

    pub fn new(x: i64, y: i64, z: i64) -> (r: WorldVec)
        ensures
            r.x == x && r.y == y && r.z == z,
    {
        WorldVec { x, y, z }
    }

    pub fn zeros() -> (r: WorldVec)
        ensures
            r.x == 0 && r.y == 0 && r.z == 0,
    {
        WorldVec { x: 0, y: 0, z: 0 }
    }

    /// Component-wise difference `self - other`.
    pub fn sub(self, other: WorldVec) -> (r: WorldVec)
        requires
            self.in_bounds(),
            other.in_bounds(),
        ensures
            r.x == self.x - other.x,
            r.y == self.y - other.y,
            r.z == self.z - other.z,
    {
        WorldVec { x: self.x - other.x, y: self.y - other.y, z: self.z - other.z }
    }

    /// Component-wise sum `self + other`.
    pub fn add(self, other: WorldVec) -> (r: WorldVec)
        requires
            self.in_bounds(),
            other.in_bounds(),
        ensures
            r.x == self.x + other.x,
            r.y == self.y + other.y,
            r.z == self.z + other.z,
    {
        WorldVec { x: self.x + other.x, y: self.y + other.y, z: self.z + other.z }
    }
}

impl ScreenVec {
    pub fn new(x: i64, y: i64) -> (r: ScreenVec)
        ensures
            r.x == x && r.y == y,
    {
        ScreenVec { x, y }
    }

    pub fn zeros() -> (r: ScreenVec)
        ensures
            r.x == 0 && r.y == 0,
    {
        ScreenVec { x: 0, y: 0 }
    }
}

/// Truncating division of a signed value by a positive one, exactly as
/// the hardware performs it (quotient rounded toward zero).
pub open spec fn spec_div_trunc(a: int, b: int) -> int
    recommends
        b > 0,
{
    if a >= 0 {
        a / b
    } else {
        -((-a) / b)
    }
}

/// Floor of the square root, defined by primitive recursion so that
/// every contract built on it is a total function of its input.
pub open spec fn spec_sqrt_floor(n: nat) -> nat
    decreases n,
{
    if n == 0 {
        0
    } else {
        let r = spec_sqrt_floor((n - 1) as nat);
        if (r + 1) * (r + 1) <= n {
            r + 1
        } else {
            r
        }
    }
}

pub proof fn lemma_sqrt_floor_bounds(n: nat)
    ensures
        spec_sqrt_floor(n) * spec_sqrt_floor(n) <= n,
        n < (spec_sqrt_floor(n) + 1) * (spec_sqrt_floor(n) + 1),
    decreases n,
{
    if n == 0 {
        assert(spec_sqrt_floor(0) == 0);
        assert(0 < (0 + 1) * (0 + 1)) by (nonlinear_arith);
    } else {
        lemma_sqrt_floor_bounds((n - 1) as nat);
        let r = spec_sqrt_floor((n - 1) as nat);
        if (r + 1) * (r + 1) <= n {
            assert(spec_sqrt_floor(n) == r + 1);
            assert(n < (r + 2) * (r + 2)) by (nonlinear_arith)
                requires
                    n - 1 < (r + 1) * (r + 1),
            {}
            assert(spec_sqrt_floor(n) * spec_sqrt_floor(n) <= n);
            assert(n < (spec_sqrt_floor(n) + 1) * (spec_sqrt_floor(n) + 1));
        } else {
            assert(spec_sqrt_floor(n) == r);
            assert(r * r <= n - 1);
            assert(spec_sqrt_floor(n) * spec_sqrt_floor(n) <= n);
            assert(n < (spec_sqrt_floor(n) + 1) * (spec_sqrt_floor(n) + 1));
        }
    }
}

/// Any value meeting the floor-square-root bounds is the floor square root.
pub proof fn lemma_sqrt_floor_unique(n: nat, r: nat)
    requires
        r * r <= n,
        n < (r + 1) * (r + 1),
    ensures
        r == spec_sqrt_floor(n),
{
    let s = spec_sqrt_floor(n);
    lemma_sqrt_floor_bounds(n);
    if r < s {
        assert((r + 1) * (r + 1) <= s * s) by (nonlinear_arith)
            requires
                r + 1 <= s,
            {}
    }
    if s < r {
        assert((s + 1) * (s + 1) <= r * r) by (nonlinear_arith)
            requires
                s + 1 <= r,
            {}
    }
}

/// Truncating division with a positive divisor.
pub fn div_trunc(a: i64, b: i64) -> (r: i64)
    requires
        b > 0,
        a > i64::MIN,
    ensures
        r == spec_div_trunc(a as int, b as int),
        (r >= 0) == (a >= 0) || r == 0,
{
    if a >= 0 {
        ((a as u64) / (b as u64)) as i64
    } else {
        let m = ((-a) as u64) / (b as u64);
        assert(m <= (-a) as u64) by (nonlinear_arith)
            requires
                m == ((-a) as u64) / (b as u64),
                b > 0,
            {}
        -(m as i64)
    }
}

/// Floor square root computed by binary search.
pub fn isqrt(n: u128) -> (r: u64)
    requires
        n < 0x4000_0000_0000_0000_0000_0000_0000_0000,
    ensures
        r == spec_sqrt_floor(n as nat),
        (r as nat) * (r as nat) <= n as nat,
        (n as nat) < ((r as nat) + 1) * ((r as nat) + 1),
{
    let mut lo: u128 = 0;
    let mut hi: u128 = 0x8000_0000_0000_0000;
    assert(hi * hi > n) by (nonlinear_arith)
        requires
            hi == 0x8000_0000_0000_0000u128,
            n < 0x4000_0000_0000_0000_0000_0000_0000_0000u128,
        {}
    while lo + 1 < hi
        invariant
            lo < hi,
            hi <= 0x8000_0000_0000_0000,
            lo * lo <= n as nat,
            (n as nat) < hi * hi,
        decreases hi - lo,
    {
        let mid = lo + (hi - lo) / 2;
        assert(mid * mid < 0x1_0000_0000_0000_0000_0000_0000_0000_0000) by (nonlinear_arith)
            requires
                mid <= 0x8000_0000_0000_0000u128,
            {}
        if mid * mid <= n {
            lo = mid;
        } else {
            hi = mid;
        }
    }
    proof {
        lemma_sqrt_floor_unique(n as nat, lo as nat);
    }
    lo as u64
}

/// Product of two machine words, in a type wide enough never to overflow.
pub fn wide_mul(a: i64, b: i64) -> (r: i128)
    ensures
        r == a * b,
        -0x4000_0000_0000_0000_0000_0000_0000_0000 <= r
            <= 0x4000_0000_0000_0000_0000_0000_0000_0000,
{
    proof {
        assert(-0x4000_0000_0000_0000_0000_0000_0000_0000 <= (a as int) * (b as int)
            <= 0x4000_0000_0000_0000_0000_0000_0000_0000) by (nonlinear_arith)
            requires
                -0x8000_0000_0000_0000 <= a <= 0x7fff_ffff_ffff_ffff,
                -0x8000_0000_0000_0000 <= b <= 0x7fff_ffff_ffff_ffff,
        {}
    }
    (a as i128) * (b as i128)
}

/// Bound on a product of two factors that are themselves bounded.
pub proof fn lemma_mul_bound(a: int, b: int, m: int)
    requires
        -m <= a <= m,
        -m <= b <= m,
        0 <= m,
    ensures
        -(m * m) <= a * b <= m * m,
{
    assert(-(m * m) <= a * b <= m * m) by (nonlinear_arith)
        requires
            -m <= a <= m,
            -m <= b <= m,
            0 <= m,
    {}
}

/// Bound on a product of two factors with individual bounds.
pub proof fn lemma_mul_bound2(a: int, b: int, ma: int, mb: int)
    requires
        -ma <= a <= ma,
        -mb <= b <= mb,
        0 <= ma,
        0 <= mb,
    ensures
        -(ma * mb) <= a * b <= ma * mb,
{
    assert(-(ma * mb) <= a * b <= ma * mb) by (nonlinear_arith)
        requires
            -ma <= a <= ma,
            -mb <= b <= mb,
            0 <= ma,
            0 <= mb,
    {}
}

/// Scaled magnitude bound for truncating division: if the dividend is
/// at most `m` times the divisor, the quotient is at most `m`.
pub proof fn lemma_div_trunc_scaled(a: int, b: int, m: int)
    requires
        b >= 1,
        -(m * b) <= a <= m * b,
        0 <= m,
    ensures
        -m <= spec_div_trunc(a, b) <= m,
{
    if a >= 0 {
        assert(0 <= a / b <= m) by (nonlinear_arith)
            requires
                b >= 1,
                0 <= a <= m * b,
        {}
    } else {
        assert(0 <= (-a) / b <= m) by (nonlinear_arith)
            requires
                b >= 1,
                0 < -a,
                -a <= m * b,
        {}
    }
}

/// A nonnegative value shrinks (weakly) under truncating division.
pub proof fn lemma_div_trunc_nonneg(a: int, b: int)
    requires
        a >= 0,
        b >= 1,
    ensures
        0 <= spec_div_trunc(a, b) <= a,
{
    assert(0 <= a / b <= a) by (nonlinear_arith)
        requires
            a >= 0,
            b >= 1,
    {}
}

/// Truncating division on wide integers with a positive divisor.
pub fn div_trunc_i128(a: i128, b: i128) -> (r: i128)
    requires
        b > 0,
        a > i128::MIN,
    ensures
        r == spec_div_trunc(a as int, b as int),
{
    if a >= 0 {
        ((a as u128) / (b as u128)) as i128
    } else {
        let m = ((-a) as u128) / (b as u128);
        assert(m <= (-a) as u128) by (nonlinear_arith)
            requires
                m == ((-a) as u128) / (b as u128),
                b > 0,
        {}
        -(m as i128)
    }
}

/// Dot product of two world vectors, wide enough never to overflow.
pub fn dot(a: WorldVec, b: WorldVec) -> (r: i128)
    requires
        a.in_bounds(),
        b.in_bounds(),
    ensures
        r == a.x * b.x + a.y * b.y + a.z * b.z,
{
    let px = wide_mul(a.x, b.x);
    let py = wide_mul(a.y, b.y);
    let pz = wide_mul(a.z, b.z);
    proof {
        lemma_mul_bound(a.x as int, b.x as int, COORD_LIMIT as int);
        lemma_mul_bound(a.y as int, b.y as int, COORD_LIMIT as int);
        lemma_mul_bound(a.z as int, b.z as int, COORD_LIMIT as int);
    }
    px + py + pz
}

/// Squared Euclidean length of the offset `a - b`, as a mathematical value.
pub open spec fn spec_dist_sq(a: WorldVec, b: WorldVec) -> int {
    (a.x - b.x) * (a.x - b.x) + (a.y - b.y) * (a.y - b.y) + (a.z - b.z) * (a.z - b.z)
}

/// Euclidean distance between two points, rounded down, in milli-units.
pub open spec fn spec_dist(a: WorldVec, b: WorldVec) -> int {
    spec_sqrt_floor(spec_dist_sq(a, b) as nat) as int
}

/// Euclidean distance between two world points, in milli-units.
pub fn dist(a: WorldVec, b: WorldVec) -> (r: u64)
    requires
        a.in_bounds(),
        b.in_bounds(),
    ensures
        r == spec_dist(a, b),
{
    let d = a.sub(b);
    let px = wide_mul(d.x, d.x);
    let py = wide_mul(d.y, d.y);
    let pz = wide_mul(d.z, d.z);
    proof {
        lemma_mul_bound(d.x as int, d.x as int, 2 * COORD_LIMIT as int);
        lemma_mul_bound(d.y as int, d.y as int, 2 * COORD_LIMIT as int);
        lemma_mul_bound(d.z as int, d.z as int, 2 * COORD_LIMIT as int);
        assert((d.x as int) * (d.x as int) >= 0) by (nonlinear_arith);
        assert((d.y as int) * (d.y as int) >= 0) by (nonlinear_arith);
        assert((d.z as int) * (d.z as int) >= 0) by (nonlinear_arith);
    }
    let sq: i128 = px + py + pz;
    isqrt(sq as u128)
}

} // verus!
