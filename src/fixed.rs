//! Fixed-point scalars and vectors.
//!
//! Every length, angle and duration of the rig is an `i64` count of steps,
//! with `ONE` steps to the world unit, the radian and the second.
use vstd::prelude::*;

verus! {

/// Steps in one world unit, one radian and one second.
pub const ONE: i64 = 10_000;

/// Largest magnitude a coordinate may have.
pub const COORD_MAX: i64 = 1_000_000_000_000;

/// Lengths below this many steps count as zero (1e-3 units).
pub const EPSILON: i64 = 10;

/// Whether `c` may stand as a coordinate.
pub open spec fn coord_ok(c: int) -> bool {
    -COORD_MAX <= c <= COORD_MAX
}

/// Truncating division (toward zero) by a positive divisor.
pub open spec fn quot(a: int, b: int) -> int {
    if a >= 0 {
        a / b
    } else {
        -((-a) / b)
    }
}

/// `r` is the largest integer whose square does not exceed `n`.
pub open spec fn is_sqrt_floor(n: int, r: int) -> bool {
    0 <= r && r * r <= n && n < (r + 1) * (r + 1)
}

/// Floor square root of a non-negative `n`.
pub open spec fn sqrt_floor(n: int) -> int {
    choose|r: int| #[trigger] is_sqrt_floor(n, r)
}

/// Ceiling square root of a non-negative `n`: the least `r` with `n <= r * r`.
pub open spec fn sqrt_ceil(n: int) -> int {
    let f = sqrt_floor(n);
    if f * f == n {
        f
    } else {
        f + 1
    }
}

/// Every non-negative `n` has a floor square root.
proof fn lemma_sqrt_floor_exists(n: int)
    requires
        n >= 0,
    ensures
        is_sqrt_floor(n, sqrt_floor(n)),
    decreases n,
{
    if n == 0 {
        assert(is_sqrt_floor(0, 0));
    } else {
        lemma_sqrt_floor_exists(n - 1);
        let r = sqrt_floor(n - 1);
        if (r + 1) * (r + 1) <= n {
            assert(n < (r + 2) * (r + 2)) by (nonlinear_arith)
                requires
                    r >= 0,
                    n - 1 < (r + 1) * (r + 1),
            ;
            assert(is_sqrt_floor(n, r + 1));
        } else {
            assert(is_sqrt_floor(n, r));
        }
    }
}

/// The ceiling square root of a squared length of at least `EPSILON` is
/// at least `EPSILON`, and its square covers the squared length.
proof fn lemma_sqrt_ceil_bounds(n: int)
    requires
        n >= EPSILON * EPSILON,
    ensures
        n <= sqrt_ceil(n) * sqrt_ceil(n),
        sqrt_ceil(n) >= EPSILON,
{
    lemma_sqrt_floor_exists(n);
    let f = sqrt_floor(n);
    let e = EPSILON as int;
    if f < e {
        assert((f + 1) * (f + 1) <= e * e) by (nonlinear_arith)
            requires
                0 <= f < e,
        ;
    }
}

/// A nearly-zero-free vector normalises to a direction at most `ONE` long.
pub proof fn lemma_normalized_length(v: Vec3, fallback: Vec3)
    requires
        v.wf(),
        !v.is_approx_zero_spec(),
    ensures
        v.normalize_or_spec(fallback).length_squared_spec() <= ONE * ONE,
        -ONE <= v.normalize_or_spec(fallback).x <= ONE,
        -ONE <= v.normalize_or_spec(fallback).y <= ONE,
        -ONE <= v.normalize_or_spec(fallback).z <= ONE,
{
    let n = v.length_squared_spec();
    lemma_sqrt_ceil_bounds(n);
    let l = sqrt_ceil(n);
    let (x, y, z) = (v.x as int, v.y as int, v.z as int);
    assert(x * x >= 0 && y * y >= 0 && z * z >= 0) by (nonlinear_arith);
    lemma_scaled_coord(x, l);
    lemma_scaled_coord(y, l);
    lemma_scaled_coord(z, l);
    let o = ONE as int;
    let (qx, qy, qz) = (quot(x * o, l), quot(y * o, l), quot(z * o, l));
    lemma_scaled_sum(qx * qx, qy * qy, qz * qz, x * x, y * y, z * z, l * l, o * o);
    assert(l * l > 0) by (nonlinear_arith)
        requires
            l > 0,
    ;
    let q2 = qx * qx + qy * qy + qz * qz;
    assert(q2 <= o * o) by (nonlinear_arith)
        requires
            q2 * (l * l) <= (o * o) * (l * l),
            l * l > 0,
    ;
}

proof fn lemma_sqrt_floor_unique(n: int, r: int, s: int)
    requires
        0 <= r && r * r <= n && n < (r + 1) * (r + 1),
        0 <= s && s * s <= n && n < (s + 1) * (s + 1),
    ensures
        r == s,
{
    if r < s {
        assert((r + 1) * (r + 1) <= s * s) by (nonlinear_arith)
            requires
                0 <= r < s,
        ;
    } else if s < r {
        assert((s + 1) * (s + 1) <= r * r) by (nonlinear_arith)
            requires
                0 <= s < r,
        ;
    }
}

/// A point or direction in world space, in steps.
#[derive(Clone, Copy, Debug, PartialEq, Eq, Structural)]
pub struct Vec3 {
    pub x: i64,
    pub y: i64,
    pub z: i64,
}

impl Vec3 {
    /// Every coordinate is in range.
    pub open spec fn wf(self) -> bool {
        coord_ok(self.x as int) && coord_ok(self.y as int) && coord_ok(self.z as int)
    }

    pub open spec fn length_squared_spec(self) -> int {
        self.x * self.x + self.y * self.y + self.z * self.z
    }

    /// `self + o`, coordinate by coordinate.
    pub open spec fn add_spec(self, o: Vec3) -> Vec3 {
        Vec3 { x: (self.x + o.x) as i64, y: (self.y + o.y) as i64, z: (self.z + o.z) as i64 }
    }

    /// `self - o`, coordinate by coordinate.
    pub open spec fn sub_spec(self, o: Vec3) -> Vec3 {
        Vec3 { x: (self.x - o.x) as i64, y: (self.y - o.y) as i64, z: (self.z - o.z) as i64 }
    }

    pub open spec fn is_approx_zero_spec(self) -> bool {
        self.length_squared_spec() < EPSILON * EPSILON
    }

    /// Nearly zero vectors become exactly zero; others stay.
    pub open spec fn collapse_approx_zero_spec(self) -> Vec3 {
        if self.is_approx_zero_spec() {
            Vec3 { x: 0, y: 0, z: 0 }
        } else {
            self
        }
    }

    /// `self` divided by `len` and multiplied by `ONE`, each coordinate
    /// truncated toward zero.
    pub open spec fn scaled_to_one(self, len: int) -> Vec3 {
        Vec3 {
            x: quot(self.x * ONE, len) as i64,
            y: quot(self.y * ONE, len) as i64,
            z: quot(self.z * ONE, len) as i64,
        }
    }

    /// Direction of `self`, at most `ONE` long, or `fallback` where `self`
    /// is nearly zero. Dividing by the ceiling of the length and truncating
    /// toward zero keeps the result from growing past `ONE`.
    pub open spec fn normalize_or_spec(self, fallback: Vec3) -> Vec3 {
        if self.is_approx_zero_spec() {
            fallback
        } else {
            self.scaled_to_one(sqrt_ceil(self.length_squared_spec()))
        }
    }

    pub fn new(x: i64, y: i64, z: i64) -> (r: Vec3)
        ensures
            r == (Vec3 { x, y, z }),
    {
        Vec3 { x, y, z }
    }

    pub fn zero() -> (r: Vec3)
        ensures
            r == (Vec3 { x: 0, y: 0, z: 0 }),
    {
        Vec3 { x: 0, y: 0, z: 0 }
    }

    /// Coordinate-wise sum; the caller keeps the result in range.
    pub fn add(self, o: Vec3) -> (r: Vec3)
        requires
            self.wf(),
            o.wf(),
            coord_ok(self.x + o.x),
            coord_ok(self.y + o.y),
            coord_ok(self.z + o.z),
        ensures
            r == self.add_spec(o),
            r.wf(),
            r.x == self.x + o.x,
            r.y == self.y + o.y,
            r.z == self.z + o.z,
    {
        Vec3 { x: self.x + o.x, y: self.y + o.y, z: self.z + o.z }
    }

    /// Coordinate-wise difference; the caller keeps the result in range.
    pub fn sub(self, o: Vec3) -> (r: Vec3)
        requires
            self.wf(),
            o.wf(),
            coord_ok(self.x - o.x),
            coord_ok(self.y - o.y),
            coord_ok(self.z - o.z),
        ensures
            r == self.sub_spec(o),
            r.wf(),
            r.x == self.x - o.x,
            r.y == self.y - o.y,
            r.z == self.z - o.z,
    {
        Vec3 { x: self.x - o.x, y: self.y - o.y, z: self.z - o.z }
    }

    /// Direction of `self`, at most `ONE` long, or `fallback` where `self`
    /// is nearly zero.
    pub fn normalize_or(self, fallback: Vec3) -> (r: Vec3)
        requires
            self.wf(),
        ensures
            r == self.normalize_or_spec(fallback),
            !self.is_approx_zero_spec() ==> -ONE <= r.x <= ONE && -ONE <= r.y <= ONE && -ONE
                <= r.z <= ONE,
            !self.is_approx_zero_spec() ==> r.length_squared_spec() <= ONE * ONE,
    {
        if self.is_approx_zero() {
            return fallback;
        }
        let n = self.length_squared() as u128;
        let len = isqrt_ceil(n);
        proof {
            let (x, y, z) = (self.x as int, self.y as int, self.z as int);
            assert(x * x >= 0 && y * y >= 0 && z * z >= 0) by (nonlinear_arith);
        }
        proof {
            lemma_normalized_length(self, fallback);
        }
        Vec3 {
            x: scale_coord(self.x, len),
            y: scale_coord(self.y, len),
            z: scale_coord(self.z, len),
        }
    }

    /// Squared Euclidean length, in squared steps.
    pub fn length_squared(self) -> (r: i128)
        requires
            self.wf(),
        ensures
            r == self.length_squared_spec(),
            0 <= r <= 3 * COORD_MAX * COORD_MAX,
    {
        proof {
            lemma_square_bound(self.x as int);
            lemma_square_bound(self.y as int);
            lemma_square_bound(self.z as int);
        }
        let x = self.x as i128;
        let y = self.y as i128;
        let z = self.z as i128;
        x * x + y * y + z * z
    }

    /// Whether the length is below `EPSILON`.
    pub fn is_approx_zero(self) -> (r: bool)
        requires
            self.wf(),
        ensures
            r == self.is_approx_zero_spec(),
    {
        let eps = EPSILON as i128;
        self.length_squared() < eps * eps
    }

    /// Snaps a vector shorter than `EPSILON` to exactly zero.
    pub fn collapse_approx_zero(self) -> (r: Vec3)
        requires
            self.wf(),
        ensures
            r == self.collapse_approx_zero_spec(),
            r.wf(),
    {
        if self.is_approx_zero() {
            Vec3::zero()
        } else {
            self
        }
    }
}

/// A coordinate no larger than `len` shrinks to at most `ONE` when scaled
/// by `ONE / len`, and its square shrinks by `(ONE / len)^2` at least.
proof fn lemma_scaled_coord(c: int, len: int)
    requires
        c * c <= len * len,
        len >= EPSILON,
    ensures
        -ONE <= quot(c * ONE, len) <= ONE,
        quot(c * ONE, len) * quot(c * ONE, len) * (len * len) <= c * c * (ONE * ONE),
{
    let o = ONE as int;
    let a = if c >= 0 { c } else { -c };
    assert(a * a == c * c) by (nonlinear_arith)
        requires
            a == c || a == -c,
    ;
    assert(a <= len) by (nonlinear_arith)
        requires
            a >= 0,
            len > 0,
            a * a <= len * len,
    ;
    let t = (a * o) / len;
    assert(0 <= t <= o && t * len <= a * o) by (nonlinear_arith)
        requires
            0 <= a <= len,
            len > 0,
            o > 0,
            t == (a * o) / len,
    ;
    assert(t * t * (len * len) <= (a * o) * (a * o)) by (nonlinear_arith)
        requires
            0 <= t,
            0 <= t * len <= a * o,
            len > 0,
    ;
    assert((a * o) * (a * o) == c * c * (o * o)) by (nonlinear_arith)
        requires
            a * a == c * c,
    ;
    if c >= 0 {
        assert(c * o == a * o);
    } else {
        assert(c * o == -(a * o)) by (nonlinear_arith)
            requires
                a == -c,
        ;
        assert(quot(c * o, len) == -t);
        assert((-t) * (-t) == t * t) by (nonlinear_arith);
    }
}

/// Truncating division by `k` shrinks a square by `k * k` at least.
pub(crate) proof fn lemma_quot_square(p: int, k: int)
    requires
        k > 0,
    ensures
        quot(p, k) * quot(p, k) * (k * k) <= p * p,
{
    let a = if p >= 0 { p } else { -p };
    let t = a / k;
    assert(0 <= t && t * k <= a) by (nonlinear_arith)
        requires
            a >= 0,
            k > 0,
            t == a / k,
    ;
    assert(t * t * (k * k) <= a * a) by (nonlinear_arith)
        requires
            0 <= t,
            0 <= t * k <= a,
            k > 0,
    ;
    assert(a * a == p * p) by (nonlinear_arith)
        requires
            a == p || a == -p,
    ;
    assert((-t) * (-t) == t * t) by (nonlinear_arith);
}

/// Squares each shrunk by `o2 / l2` sum to at most `o2` where the originals
/// sum to at most `l2`.
pub(crate) proof fn lemma_scaled_sum(qx: int, qy: int, qz: int, x: int, y: int, z: int, l2: int, o2: int)
    requires
        qx * l2 <= x * o2,
        qy * l2 <= y * o2,
        qz * l2 <= z * o2,
        x + y + z <= l2,
        o2 > 0,
    ensures
        (qx + qy + qz) * l2 <= o2 * l2,
{
    assert((qx + qy + qz) * l2 == qx * l2 + qy * l2 + qz * l2) by (nonlinear_arith);
    assert((x + y + z) * o2 <= l2 * o2) by (nonlinear_arith)
        requires
            x + y + z <= l2,
            o2 > 0,
    ;
    assert(x * o2 + y * o2 + z * o2 == (x + y + z) * o2) by (nonlinear_arith);
    assert(l2 * o2 == o2 * l2) by (nonlinear_arith);
}

/// Scales one coordinate by `ONE / len`.
fn scale_coord(c: i64, len: u128) -> (r: i64)
    requires
        c * c <= len * len,
        EPSILON <= len <= 2_000_000_000_000,
        coord_ok(c as int),
    ensures
        r == quot(c * ONE, len as int),
        -ONE <= r <= ONE,
{
    proof {
        lemma_scaled_coord(c as int, len as int);
    }
    div_trunc(c * ONE, len as i64)
}

/// Ceiling square root of a squared length of at least `EPSILON * EPSILON`.
fn isqrt_ceil(n: u128) -> (r: u128)
    requires
        EPSILON * EPSILON <= n <= 3 * COORD_MAX * COORD_MAX,
    ensures
        r == sqrt_ceil(n as int),
        n <= r * r,
        EPSILON <= r <= 2_000_000_000_000,
{
    let f = isqrt(n);
    proof {
        let e = EPSILON as int;
        if f < EPSILON {
            assert((f + 1) * (f + 1) <= e * e) by (nonlinear_arith)
                requires
                    0 <= f < e,
            ;
        }
        assert(f < 1_800_000_000_000) by (nonlinear_arith)
            requires
                f >= 0,
                f * f <= n,
                n <= 3_000_000_000_000_000_000_000_000,
        ;
    }
    if f * f == n {
        f
    } else {
        f + 1
    }
}

proof fn lemma_square_bound(c: int)
    requires
        coord_ok(c),
    ensures
        0 <= c * c <= COORD_MAX * COORD_MAX,
{
    assert(0 <= c * c <= COORD_MAX * COORD_MAX) by (nonlinear_arith)
        requires
            -COORD_MAX <= c <= COORD_MAX,
            COORD_MAX == 1_000_000_000_000int,
    ;
}

/// Truncating division of `a` by a positive `b`.
pub fn div_trunc(a: i64, b: i64) -> (r: i64)
    requires
        b > 0,
        a > i64::MIN,
    ensures
        r == quot(a as int, b as int),
{
    if a >= 0 {
        a / b
    } else {
        -((-a) / b)
    }
}

/// Floor square root.
pub fn isqrt(n: u128) -> (r: u128)
    requires
        n <= 3 * COORD_MAX * COORD_MAX,
    ensures
        r == sqrt_floor(n as int),
        r * r <= n < (r + 1) * (r + 1),
{
    let mut lo: u128 = 0;
    let mut hi: u128 = 2_000_000_000_000;
    assert(n < hi * hi);
    while lo + 1 < hi
        invariant
            lo < hi <= 2_000_000_000_000,
            lo * lo <= n < hi * hi,
        decreases hi - lo,
    {
        let mid: u128 = lo + (hi - lo) / 2;
        assert(mid * mid <= 4_000_000_000_000_000_000_000_000) by (nonlinear_arith)
            requires
                mid <= 2_000_000_000_000,
        ;
        if mid * mid <= n {
            lo = mid;
        } else {
            hi = mid;
        }
    }
    assert(hi == lo + 1);
    proof {
        let r = lo as int;
        assert(is_sqrt_floor(n as int, r));
        let s = sqrt_floor(n as int);
        lemma_sqrt_floor_unique(n as int, r, s);
    }
    lo
}

} // verus!
