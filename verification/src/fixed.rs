//! Exact integer arithmetic shared by the geometric formulas: the grid
//! constants, division and square root rounded up, and the planar point.

use vstd::prelude::*;

verus! {

/// The grid value that stands for the real number one.
pub const ONE: i64 = 1_000_000;

/// The grid value that stands for the real number one in computed
/// quantities (objective, penetrations, step excess): the square of `ONE`, so
/// that a difference over one grid step still resolves a millionth of a slope.
pub const UNIT: i128 = 1_000_000_000_000;

/// Largest magnitude of a coordinate the formulas accept (sixty-four length units).
pub const COORD_MAX: i64 = 64_000_000;

/// Quotient of `a` by `b`, rounded up (meant for `a >= 0` and `b > 0`).
pub open spec fn ceil_div(a: int, b: int) -> int {
    (a + b - 1) / b
}

/// The rounded-up quotient is the least `q` with `q * b >= a`; in particular it
/// is positive exactly when `a` is.
pub proof fn lemma_ceil_div_least(a: int, b: int)
    requires
        a >= 0,
        b > 0,
    ensures
        ceil_div(a, b) >= 0,
        ceil_div(a, b) * b >= a,
        (ceil_div(a, b) - 1) * b < a,
        ceil_div(a, b) > 0 <==> a > 0,
        ceil_div(a, b) <= a,
{
    let n = a + b - 1;
    let q = n / b;
    vstd::arithmetic::div_mod::lemma_fundamental_div_mod(n, b);
    vstd::arithmetic::div_mod::lemma_mod_bound(n, b);
    assert(n == b * q + n % b);
    assert(b * q == q * b) by (nonlinear_arith);
    assert((q - 1) * b == q * b - b) by (nonlinear_arith);
    assert(q >= 0) by (nonlinear_arith)
        requires
            q * b + b > 0,
            b > 0,
    ;
    assert(q <= a) by (nonlinear_arith)
        requires
            (q - 1) * b < a,
            b > 0,
            a >= 0,
            q >= 0,
    ;
    assert(q > 0 <==> a > 0) by (nonlinear_arith)
        requires
            q * b >= a,
            (q - 1) * b < a,
            b > 0,
            a >= 0,
            q >= 0,
    ;
}

/// Rounded-up quotient of two machine integers.
pub fn ceil_div_exec(a: u128, b: u128) -> (q: u128)
    requires
        b > 0,
        a + b - 1 <= u128::MAX,
    ensures
        q == ceil_div(a as int, b as int),
{
    (a + (b - 1)) / b
}

/// `r` is the square root of `n` rounded up: the least non-negative `r` with `r * r >= n`.
pub open spec fn is_ceil_sqrt(n: int, r: int) -> bool {
    &&& r >= 0
    &&& r * r >= n
    &&& r > 0 ==> (r - 1) * (r - 1) < n
}

/// The square root of `n`, rounded up.
pub open spec fn ceil_sqrt(n: int) -> int {
    choose|r: int| is_ceil_sqrt(n, r)
}

/// At most one number is the rounded-up square root of `n`.
pub proof fn lemma_ceil_sqrt_unique(n: int, r1: int, r2: int)
    requires
        is_ceil_sqrt(n, r1),
        is_ceil_sqrt(n, r2),
    ensures
        r1 == r2,
{
    if r1 < r2 {
        assert(r1 * r1 <= (r2 - 1) * (r2 - 1)) by (nonlinear_arith)
            requires
                0 <= r1 <= r2 - 1,
        ;
    }
    if r2 < r1 {
        assert(r2 * r2 <= (r1 - 1) * (r1 - 1)) by (nonlinear_arith)
            requires
                0 <= r2 <= r1 - 1,
        ;
    }
}

/// Whatever satisfies the defining property is the rounded-up square root.
pub proof fn lemma_ceil_sqrt_is(n: int, r: int)
    requires
        is_ceil_sqrt(n, r),
    ensures
        ceil_sqrt(n) == r,
{
    lemma_ceil_sqrt_unique(n, r, ceil_sqrt(n));
}

/// Every integer has a rounded-up square root.
pub proof fn lemma_ceil_sqrt_exists(n: int)
    ensures
        is_ceil_sqrt(n, ceil_sqrt(n)),
    decreases n,
{
    if n <= 0 {
        assert(is_ceil_sqrt(n, 0));
    } else {
        lemma_ceil_sqrt_exists(n - 1);
        let r = ceil_sqrt(n - 1);
        if r * r >= n {
            assert(is_ceil_sqrt(n, r));
        } else {
            assert((r + 1) * (r + 1) == r * r + 2 * r + 1) by (nonlinear_arith);
            assert(is_ceil_sqrt(n, r + 1));
        }
    }
}

/// The rounded-up square root stays within a bound `m >= 0` exactly when `n <= m * m`.
pub proof fn lemma_ceil_sqrt_le(n: int, r: int, m: int)
    requires
        is_ceil_sqrt(n, r),
        m >= 0,
    ensures
        r <= m <==> n <= m * m,
{
    if r <= m {
        assert(r * r <= m * m) by (nonlinear_arith)
            requires
                0 <= r <= m,
        ;
    } else {
        assert(m * m <= (r - 1) * (r - 1)) by (nonlinear_arith)
            requires
                0 <= m <= r - 1,
        ;
    }
}

/// Largest argument of [`ceil_sqrt_exec`]: the square of `SQRT_MAX`.
pub const SQRT_ARG_MAX: u128 = 79_228_162_514_264_337_593_543_950_336;

/// Largest result of [`ceil_sqrt_exec`].
pub const SQRT_MAX: u128 = 281_474_976_710_656;

/// Square root rounded up, by bisection.
pub fn ceil_sqrt_exec(n: u128) -> (r: u128)
    requires
        n <= SQRT_ARG_MAX,
    ensures
        is_ceil_sqrt(n as int, r as int),
        r == ceil_sqrt(n as int),
        r <= SQRT_MAX,
{
    let mut lo: u128 = 0;
    let mut hi: u128 = SQRT_MAX;
    assert(SQRT_MAX * SQRT_MAX == SQRT_ARG_MAX) by (nonlinear_arith)
        requires
            SQRT_MAX == 281_474_976_710_656,
            SQRT_ARG_MAX == 79_228_162_514_264_337_593_543_950_336,
    ;
    while lo < hi
        invariant
            lo <= hi <= SQRT_MAX,
            hi * hi >= n,
            lo > 0 ==> (lo - 1) * (lo - 1) < n,
        decreases hi - lo,
    {
        let mid: u128 = lo + (hi - lo) / 2;
        assert(mid * mid <= SQRT_MAX * SQRT_MAX) by (nonlinear_arith)
            requires
                0 <= mid <= SQRT_MAX,
        ;
        if mid * mid >= n {
            hi = mid;
        } else {
            lo = mid + 1;
        }
    }
    proof {
        lemma_ceil_sqrt_is(n as int, lo as int);
    }
    lo
}

/// A point of the plane, or a displacement, in grid units.
#[derive(Clone, Copy, Debug, PartialEq, Eq, Structural)]
pub struct Point {
    pub x: i64,
    pub y: i64,
}

impl Point {
    /// Both coordinates are within `COORD_MAX` of the origin.
    pub open spec fn in_range(self) -> bool {
        &&& -COORD_MAX <= self.x <= COORD_MAX
        &&& -COORD_MAX <= self.y <= COORD_MAX
    }

    /// The point one grid step further along the first axis.
    pub open spec fn step_x(self) -> Point {
        Point { x: (self.x + 1) as i64, y: self.y }
    }

    /// The point one grid step further along the second axis.
    pub open spec fn step_y(self) -> Point {
        Point { x: self.x, y: (self.y + 1) as i64 }
    }

    /// The point and both of its forward neighbours are in range.
    pub open spec fn steppable(self) -> bool {
        &&& self.in_range()
        &&& self.x < COORD_MAX
        &&& self.y < COORD_MAX
    }

    /// The point with coordinates `x` and `y`.
    pub fn new(x: i64, y: i64) -> (p: Point)
        ensures
            p.x == x,
            p.y == y,
    {
        Point { x, y }
    }

    /// Tests `in_range`.
    pub fn is_in_range(&self) -> (b: bool)
        ensures
            b == self.in_range(),
    {
        -COORD_MAX <= self.x && self.x <= COORD_MAX && -COORD_MAX <= self.y && self.y
            <= COORD_MAX
    }

    /// Tests `steppable`.
    pub fn is_steppable(&self) -> (b: bool)
        ensures
            b == self.steppable(),
    {
        self.is_in_range() && self.x < COORD_MAX && self.y < COORD_MAX
    }
}

/// Squared Euclidean distance between two points, in squared grid units,
/// which are the units of computed quantities.
pub open spec fn dist_sq(a: Point, b: Point) -> int {
    (a.x - b.x) * (a.x - b.x) + (a.y - b.y) * (a.y - b.y)
}

/// Largest squared distance between two points in range.
pub const DIST_SQ_MAX: i128 = 32_768_000_000_000_000;

/// The squared distance of points in range is bounded, and vanishes only
/// between equal points.
pub proof fn lemma_dist_sq_bounds(a: Point, b: Point)
    requires
        a.in_range(),
        b.in_range(),
    ensures
        0 <= dist_sq(a, b) <= DIST_SQ_MAX,
        dist_sq(a, b) == 0 <==> a == b,
{
    let dx = a.x - b.x;
    let dy = a.y - b.y;
    assert(0 <= dx * dx <= 16_384_000_000_000_000 && (dx * dx == 0 <==> dx == 0))
        by (nonlinear_arith)
        requires
            -128_000_000 <= dx <= 128_000_000,
    ;
    assert(0 <= dy * dy <= 16_384_000_000_000_000 && (dy * dy == 0 <==> dy == 0))
        by (nonlinear_arith)
        requires
            -128_000_000 <= dy <= 128_000_000,
    ;
}

/// Squared Euclidean distance between two points in range.
pub fn dist_sq_exec(a: Point, b: Point) -> (d: i128)
    requires
        a.in_range(),
        b.in_range(),
    ensures
        d == dist_sq(a, b),
        0 <= d <= DIST_SQ_MAX,
{
    proof {
        lemma_dist_sq_bounds(a, b);
    }
    let dx: i128 = a.x as i128 - b.x as i128;
    let dy: i128 = a.y as i128 - b.y as i128;
    assert(0 <= dx * dx <= 16_384_000_000_000_000) by (nonlinear_arith)
        requires
            -128_000_000 <= dx <= 128_000_000,
    ;
    assert(0 <= dy * dy <= 16_384_000_000_000_000) by (nonlinear_arith)
        requires
            -128_000_000 <= dy <= 128_000_000,
    ;
    dx * dx + dy * dy
}

} // verus!
