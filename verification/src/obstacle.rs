//! Obstacles and their penetration functions: zero outside an obstacle,
//! positive strictly inside it.

use crate::fixed::{ceil_div, ceil_div_exec, lemma_ceil_div_least, Point, COORD_MAX, ONE, UNIT};
use vstd::prelude::*;

verus! {

/// Upper bound on the penetration of any single obstacle at a point in range.
pub const PENETRATION_MAX: i128 = 2_000_000_000_000_000_000;

/// Largest number of obstacles a field may hold.
pub const MAX_OBSTACLES: usize = 1_000_000;

/// The square of `a`.
pub open spec fn sq(a: int) -> int {
    a * a
}

proof fn lemma_sq_bounds(a: int, m: int)
    requires
        -m <= a <= m,
    ensures
        0 <= sq(a) <= m * m,
        a != 0 ==> sq(a) >= 1,
{
    assert(0 <= a * a <= m * m && (a != 0 ==> a * a >= 1)) by (nonlinear_arith)
        requires
            -m <= a <= m,
    ;
}

proof fn lemma_mul_nonneg_bounds(a: int, b: int, ma: int, mb: int)
    requires
        0 <= a <= ma,
        0 <= b <= mb,
    ensures
        0 <= a * b <= ma * mb,
        (a > 0 && b > 0) ==> a * b > 0,
{
    assert(0 <= a * b <= ma * mb && ((a > 0 && b > 0) ==> a * b > 0)) by (nonlinear_arith)
        requires
            0 <= a <= ma,
            0 <= b <= mb,
    ;
}

/// What remains of a margin once the part below zero is cut off.
pub open spec fn clamp(m: int) -> int {
    if m <= 0 {
        0
    } else {
        m
    }
}

/// An ellipse is admissible when its centre is in range and both radii are
/// positive and at most `COORD_MAX`.
pub open spec fn ellipse_wf(cx: int, cy: int, rx: int, ry: int) -> bool {
    &&& -COORD_MAX <= cx <= COORD_MAX
    &&& -COORD_MAX <= cy <= COORD_MAX
    &&& 1 <= rx <= COORD_MAX
    &&& 1 <= ry <= COORD_MAX
}

/// `1 - (dx/rx)^2 - (dy/ry)^2`, multiplied by `rx^2 * ry^2` to clear fractions.
pub open spec fn ellipse_margin(p: Point, cx: int, cy: int, rx: int, ry: int) -> int {
    sq(rx) * sq(ry) - sq(p.x - cx) * sq(ry) - sq(p.y - cy) * sq(rx)
}

/// Penetration of an ellipse: `max(0, 1 - (dx/rx)^2 - (dy/ry)^2)` in units of
/// `1 / UNIT`. It is zero wherever the exact margin is not positive; inside,
/// each quotient is rounded down, so the value is positive wherever the exact
/// one is.
pub open spec fn ellipse_penetration(p: Point, cx: int, cy: int, rx: int, ry: int) -> int {
    let m = ellipse_margin(p, cx, cy, rx, ry);
    if m <= 0 {
        0
    } else {
        UNIT - (UNIT * sq(p.x - cx)) / sq(rx) - (UNIT * sq(p.y - cy)) / sq(ry)
    }
}

/// Inside an ellipse the two rounded quotients together stay below `UNIT`.
proof fn lemma_ellipse_inside(a: int, b: int, r: int, t: int)
    requires
        a >= 0,
        b >= 0,
        r >= 1,
        t >= 1,
        a * t + b * r < r * t,
    ensures
        0 <= (UNIT * a) / r,
        0 <= (UNIT * b) / t,
        (UNIT * a) / r + (UNIT * b) / t < UNIT,
{
    let qa = (UNIT * a) / r;
    let qb = (UNIT * b) / t;
    assert(UNIT * a >= 0 && UNIT * b >= 0) by (nonlinear_arith)
        requires
            a >= 0,
            b >= 0,
            UNIT == 1_000_000_000_000,
    ;
    vstd::arithmetic::div_mod::lemma_fundamental_div_mod(UNIT * a, r);
    vstd::arithmetic::div_mod::lemma_mod_bound(UNIT * a, r);
    vstd::arithmetic::div_mod::lemma_fundamental_div_mod(UNIT * b, t);
    vstd::arithmetic::div_mod::lemma_mod_bound(UNIT * b, t);
    vstd::arithmetic::div_mod::lemma_div_pos_is_pos(UNIT * a, r);
    vstd::arithmetic::div_mod::lemma_div_pos_is_pos(UNIT * b, t);
    assert(qa * r <= UNIT * a) by (nonlinear_arith)
        requires
            UNIT * a == r * qa + (UNIT * a) % r,
            0 <= (UNIT * a) % r,
    ;
    assert(qb * t <= UNIT * b) by (nonlinear_arith)
        requires
            UNIT * b == t * qb + (UNIT * b) % t,
            0 <= (UNIT * b) % t,
    ;
    assert((qa * r) * t <= (UNIT * a) * t) by (nonlinear_arith)
        requires
            qa * r <= UNIT * a,
            t >= 1,
    ;
    assert((qb * t) * r <= (UNIT * b) * r) by (nonlinear_arith)
        requires
            qb * t <= UNIT * b,
            r >= 1,
    ;
    assert((UNIT * a) * t + (UNIT * b) * r == UNIT * (a * t + b * r)) by (nonlinear_arith);
    assert(UNIT * (a * t + b * r) < UNIT * (r * t)) by (nonlinear_arith)
        requires
            a * t + b * r < r * t,
            UNIT == 1_000_000_000_000,
    ;
    assert((qa + qb) * (r * t) == (qa * r) * t + (qb * t) * r) by (nonlinear_arith);
    assert(qa + qb < UNIT) by (nonlinear_arith)
        requires
            (qa + qb) * (r * t) < UNIT * (r * t),
            r >= 1,
            t >= 1,
    ;
}

/// First margin of the parabolic band, `dy - dx^2`, multiplied by `ONE^2`.
pub open spec fn region_a_lower(p: Point, cx: int, cy: int) -> int {
    (p.y - cy) * ONE - sq(p.x - cx)
}

/// Second margin of the parabolic band, `1 + dx^2 / 2 - dy`, multiplied by `2 * ONE^2`.
pub open spec fn region_a_upper(p: Point, cx: int, cy: int) -> int {
    2 * ONE * ONE + sq(p.x - cx) - 2 * ONE * (p.y - cy)
}

/// Penetration of the parabolic band: the product of its two clamped margins,
/// in units of `1 / UNIT`, rounded up.
pub open spec fn region_a_penetration(p: Point, cx: int, cy: int) -> int {
    let h1 = region_a_lower(p, cx, cy);
    let h2 = region_a_upper(p, cx, cy);
    if h1 <= 0 || h2 <= 0 {
        0
    } else {
        ceil_div(h1 * h2, 2 * ONE * ONE)
    }
}

/// Heights, in grid units, of the two sinusoids that bound a wavy band, taken
/// at the horizontal offset `dx` of the point under evaluation:
/// `lower` is `2 sin(-dx / 2)` and `upper` is `3 sin(dx / 2 - 1)`.
#[derive(Clone, Copy, Debug, PartialEq, Eq, Structural)]
pub struct Wave {
    pub lower: i64,
    pub upper: i64,
}

impl Wave {
    /// The heights respect the amplitudes of the two sinusoids.
    pub open spec fn wf(self) -> bool {
        &&& -2 * ONE <= self.lower <= 2 * ONE
        &&& -3 * ONE <= self.upper <= 3 * ONE
    }

    /// Tests `wf`.
    pub fn is_valid(&self) -> (b: bool)
        ensures
            b == self.wf(),
    {
        -2 * ONE <= self.lower && self.lower <= 2 * ONE && -3 * ONE <= self.upper && self.upper
            <= 3 * ONE
    }
}

/// Penetration of the wavy band: the product of four clamped margins (above
/// the lower sinusoid, below the upper one, right of `dx = 1`, left of
/// `dx = 8`), in units of `1 / UNIT`, rounded up.
pub open spec fn region_b_penetration(p: Point, cx: int, cy: int, w: Wave) -> int {
    let m1 = (p.y - cy) - w.lower;
    let m2 = w.upper - (p.y - cy);
    let m3 = (p.x - cx) - ONE;
    let m4 = 8 * ONE - (p.x - cx);
    if m1 <= 0 || m2 <= 0 || m3 <= 0 || m4 <= 0 {
        0
    } else {
        ceil_div((m1 * m2) * (m3 * m4), ONE * ONE)
    }
}

/// Penetration of the ellipse `elip = (cx, cy, rx, ry)` at `x`.
pub fn h_elip(x: Point, elip: (i64, i64, i64, i64)) -> (h: i128)
    requires
        x.in_range(),
        ellipse_wf(elip.0 as int, elip.1 as int, elip.2 as int, elip.3 as int),
    ensures
        h == ellipse_penetration(x, elip.0 as int, elip.1 as int, elip.2 as int, elip.3 as int),
        0 <= h <= UNIT,
        h > 0 <==> ellipse_margin(x, elip.0 as int, elip.1 as int, elip.2 as int, elip.3 as int)
            > 0,
{
    let dx: i128 = x.x as i128 - elip.0 as i128;
    let dy: i128 = x.y as i128 - elip.1 as i128;
    let rx: i128 = elip.2 as i128;
    let ry: i128 = elip.3 as i128;
    proof {
        lemma_sq_bounds(dx as int, 128_000_000);
        lemma_sq_bounds(dy as int, 128_000_000);
        lemma_sq_bounds(rx as int, 64_000_000);
        lemma_sq_bounds(ry as int, 64_000_000);
    }
    let dx2: i128 = dx * dx;
    let dy2: i128 = dy * dy;
    let rx2: i128 = rx * rx;
    let ry2: i128 = ry * ry;
    proof {
        lemma_mul_nonneg_bounds(rx2 as int, ry2 as int, 4_096_000_000_000_000, 4_096_000_000_000_000);
        lemma_mul_nonneg_bounds(dx2 as int, ry2 as int, 16_384_000_000_000_000, 4_096_000_000_000_000);
        lemma_mul_nonneg_bounds(dy2 as int, rx2 as int, 16_384_000_000_000_000, 4_096_000_000_000_000);
    }
    let den: i128 = rx2 * ry2;
    let m: i128 = den - dx2 * ry2 - dy2 * rx2;
    if m <= 0 {
        0
    } else {
        proof {
            lemma_ellipse_inside(dx2 as int, dy2 as int, rx2 as int, ry2 as int);
            lemma_mul_nonneg_bounds(UNIT as int, dx2 as int, UNIT as int, 16_384_000_000_000_000);
            lemma_mul_nonneg_bounds(UNIT as int, dy2 as int, UNIT as int, 16_384_000_000_000_000);
        }
        let qa: u128 = ((UNIT * dx2) as u128) / (rx2 as u128);
        let qb: u128 = ((UNIT * dy2) as u128) / (ry2 as u128);
        UNIT - qa as i128 - qb as i128
    }
}

/// Penetration of the parabolic band centred at `centre` at `x`.
pub fn h_nlr_1(x: Point, centre: (i64, i64)) -> (h: i128)
    requires
        x.in_range(),
        -COORD_MAX <= centre.0 <= COORD_MAX,
        -COORD_MAX <= centre.1 <= COORD_MAX,
    ensures
        h == region_a_penetration(x, centre.0 as int, centre.1 as int),
        0 <= h <= PENETRATION_MAX,
        h > 0 <==> (region_a_lower(x, centre.0 as int, centre.1 as int) > 0 && region_a_upper(
            x,
            centre.0 as int,
            centre.1 as int,
        ) > 0),
{
    let dx: i128 = x.x as i128 - centre.0 as i128;
    let dy: i128 = x.y as i128 - centre.1 as i128;
    proof {
        lemma_sq_bounds(dx as int, 128_000_000);
    }
    let dx2: i128 = dx * dx;
    let one: i128 = ONE as i128;
    let h1: i128 = dy * one - dx2;
    let h2: i128 = 2 * one * one + dx2 - 2 * one * dy;
    if h1 <= 0 || h2 <= 0 {
        0
    } else {
        proof {
            lemma_mul_nonneg_bounds(h1 as int, h2 as int, 128_000_000_000_000, 17_000_000_000_000_000);
            lemma_ceil_div_least(h1 * h2, 2 * ONE * ONE);
        }
        let num: i128 = h1 * h2;
        ceil_div_exec(num as u128, 2_000_000_000_000u128) as i128
    }
}

/// Penetration of the wavy band centred at `centre` at `x`, given the heights
/// `wave` of its two sinusoids at the horizontal offset of `x`.
pub fn h_nlr_2(x: Point, centre: (i64, i64), wave: Wave) -> (h: i128)
    requires
        x.in_range(),
        -COORD_MAX <= centre.0 <= COORD_MAX,
        -COORD_MAX <= centre.1 <= COORD_MAX,
        wave.wf(),
    ensures
        h == region_b_penetration(x, centre.0 as int, centre.1 as int, wave),
        0 <= h <= PENETRATION_MAX,
        h > 0 <==> {
            &&& wave.lower < x.y - centre.1 < wave.upper
            &&& ONE < x.x - centre.0 < 8 * ONE
        },
{
    let dx: i128 = x.x as i128 - centre.0 as i128;
    let dy: i128 = x.y as i128 - centre.1 as i128;
    let one: i128 = ONE as i128;
    let m1: i128 = dy - wave.lower as i128;
    let m2: i128 = wave.upper as i128 - dy;
    let m3: i128 = dx - one;
    let m4: i128 = 8 * one - dx;
    if m1 <= 0 || m2 <= 0 || m3 <= 0 || m4 <= 0 {
        0
    } else {
        proof {
            lemma_mul_nonneg_bounds(m1 as int, m2 as int, 5_000_000, 5_000_000);
            lemma_mul_nonneg_bounds(m3 as int, m4 as int, 7_000_000, 7_000_000);
            lemma_mul_nonneg_bounds(m1 * m2, m3 * m4, 25_000_000_000_000, 49_000_000_000_000);
            lemma_ceil_div_least((m1 * m2) * (m3 * m4), ONE * ONE);
        }
        let num: i128 = (m1 * m2) * (m3 * m4);
        ceil_div_exec(num as u128, 1_000_000_000_000u128) as i128
    }
}

/// An obstacle of the plane.
#[derive(Clone, Copy, Debug, PartialEq, Eq, Structural)]
pub enum Obstacle {
    /// An axis-aligned ellipse with centre `(cx, cy)` and radii `(rx, ry)`.
    Ellipse { cx: i64, cy: i64, rx: i64, ry: i64 },
    /// The band between two parabolas through `(cx, cy)`.
    NonlinearRegionA { cx: i64, cy: i64 },
    /// The band between two sinusoids, cut off at horizontal offsets 1 and 8 from `cx`.
    NonlinearRegionB { cx: i64, cy: i64 },
}

impl Obstacle {
    /// The centre is in range and, for an ellipse, the radii are admissible.
    pub open spec fn wf(self) -> bool {
        match self {
            Obstacle::Ellipse { cx, cy, rx, ry } => ellipse_wf(
                cx as int,
                cy as int,
                rx as int,
                ry as int,
            ),
            Obstacle::NonlinearRegionA { cx, cy } => {
                &&& -COORD_MAX <= cx <= COORD_MAX
                &&& -COORD_MAX <= cy <= COORD_MAX
            },
            Obstacle::NonlinearRegionB { cx, cy } => {
                &&& -COORD_MAX <= cx <= COORD_MAX
                &&& -COORD_MAX <= cy <= COORD_MAX
            },
        }
    }

    /// Penetration of this obstacle at `p`. The wave is read by the wavy band only.
    pub open spec fn penetration(self, p: Point, w: Wave) -> int {
        match self {
            Obstacle::Ellipse { cx, cy, rx, ry } => ellipse_penetration(
                p,
                cx as int,
                cy as int,
                rx as int,
                ry as int,
            ),
            Obstacle::NonlinearRegionA { cx, cy } => region_a_penetration(p, cx as int, cy as int),
            Obstacle::NonlinearRegionB { cx, cy } => region_b_penetration(
                p,
                cx as int,
                cy as int,
                w,
            ),
        }
    }

    /// `p` lies strictly inside this obstacle: every margin is positive there.
    pub open spec fn contains(self, p: Point, w: Wave) -> bool {
        match self {
            Obstacle::Ellipse { cx, cy, rx, ry } => ellipse_margin(
                p,
                cx as int,
                cy as int,
                rx as int,
                ry as int,
            ) > 0,
            Obstacle::NonlinearRegionA { cx, cy } => {
                &&& region_a_lower(p, cx as int, cy as int) > 0
                &&& region_a_upper(p, cx as int, cy as int) > 0
            },
            Obstacle::NonlinearRegionB { cx, cy } => {
                &&& w.lower < p.y - cy < w.upper
                &&& ONE < p.x - cx < 8 * ONE
            },
        }
    }

    /// Decodes the tuple form of an obstacle: kind 1 is an ellipse
    /// `(cx, cy, rx, ry)`, kind 3 the parabolic band and kind 4 the wavy band,
    /// both centred at `(cx, cy)`. Any other kind, and any shape that is not
    /// admissible, is rejected.
    pub fn from_kind(kind: u32, cx: i64, cy: i64, rx: i64, ry: i64) -> (r: Option<Obstacle>)
        ensures
            r == Self::decode(kind, cx, cy, rx, ry),
            r is Some ==> r->Some_0.wf(),
    {
        let o = if kind == 1 {
            Obstacle::Ellipse { cx, cy, rx, ry }
        } else if kind == 3 {
            Obstacle::NonlinearRegionA { cx, cy }
        } else if kind == 4 {
            Obstacle::NonlinearRegionB { cx, cy }
        } else {
            return None;
        };
        if o.is_valid() {
            Some(o)
        } else {
            None
        }
    }

    /// What `from_kind` returns.
    pub open spec fn decode(kind: u32, cx: i64, cy: i64, rx: i64, ry: i64) -> Option<Obstacle> {
        let o = if kind == 1 {
            Some(Obstacle::Ellipse { cx, cy, rx, ry })
        } else if kind == 3 {
            Some(Obstacle::NonlinearRegionA { cx, cy })
        } else if kind == 4 {
            Some(Obstacle::NonlinearRegionB { cx, cy })
        } else {
            None
        };
        if o is Some && o->Some_0.wf() {
            o
        } else {
            None
        }
    }

    /// Tests `wf`.
    pub fn is_valid(&self) -> (b: bool)
        ensures
            b == self.wf(),
    {
        match *self {
            Obstacle::Ellipse { cx, cy, rx, ry } => {
                -COORD_MAX <= cx && cx <= COORD_MAX && -COORD_MAX <= cy && cy <= COORD_MAX && 1
                    <= rx && rx <= COORD_MAX && 1 <= ry && ry <= COORD_MAX
            },
            Obstacle::NonlinearRegionA { cx, cy } => {
                -COORD_MAX <= cx && cx <= COORD_MAX && -COORD_MAX <= cy && cy <= COORD_MAX
            },
            Obstacle::NonlinearRegionB { cx, cy } => {
                -COORD_MAX <= cx && cx <= COORD_MAX && -COORD_MAX <= cy && cy <= COORD_MAX
            },
        }
    }

    /// Penetration of this obstacle at `p`, given the wave heights at `p`.
    pub fn penetration_at(&self, p: Point, w: Wave) -> (h: i128)
        requires
            self.wf(),
            p.in_range(),
            w.wf(),
        ensures
            h == self.penetration(p, w),
            0 <= h <= PENETRATION_MAX,
            h > 0 <==> self.contains(p, w),
    {
        match *self {
            Obstacle::Ellipse { cx, cy, rx, ry } => h_elip(p, (cx, cy, rx, ry)),
            Obstacle::NonlinearRegionA { cx, cy } => h_nlr_1(p, (cx, cy)),
            Obstacle::NonlinearRegionB { cx, cy } => h_nlr_2(p, (cx, cy), w),
        }
    }
}

/// Aggregate penetration of a list of obstacles at `p`: the sum of the
/// penetrations of the obstacles, the `i`-th evaluated with the `i`-th wave.
pub open spec fn aggregate(obs: Seq<Obstacle>, p: Point, waves: Seq<Wave>) -> int
    decreases obs.len(),
{
    if obs.len() == 0 || waves.len() == 0 {
        0
    } else {
        aggregate(obs.drop_last(), p, waves.drop_last()) + obs.last().penetration(p, waves.last())
    }
}

/// Every obstacle of the list is admissible, each has its wave, and the list
/// is not longer than `MAX_OBSTACLES`.
pub open spec fn field_wf(obs: Seq<Obstacle>, waves: Seq<Wave>) -> bool {
    &&& obs.len() == waves.len()
    &&& obs.len() <= MAX_OBSTACLES
    &&& forall|i: int| 0 <= i < obs.len() ==> (#[trigger] obs[i]).wf()
    &&& forall|i: int| 0 <= i < waves.len() ==> (#[trigger] waves[i]).wf()
}

/// Aggregate penetration of `obs` at `p`.
pub fn aggregate_penetration(obs: &Vec<Obstacle>, p: Point, waves: &Vec<Wave>) -> (h: i128)
    requires
        field_wf(obs@, waves@),
        p.in_range(),
    ensures
        h == aggregate(obs@, p, waves@),
        0 <= h <= obs@.len() * PENETRATION_MAX,
{
    let mut sum: i128 = 0;
    let mut i: usize = 0;
    while i < obs.len()
        invariant
            field_wf(obs@, waves@),
            p.in_range(),
            0 <= i <= obs@.len(),
            sum == aggregate(obs@.take(i as int), p, waves@.take(i as int)),
            0 <= sum <= i * PENETRATION_MAX,
        decreases obs@.len() - i,
    {
        let h = obs[i].penetration_at(p, waves[i]);
        proof {
            assert(obs@.take(i + 1).drop_last() =~= obs@.take(i as int));
            assert(waves@.take(i + 1).drop_last() =~= waves@.take(i as int));
        }
        sum = sum + h;
        i = i + 1;
    }
    proof {
        assert(obs@.take(i as int) =~= obs@);
        assert(waves@.take(i as int) =~= waves@);
    }
    sum
}

/// At the centre of an admissible ellipse the penetration is exactly one.
pub proof fn lemma_ellipse_centre(cx: int, cy: int, rx: int, ry: int)
    requires
        ellipse_wf(cx, cy, rx, ry),
    ensures
        ellipse_penetration(Point { x: cx as i64, y: cy as i64 }, cx, cy, rx, ry) == UNIT,
{
    lemma_sq_bounds(rx, COORD_MAX as int);
    lemma_sq_bounds(ry, COORD_MAX as int);
    lemma_mul_nonneg_bounds(sq(rx), sq(ry), sq(rx), sq(ry));
    assert(sq(0) == 0 && 0 * sq(ry) == 0 && 0 * sq(rx) == 0 && UNIT * 0 == 0)
        by (nonlinear_arith);
    vstd::arithmetic::div_mod::lemma_basic_div(0, sq(rx));
    vstd::arithmetic::div_mod::lemma_basic_div(0, sq(ry));
}

/// On and outside the boundary of an admissible ellipse, that is wherever
/// `(dx/rx)^2 + (dy/ry)^2 >= 1`, the penetration is zero; strictly inside it
/// is positive and at most one.
pub proof fn lemma_ellipse_outside(p: Point, cx: int, cy: int, rx: int, ry: int)
    requires
        ellipse_wf(cx, cy, rx, ry),
    ensures
        sq(p.x - cx) * sq(ry) + sq(p.y - cy) * sq(rx) >= sq(rx) * sq(ry) ==> ellipse_penetration(
            p,
            cx,
            cy,
            rx,
            ry,
        ) == 0,
        sq(p.x - cx) * sq(ry) + sq(p.y - cy) * sq(rx) < sq(rx) * sq(ry) ==> 0
            < ellipse_penetration(p, cx, cy, rx, ry) <= UNIT,
{
    lemma_sq_bounds(rx, COORD_MAX as int);
    lemma_sq_bounds(ry, COORD_MAX as int);
    if ellipse_margin(p, cx, cy, rx, ry) > 0 {
        assert(sq(p.x - cx) >= 0 && sq(p.y - cy) >= 0) by (nonlinear_arith)
            requires
                sq(p.x - cx) == (p.x - cx) * (p.x - cx),
                sq(p.y - cy) == (p.y - cy) * (p.y - cy),
        ;
        lemma_ellipse_inside(sq(p.x - cx), sq(p.y - cy), sq(rx), sq(ry));
    }
}

/// The penetration of an admissible obstacle is never negative; it is
/// positive strictly inside the obstacle and zero everywhere else.
pub proof fn lemma_penetration_sign(o: Obstacle, p: Point, w: Wave)
    requires
        o.wf(),
    ensures
        o.penetration(p, w) >= 0,
        o.penetration(p, w) > 0 <==> o.contains(p, w),
{
    match o {
        Obstacle::Ellipse { cx, cy, rx, ry } => {
            lemma_ellipse_outside(p, cx as int, cy as int, rx as int, ry as int);
        },
        Obstacle::NonlinearRegionA { cx, cy } => {
            let h1 = region_a_lower(p, cx as int, cy as int);
            let h2 = region_a_upper(p, cx as int, cy as int);
            if h1 > 0 && h2 > 0 {
                lemma_mul_nonneg_bounds(h1, h2, h1, h2);
                lemma_ceil_div_least(h1 * h2, 2 * ONE * ONE);
            }
        },
        Obstacle::NonlinearRegionB { cx, cy } => {
            let m1 = (p.y - cy) - w.lower;
            let m2 = w.upper - (p.y - cy);
            let m3 = (p.x - cx) - ONE;
            let m4 = 8 * ONE - (p.x - cx);
            if m1 > 0 && m2 > 0 && m3 > 0 && m4 > 0 {
                lemma_mul_nonneg_bounds(m1, m2, m1, m2);
                lemma_mul_nonneg_bounds(m3, m4, m3, m4);
                lemma_mul_nonneg_bounds(m1 * m2, m3 * m4, m1 * m2, m3 * m4);
                lemma_ceil_div_least((m1 * m2) * (m3 * m4), ONE * ONE);
            }
        },
    }
}

/// With no obstacle the aggregate penetration is zero at every point.
pub proof fn lemma_aggregate_empty(p: Point, waves: Seq<Wave>)
    ensures
        aggregate(Seq::<Obstacle>::empty(), p, waves) == 0,
{
}

/// One more obstacle adds its own penetration to the aggregate.
pub proof fn lemma_aggregate_push(obs: Seq<Obstacle>, p: Point, waves: Seq<Wave>, o: Obstacle, w: Wave)
    ensures
        aggregate(obs.push(o), p, waves.push(w)) == aggregate(obs, p, waves) + o.penetration(
            p,
            w,
        ),
{
    assert(obs.push(o).drop_last() =~= obs);
    assert(waves.push(w).drop_last() =~= waves);
}

/// The aggregate penetration of admissible obstacles is never negative, and
/// it is zero exactly where every obstacle's penetration is zero.
pub proof fn lemma_aggregate_nonneg(obs: Seq<Obstacle>, p: Point, waves: Seq<Wave>)
    requires
        obs.len() == waves.len(),
        forall|i: int| 0 <= i < obs.len() ==> (#[trigger] obs[i]).wf(),
    ensures
        aggregate(obs, p, waves) >= 0,
        aggregate(obs, p, waves) == 0 <==> forall|i: int|
            0 <= i < obs.len() ==> (#[trigger] obs[i]).penetration(p, waves[i]) == 0,
    decreases obs.len(),
{
    if obs.len() > 0 {
        let front = obs.drop_last();
        let wfront = waves.drop_last();
        lemma_aggregate_nonneg(front, p, wfront);
        lemma_penetration_sign(obs.last(), p, waves.last());
        if aggregate(obs, p, waves) == 0 {
            assert forall|i: int| 0 <= i < obs.len() implies (#[trigger] obs[i]).penetration(
                p,
                waves[i],
            ) == 0 by {
                if i < obs.len() - 1 {
                    assert(front[i].penetration(p, wfront[i]) == 0);
                }
            }
        }
        if forall|i: int| 0 <= i < obs.len() ==> (#[trigger] obs[i]).penetration(p, waves[i]) == 0 {
            assert forall|i: int| 0 <= i < front.len() implies (#[trigger] front[i]).penetration(
                p,
                wfront[i],
            ) == 0 by {
                assert(obs[i].penetration(p, waves[i]) == 0);
            }
            assert(obs[obs.len() - 1].penetration(p, waves[obs.len() - 1]) == 0);
        }
    }
}

} // verus!
