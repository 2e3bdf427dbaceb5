//! The step subproblem: for a candidate next position, the objective
//! (squared distance to the goal), the two constraints (aggregate obstacle
//! penetration and excess over the step bound) and their forward differences
//! over one grid step.

use crate::fixed::{
    ceil_sqrt, ceil_sqrt_exec, dist_sq, dist_sq_exec, lemma_ceil_sqrt_exists, lemma_ceil_sqrt_le,
    lemma_dist_sq_bounds, Point, ONE, SQRT_MAX,
};
use crate::obstacle::{
    aggregate, aggregate_penetration, clamp, field_wf, Obstacle, Wave, MAX_OBSTACLES,
    PENETRATION_MAX,
};
use vstd::prelude::*;

verus! {

/// Largest magnitude of an entry of the direction handed to the Jacobian product.
pub const D_MAX: i128 = 1_000_000_000_000;

/// Excess of the distance from `from` to `u` over the step bound,
/// `max(0, |u - from| - max_step)`, in units of `1 / UNIT`, rounded up.
pub open spec fn step_excess(u: Point, from: Point, max_step: int) -> int {
    clamp(ceil_sqrt(dist_sq(u, from) * (ONE * ONE)) - max_step * ONE)
}

/// The step constraint is zero exactly when the step is no longer than the
/// bound, and strictly positive otherwise.
pub proof fn lemma_step_excess_zero_iff(u: Point, from: Point, max_step: int)
    requires
        max_step >= 0,
    ensures
        dist_sq(u, from) <= max_step * max_step ==> step_excess(u, from, max_step) == 0,
        dist_sq(u, from) > max_step * max_step ==> step_excess(u, from, max_step) > 0,
{
    let d = dist_sq(u, from);
    let n = d * (ONE * ONE);
    let m = max_step * ONE;
    lemma_ceil_sqrt_exists(n);
    lemma_ceil_sqrt_le(n, ceil_sqrt(n), m);
    assert(m >= 0 && m * m == (max_step * max_step) * (ONE * ONE)) by (nonlinear_arith)
        requires
            m == max_step * ONE,
            max_step >= 0,
            ONE == 1_000_000,
    ;
    assert(n <= m * m <==> d <= max_step * max_step) by (nonlinear_arith)
        requires
            n == d * (ONE * ONE),
            m * m == (max_step * max_step) * (ONE * ONE),
            ONE == 1_000_000,
    ;
}

/// A two-by-two matrix; `m01` stands in row 0 and column 1.
#[derive(Clone, Copy, Debug, PartialEq, Eq, Structural)]
pub struct Matrix2 {
    pub m00: i128,
    pub m01: i128,
    pub m10: i128,
    pub m11: i128,
}

/// One instance of the step subproblem.
pub struct ProblemMaster {
    /// Current position of the robot.
    pub x_now: Point,
    /// Goal position.
    pub x_ref: Point,
    /// The obstacles.
    pub x_obs: Vec<Obstacle>,
    /// Longest admissible step.
    pub u_max: i64,
}

proof fn lemma_mul_abs_bounds(a: int, b: int, ma: int, mb: int)
    requires
        -ma <= a <= ma,
        -mb <= b <= mb,
    ensures
        -(ma * mb) <= a * b <= ma * mb,
{
    assert(-(ma * mb) <= a * b <= ma * mb) by (nonlinear_arith)
        requires
            -ma <= a <= ma,
            -mb <= b <= mb,
    ;
}

impl ProblemMaster {
    /// Both positions are in range, the step bound is positive, and the
    /// obstacles are admissible and at most `MAX_OBSTACLES`.
    pub open spec fn wf(&self) -> bool {
        &&& self.x_now.in_range()
        &&& self.x_ref.in_range()
        &&& self.u_max > 0
        &&& self.x_obs@.len() <= MAX_OBSTACLES
        &&& forall|i: int| 0 <= i < self.x_obs@.len() ==> (#[trigger] self.x_obs@[i]).wf()
    }

    /// The objective at `u`: the squared distance to the goal.
    pub open spec fn cost(&self, u: Point) -> int {
        dist_sq(u, self.x_ref)
    }

    /// Constraint `i` at `u`: the aggregate penetration for `i == 0`, the
    /// excess over the step bound otherwise.
    pub open spec fn constraint(&self, i: int, u: Point, waves: Seq<Wave>) -> int {
        if i == 0 {
            aggregate(self.x_obs@, u, waves)
        } else {
            step_excess(u, self.x_now, self.u_max as int)
        }
    }

    /// Entry `(i, j)` of the Jacobian of the constraints at `u`: the forward
    /// difference of constraint `i` over one grid step along axis `j`.
    /// `waves` holds the wave heights at `u`, `waves_dx` those one step
    /// further along the first axis.
    pub open spec fn jacobian(&self, i: int, j: int, u: Point, waves: Seq<Wave>, waves_dx: Seq<Wave>) -> int {
        if j == 0 {
            self.constraint(i, u.step_x(), waves_dx) - self.constraint(i, u, waves)
        } else {
            self.constraint(i, u.step_y(), waves) - self.constraint(i, u, waves)
        }
    }

    /// Entry `(0, j)` of the Jacobian as the product uses it: forced to zero
    /// where the aggregate penetration at `u` is not positive.
    pub open spec fn active_row(&self, j: int, u: Point, waves: Seq<Wave>, waves_dx: Seq<Wave>) -> int {
        if self.constraint(0, u, waves) <= 0 {
            0
        } else {
            self.jacobian(0, j, u, waves, waves_dx)
        }
    }

    /// The transposed Jacobian at `u`, with its penetration row forced to zero
    /// outside the obstacles, applied to `d`.
    pub open spec fn jacobian_product(&self, u: Point, d: Seq<int>, waves: Seq<Wave>, waves_dx: Seq<Wave>) -> Seq<int> {
        seq![
            self.active_row(0, u, waves, waves_dx) * d[0] + self.jacobian(1, 0, u, waves, waves_dx)
                * d[1],
            self.active_row(1, u, waves, waves_dx) * d[0] + self.jacobian(1, 1, u, waves, waves_dx)
                * d[1],
        ]
    }

    /// The subproblem posed at `x_start` for the goal `x_ref`, the obstacles
    /// `x_obs` and the step bound `u_max`. Nothing is tested here: see `is_valid`.
    pub fn init(x_start: Point, x_ref: Point, x_obs: Vec<Obstacle>, u_max: i64) -> (pm: Self)
        ensures
            pm.x_now == x_start,
            pm.x_ref == x_ref,
            pm.x_obs == x_obs,
            pm.u_max == u_max,
    {
        ProblemMaster { x_now: x_start, x_ref, x_obs, u_max }
    }

    /// Tests `wf`.
    pub fn is_valid(&self) -> (b: bool)
        ensures
            b == self.wf(),
    {
        if !(self.x_now.is_in_range() && self.x_ref.is_in_range() && self.u_max > 0
            && self.x_obs.len() <= MAX_OBSTACLES) {
            return false;
        }
        let mut i: usize = 0;
        while i < self.x_obs.len()
            invariant
                0 <= i <= self.x_obs@.len(),
                forall|k: int| 0 <= k < i ==> (#[trigger] self.x_obs@[k]).wf(),
            decreases self.x_obs@.len() - i,
        {
            if !self.x_obs[i].is_valid() {
                return false;
            }
            i = i + 1;
        }
        true
    }

    /// Tests that `waves` can accompany the obstacles: one admissible wave each.
    pub fn accepts(&self, waves: &Vec<Wave>) -> (b: bool)
        requires
            self.wf(),
        ensures
            b == field_wf(self.x_obs@, waves@),
    {
        if waves.len() != self.x_obs.len() {
            return false;
        }
        let mut i: usize = 0;
        while i < waves.len()
            invariant
                0 <= i <= waves@.len(),
                forall|k: int| 0 <= k < i ==> (#[trigger] waves@[k]).wf(),
            decreases waves@.len() - i,
        {
            if !waves[i].is_valid() {
                return false;
            }
            i = i + 1;
        }
        true
    }

    /// The objective at `u`.
    pub fn f_call(&self, u: Point) -> (cost: i128)
        requires
            self.x_ref.in_range(),
            u.in_range(),
        ensures
            cost == self.cost(u),
            cost >= 0,
            cost == 0 <==> u == self.x_ref,
    {
        proof {
            lemma_dist_sq_bounds(u, self.x_ref);
        }
        dist_sq_exec(u, self.x_ref)
    }

    /// Stores the objective at `u` in `cost`.
    pub fn f(&self, u: Point, cost: &mut i128)
        requires
            self.x_ref.in_range(),
            u.in_range(),
        ensures
            *final(cost) == self.cost(u),
    {
        *cost = self.f_call(u);
    }

    /// Stores in `grad` the forward differences of the objective at `u` over
    /// one grid step along each axis; they are `2 (u - goal) + 1` exactly.
    pub fn df(&self, u: Point, grad: &mut Vec<i128>)
        requires
            self.x_ref.in_range(),
            u.steppable(),
            old(grad)@.len() == 2,
        ensures
            final(grad)@ =~= seq![
                (self.cost(u.step_x()) - self.cost(u)) as i128,
                (self.cost(u.step_y()) - self.cost(u)) as i128,
            ],
            final(grad)@[0] == 2 * (u.x - self.x_ref.x) + 1,
            final(grad)@[1] == 2 * (u.y - self.x_ref.y) + 1,
    {
        let f_0 = self.f_call(u);
        let ux = Point { x: u.x + 1, y: u.y };
        let uy = Point { x: u.x, y: u.y + 1 };
        let f_x = self.f_call(ux);
        let f_y = self.f_call(uy);
        proof {
            let ax = u.x - self.x_ref.x;
            let ay = u.y - self.x_ref.y;
            assert((ax + 1) * (ax + 1) == ax * ax + 2 * ax + 1) by (nonlinear_arith);
            assert((ay + 1) * (ay + 1) == ay * ay + 2 * ay + 1) by (nonlinear_arith);
        }
        grad.set(0, f_x - f_0);
        grad.set(1, f_y - f_0);
    }

    /// Excess of the step from the current position to `u` over the bound.
    fn excess_at(&self, u: Point) -> (e: i128)
        requires
            self.wf(),
            u.in_range(),
        ensures
            e == step_excess(u, self.x_now, self.u_max as int),
            0 <= e <= SQRT_MAX,
    {
        let d = dist_sq_exec(u, self.x_now);
        let r = ceil_sqrt_exec((d * 1_000_000_000_000) as u128);
        let over: i128 = r as i128 - self.u_max as i128 * ONE as i128;
        if over <= 0 {
            0
        } else {
            over
        }
    }

    /// The constraint vector at `u`: aggregate penetration, then step excess.
    pub fn f1_call(&self, u: Point, waves: &Vec<Wave>) -> (f1u: Vec<i128>)
        requires
            self.wf(),
            u.in_range(),
            field_wf(self.x_obs@, waves@),
        ensures
            f1u@.len() == 2,
            f1u@[0] == self.constraint(0, u, waves@),
            f1u@[1] == self.constraint(1, u, waves@),
            0 <= f1u@[0] <= MAX_OBSTACLES * PENETRATION_MAX,
            0 <= f1u@[1] <= SQRT_MAX,
    {
        let f1u_0 = aggregate_penetration(&self.x_obs, u, waves);
        let f1u_1 = self.excess_at(u);
        assert(self.x_obs@.len() * PENETRATION_MAX <= MAX_OBSTACLES * PENETRATION_MAX)
            by (nonlinear_arith)
            requires
                self.x_obs@.len() <= MAX_OBSTACLES,
                PENETRATION_MAX > 0,
        ;
        let mut f1u: Vec<i128> = Vec::new();
        f1u.push(f1u_0);
        f1u.push(f1u_1);
        f1u
    }

    /// Stores the constraint vector at `u` in the first two places of `f1u`.
    pub fn f1(&self, u: Point, waves: &Vec<Wave>, f1u: &mut Vec<i128>)
        requires
            self.wf(),
            u.in_range(),
            field_wf(self.x_obs@, waves@),
            old(f1u)@.len() >= 2,
        ensures
            final(f1u)@ =~= old(f1u)@.update(0, self.constraint(0, u, waves@) as i128).update(
                1,
                self.constraint(1, u, waves@) as i128,
            ),
    {
        let f1u_vec = self.f1_call(u, waves);
        f1u.set(0, f1u_vec[0]);
        f1u.set(1, f1u_vec[1]);
    }

    /// The Jacobian of the constraints at `u` by forward differences.
    pub fn jf1_call(&self, u: Point, waves: &Vec<Wave>, waves_dx: &Vec<Wave>) -> (jf1: Matrix2)
        requires
            self.wf(),
            u.steppable(),
            field_wf(self.x_obs@, waves@),
            field_wf(self.x_obs@, waves_dx@),
        ensures
            jf1.m00 == self.jacobian(0, 0, u, waves@, waves_dx@),
            jf1.m01 == self.jacobian(0, 1, u, waves@, waves_dx@),
            jf1.m10 == self.jacobian(1, 0, u, waves@, waves_dx@),
            jf1.m11 == self.jacobian(1, 1, u, waves@, waves_dx@),
            -(MAX_OBSTACLES * PENETRATION_MAX) <= jf1.m00 <= MAX_OBSTACLES * PENETRATION_MAX,
            -(MAX_OBSTACLES * PENETRATION_MAX) <= jf1.m01 <= MAX_OBSTACLES * PENETRATION_MAX,
            -SQRT_MAX <= jf1.m10 <= SQRT_MAX,
            -SQRT_MAX <= jf1.m11 <= SQRT_MAX,
    {
        let ux = Point { x: u.x + 1, y: u.y };
        let uy = Point { x: u.x, y: u.y + 1 };
        let f1_0 = self.f1_call(u, waves);
        let f1_x = self.f1_call(ux, waves_dx);
        let f1_y = self.f1_call(uy, waves);
        Matrix2 {
            m00: f1_x[0] - f1_0[0],
            m01: f1_y[0] - f1_0[0],
            m10: f1_x[1] - f1_0[1],
            m11: f1_y[1] - f1_0[1],
        }
    }

    /// Stores in the first two places of `res` the transposed Jacobian at `u`
    /// applied to `d`. Where the aggregate penetration at `u` is not positive
    /// the penetration row of the Jacobian counts as zero.
    pub fn f1_jacobian_product(
        &self,
        u: Point,
        d: &[i128],
        waves: &Vec<Wave>,
        waves_dx: &Vec<Wave>,
        res: &mut Vec<i128>,
    )
        requires
            self.wf(),
            u.steppable(),
            field_wf(self.x_obs@, waves@),
            field_wf(self.x_obs@, waves_dx@),
            d@.len() == 2,
            -D_MAX <= d@[0] <= D_MAX,
            -D_MAX <= d@[1] <= D_MAX,
            old(res)@.len() >= 2,
        ensures
            final(res)@.len() == old(res)@.len(),
            final(res)@[0] == self.jacobian_product(u, d@.map_values(|v: i128| v as int), waves@, waves_dx@)[0],
            final(res)@[1] == self.jacobian_product(u, d@.map_values(|v: i128| v as int), waves@, waves_dx@)[1],
            forall|k: int| 2 <= k < old(res)@.len() ==> final(res)@[k] == old(res)@[k],
    {
        let test = self.f1_call(u, waves);
        let mut jf1_matrix = self.jf1_call(u, waves, waves_dx);
        if test[0] <= 0 {
            jf1_matrix.m00 = 0;
            jf1_matrix.m01 = 0;
        }
        let d0: i128 = d[0];
        let d1: i128 = d[1];
        proof {
            let big = MAX_OBSTACLES * PENETRATION_MAX;
            lemma_mul_abs_bounds(jf1_matrix.m00 as int, d0 as int, big, D_MAX as int);
            lemma_mul_abs_bounds(jf1_matrix.m01 as int, d0 as int, big, D_MAX as int);
            lemma_mul_abs_bounds(jf1_matrix.m10 as int, d1 as int, SQRT_MAX as int, D_MAX as int);
            lemma_mul_abs_bounds(jf1_matrix.m11 as int, d1 as int, SQRT_MAX as int, D_MAX as int);
            assert(big * D_MAX == 2_000_000_000_000_000_000_000_000_000_000_000_000
                && SQRT_MAX * D_MAX == 281_474_976_710_656_000_000_000_000) by (nonlinear_arith)
                requires
                    big == 2_000_000_000_000_000_000_000_000,
                    D_MAX == 1_000_000_000_000,
                    SQRT_MAX == 281_474_976_710_656,
            ;
        }
        let r0: i128 = jf1_matrix.m00 * d0 + jf1_matrix.m10 * d1;
        let r1: i128 = jf1_matrix.m01 * d0 + jf1_matrix.m11 * d1;
        res.set(0, r0);
        res.set(1, r1);
    }
}

/// Strictly outside all obstacles the penetration row contributes nothing to
/// the Jacobian product, whatever the first entry of the direction is.
pub proof fn lemma_outside_row_is_zero(
    pm: ProblemMaster,
    u: Point,
    d: Seq<int>,
    e: Seq<int>,
    waves: Seq<Wave>,
    waves_dx: Seq<Wave>,
)
    requires
        pm.constraint(0, u, waves) <= 0,
        d.len() == 2,
        e.len() == 2,
        d[1] == e[1],
    ensures
        pm.jacobian_product(u, d, waves, waves_dx) == pm.jacobian_product(u, e, waves, waves_dx),
        pm.jacobian_product(u, d, waves, waves_dx) == seq![
            pm.jacobian(1, 0, u, waves, waves_dx) * d[1],
            pm.jacobian(1, 1, u, waves, waves_dx) * d[1],
        ],
{
    assert(0 * d[0] == 0 && 0 * e[0] == 0) by (nonlinear_arith);
    assert(pm.jacobian_product(u, d, waves, waves_dx) =~= seq![
        pm.jacobian(1, 0, u, waves, waves_dx) * d[1],
        pm.jacobian(1, 1, u, waves, waves_dx) * d[1],
    ]);
    assert(pm.jacobian_product(u, e, waves, waves_dx) =~= seq![
        pm.jacobian(1, 0, u, waves, waves_dx) * d[1],
        pm.jacobian(1, 1, u, waves, waves_dx) * d[1],
    ]);
}

/// With no obstacle the penetration constraint vanishes at every point.
pub proof fn lemma_free_field(pm: ProblemMaster, u: Point, waves: Seq<Wave>)
    requires
        pm.x_obs@.len() == 0,
    ensures
        pm.constraint(0, u, waves) == 0,
{
}

} // verus!
