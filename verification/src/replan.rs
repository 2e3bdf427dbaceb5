//! The replanning loop as a state machine: the caller solves one step
//! subproblem per round and reports the position it obtained; the machine
//! records the path and decides whether planning goes on.

use crate::fixed::{dist_sq, dist_sq_exec, lemma_dist_sq_bounds, Point};
use vstd::prelude::*;

verus! {

/// Distance to the goal, in grid units, below which the goal counts as reached.
pub const GOAL_TOLERANCE: i64 = 10;

/// `p` is closer to `goal` than the tolerance.
pub open spec fn reached(p: Point, goal: Point) -> bool {
    dist_sq(p, goal) < GOAL_TOLERANCE * GOAL_TOLERANCE
}

/// Where the replanning loop stands.
#[derive(Clone, Copy, Debug, PartialEq, Eq, Structural)]
pub enum Status {
    /// Another step subproblem is to be solved from the current position.
    Planning,
    /// The last position is within tolerance of the goal.
    Done,
    /// The step budget ran out before the goal was reached.
    Exhausted,
    /// A step subproblem could not be solved; the run was given up.
    Failed,
}

/// State of one planning run.
pub struct Replanner {
    /// Last position reported, or the start.
    pub current: Point,
    /// Where the run is headed.
    pub goal: Point,
    /// The start, then every position reported, in order.
    pub path: Vec<Point>,
    /// Number of steps the run may take in all.
    pub max_steps: u64,
    /// Number of steps still allowed.
    pub budget: u64,
    /// Whether the run goes on, and if not, how it ended.
    pub status: Status,
}

/// What the status is after a step to `next` that leaves `budget` more steps.
pub open spec fn status_after(next: Point, goal: Point, budget: int) -> Status {
    if reached(next, goal) {
        Status::Done
    } else if budget == 0 {
        Status::Exhausted
    } else {
        Status::Planning
    }
}

impl Replanner {
    /// The path ends at the current position, path and budget together
    /// account for the steps allowed, and the status agrees with both.
    pub open spec fn wf(&self) -> bool {
        &&& self.current.in_range()
        &&& self.goal.in_range()
        &&& self.path@.len() >= 1
        &&& self.path@.last() == self.current
        &&& self.path@.len() - 1 + self.budget == self.max_steps
        &&& self.status == Status::Planning ==> self.budget > 0
        &&& self.status == Status::Done ==> reached(self.current, self.goal)
        &&& self.status == Status::Exhausted ==> self.budget == 0
    }

    /// A run from `start` towards `goal` of at most `max_steps` steps. The
    /// first step is planned even where the start is the goal; with no step
    /// allowed the run is exhausted at once.
    pub fn start(start: Point, goal: Point, max_steps: u64) -> (r: Self)
        requires
            start.in_range(),
            goal.in_range(),
        ensures
            r.wf(),
            r.current == start,
            r.goal == goal,
            r.path@ == seq![start],
            r.max_steps == max_steps,
            r.budget == max_steps,
            r.status == if max_steps == 0 {
                Status::Exhausted
            } else {
                Status::Planning
            },
    {
        let mut path: Vec<Point> = Vec::new();
        path.push(start);
        let status = if max_steps == 0 {
            Status::Exhausted
        } else {
            Status::Planning
        };
        Replanner { current: start, goal, path, max_steps, budget: max_steps, status }
    }

    /// Tests whether `p` is within tolerance of the goal.
    pub fn is_reached(&self, p: Point) -> (b: bool)
        requires
            self.goal.in_range(),
            p.in_range(),
        ensures
            b == reached(p, self.goal),
    {
        dist_sq_exec(p, self.goal) < 100
    }

    /// Takes the solution `next` of the step subproblem posed at the current
    /// position: the robot moves there, the position joins the path, and the
    /// run is done if `next` is within tolerance of the goal, exhausted if
    /// not and no step is left, and goes on otherwise.
    pub fn advance(&mut self, next: Point) -> (s: Status)
        requires
            old(self).wf(),
            old(self).status == Status::Planning,
            next.in_range(),
        ensures
            final(self).wf(),
            final(self).current == next,
            final(self).goal == old(self).goal,
            final(self).path@ == old(self).path@.push(next),
            final(self).max_steps == old(self).max_steps,
            final(self).budget == old(self).budget - 1,
            final(self).status == status_after(next, old(self).goal, old(self).budget - 1),
            s == final(self).status,
            next == old(self).goal ==> s == Status::Done,
    {
        proof {
            lemma_dist_sq_bounds(next, self.goal);
        }
        self.current = next;
        self.path.push(next);
        self.budget = self.budget - 1;
        self.status = if self.is_reached(next) {
            Status::Done
        } else if self.budget == 0 {
            Status::Exhausted
        } else {
            Status::Planning
        };
        self.status
    }

    /// Takes the news that the step subproblem posed at the current position
    /// could not be solved: the run ends as failed, and nothing else changes.
    pub fn fail(&mut self) -> (s: Status)
        requires
            old(self).wf(),
            old(self).status == Status::Planning,
        ensures
            final(self).wf(),
            final(self).current == old(self).current,
            final(self).goal == old(self).goal,
            final(self).path@ == old(self).path@,
            final(self).max_steps == old(self).max_steps,
            final(self).budget == old(self).budget,
            final(self).status == Status::Failed,
            s == Status::Failed,
    {
        self.status = Status::Failed;
        self.status
    }
}

/// A position equal to the goal is within tolerance of it: a run that is
/// handed the goal itself is done after that one step.
pub proof fn lemma_goal_is_reached(goal: Point)
    ensures
        reached(goal, goal),
        forall|budget: int| #[trigger] status_after(goal, goal, budget) == Status::Done,
{
    assert(dist_sq(goal, goal) == 0) by (nonlinear_arith)
        requires
            dist_sq(goal, goal) == (goal.x - goal.x) * (goal.x - goal.x) + (goal.y - goal.y) * (
            goal.y - goal.y),
    ;
}

/// A run never records more points than its step budget allows: the start
/// and one point for each step.
pub proof fn lemma_path_bounded(r: Replanner)
    requires
        r.wf(),
    ensures
        1 <= r.path@.len() <= r.max_steps + 1,
        r.status == Status::Exhausted ==> r.path@.len() == r.max_steps + 1,
{
}

} // verus!
