use nonlinear_obstacles::fixed::Point;
use nonlinear_obstacles::replan::{Replanner, Status, GOAL_TOLERANCE};

#[test]
fn run_starts_planning_with_start_on_path() {
    let r = Replanner::start(Point::new(0, 0), Point::new(30_000_000, 30_000_000), 1_000);
    assert_eq!(r.status, Status::Planning);
    assert_eq!(r.path, vec![Point::new(0, 0)]);
    assert_eq!(r.current, Point::new(0, 0));
    assert_eq!(r.budget, 1_000);
}

#[test]
fn run_without_budget_is_exhausted() {
    let r = Replanner::start(Point::new(0, 0), Point::new(5, 5), 0);
    assert_eq!(r.status, Status::Exhausted);
    assert_eq!(r.path.len(), 1);
}

#[test]
fn reaching_goal_exactly_is_done_in_one_step() {
    let goal = Point::new(30_000_000, 30_000_000);
    let mut r = Replanner::start(goal, goal, 50);
    assert_eq!(r.status, Status::Planning);
    assert_eq!(r.advance(goal), Status::Done);
    assert_eq!(r.status, Status::Done);
    assert_eq!(r.path, vec![goal, goal]);
    assert_eq!(r.budget, 49);
}

#[test]
fn tolerance_is_strict() {
    assert_eq!(GOAL_TOLERANCE, 10);
    let goal = Point::new(100, 100);
    let r = Replanner::start(Point::new(0, 0), goal, 5);
    assert!(r.is_reached(Point::new(100, 100)));
    assert!(r.is_reached(Point::new(109, 100)));
    assert!(r.is_reached(Point::new(107, 107)));
    assert!(!r.is_reached(Point::new(110, 100)));
    assert!(!r.is_reached(Point::new(106, 108)));
    assert!(!r.is_reached(Point::new(108, 108)));
}

#[test]
fn path_records_every_step_in_order() {
    let goal = Point::new(300, 0);
    let mut r = Replanner::start(Point::new(0, 0), goal, 10);
    assert_eq!(r.advance(Point::new(100, 0)), Status::Planning);
    assert_eq!(r.advance(Point::new(200, 0)), Status::Planning);
    assert_eq!(r.advance(Point::new(295, 0)), Status::Done);
    assert_eq!(
        r.path,
        vec![Point::new(0, 0), Point::new(100, 0), Point::new(200, 0), Point::new(295, 0)]
    );
    assert_eq!(r.current, Point::new(295, 0));
    assert_eq!(r.budget, 7);
    assert_eq!(r.max_steps, 10);
}

#[test]
fn budget_bounds_the_path() {
    let goal = Point::new(1_000_000, 0);
    let mut r = Replanner::start(Point::new(0, 0), goal, 3);
    assert_eq!(r.advance(Point::new(1, 0)), Status::Planning);
    assert_eq!(r.advance(Point::new(2, 0)), Status::Planning);
    assert_eq!(r.advance(Point::new(3, 0)), Status::Exhausted);
    assert_eq!(r.path.len(), 4);
    assert_eq!(r.budget, 0);
}

#[test]
fn last_allowed_step_may_still_reach_goal() {
    let goal = Point::new(10, 0);
    let mut r = Replanner::start(Point::new(0, 0), goal, 1);
    assert_eq!(r.advance(Point::new(9, 0)), Status::Done);
    assert_eq!(r.budget, 0);
}

#[test]
fn solver_failure_ends_the_run() {
    let goal = Point::new(1_000_000, 0);
    let mut r = Replanner::start(Point::new(0, 0), goal, 10);
    assert_eq!(r.advance(Point::new(100_000, 0)), Status::Planning);
    assert_eq!(r.fail(), Status::Failed);
    assert_eq!(r.status, Status::Failed);
    assert_eq!(r.path, vec![Point::new(0, 0), Point::new(100_000, 0)]);
    assert_eq!(r.budget, 9);
}
