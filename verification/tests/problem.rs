use nonlinear_obstacles::fixed::Point;
use nonlinear_obstacles::obstacle::{Obstacle, Wave};
use nonlinear_obstacles::problem::{Matrix2, ProblemMaster};

fn flat(n: usize) -> Vec<Wave> {
    vec![Wave { lower: 0, upper: 0 }; n]
}

fn two_ellipses(x_now: Point) -> ProblemMaster {
    let obs = vec![
        Obstacle::Ellipse { cx: 3_000_000, cy: 4_000_000, rx: 1_500_000, ry: 2_000_000 },
        Obstacle::Ellipse { cx: 3_500_000, cy: 4_000_000, rx: 1_000_000, ry: 1_000_000 },
    ];
    ProblemMaster::init(x_now, Point::new(30_000_000, 30_000_000), obs, 100_000)
}

#[test]
fn init_keeps_its_arguments() {
    let pm = two_ellipses(Point::new(1, 2));
    assert_eq!(pm.x_now, Point::new(1, 2));
    assert_eq!(pm.x_ref, Point::new(30_000_000, 30_000_000));
    assert_eq!(pm.x_obs.len(), 2);
    assert_eq!(pm.u_max, 100_000);
    assert!(pm.is_valid());
}

#[test]
fn validity_is_tested() {
    let bad_step = ProblemMaster::init(Point::new(0, 0), Point::new(1, 1), Vec::new(), 0);
    assert!(!bad_step.is_valid());
    let bad_goal = ProblemMaster::init(Point::new(0, 0), Point::new(64_000_001, 1), Vec::new(), 5);
    assert!(!bad_goal.is_valid());
    let bad_obstacle = ProblemMaster::init(
        Point::new(0, 0),
        Point::new(1, 1),
        vec![Obstacle::Ellipse { cx: 0, cy: 0, rx: 0, ry: 1 }],
        5,
    );
    assert!(!bad_obstacle.is_valid());
    let pm = two_ellipses(Point::new(0, 0));
    assert!(pm.accepts(&flat(2)));
    assert!(!pm.accepts(&flat(1)));
    assert!(!pm.accepts(&vec![Wave { lower: 0, upper: 0 }, Wave { lower: 2_000_001, upper: 0 }]));
}

#[test]
fn objective_is_squared_distance_to_goal() {
    let pm = two_ellipses(Point::new(0, 0));
    assert_eq!(pm.f_call(Point::new(0, 0)), 1_800_000_000_000_000);
    assert_eq!(pm.f_call(Point::new(30_000_000, 30_000_000)), 0);
    assert_eq!(pm.f_call(Point::new(30_000_003, 29_999_996)), 25);
    let mut cost: i128 = -1;
    pm.f(Point::new(30_000_003, 29_999_996), &mut cost);
    assert_eq!(cost, 25);
}

#[test]
fn objective_gradient_is_forward_difference() {
    let pm = two_ellipses(Point::new(0, 0));
    let mut grad: Vec<i128> = vec![0, 0];
    pm.df(Point::new(0, 0), &mut grad);
    assert_eq!(grad, vec![-59_999_999, -59_999_999]);
    pm.df(Point::new(30_000_000, 30_000_000), &mut grad);
    assert_eq!(grad, vec![1, 1]);
    let u = Point::new(31_000_000, 29_000_000);
    pm.df(u, &mut grad);
    assert_eq!(grad[0], pm.f_call(Point::new(u.x + 1, u.y)) - pm.f_call(u));
    assert_eq!(grad[1], pm.f_call(Point::new(u.x, u.y + 1)) - pm.f_call(u));
    assert_eq!(grad, vec![2_000_001, -1_999_999]);
}

#[test]
fn step_constraint_is_zero_within_bound() {
    let pm = two_ellipses(Point::new(0, 0));
    let w = flat(2);
    for u in [
        Point::new(0, 0),
        Point::new(60_000, 80_000),
        Point::new(-60_000, -80_000),
        Point::new(100_000, 0),
        Point::new(0, -100_000),
        Point::new(70_710, 70_710),
    ] {
        assert_eq!(pm.f1_call(u, &w)[1], 0);
    }
}

#[test]
fn step_constraint_is_positive_beyond_bound() {
    let pm = two_ellipses(Point::new(0, 0));
    let w = flat(2);
    assert_eq!(pm.f1_call(Point::new(300_000, 400_000), &w)[1], 400_000_000_000);
    assert_eq!(pm.f1_call(Point::new(60_000, 80_001), &w)[1], 800_002);
    assert_eq!(pm.f1_call(Point::new(60_001, 80_000), &w)[1], 600_004);
    assert_eq!(pm.f1_call(Point::new(100_001, 0), &w)[1], 1_000_000);
    assert!(pm.f1_call(Point::new(70_711, 70_711), &w)[1] > 0);
}

#[test]
fn constraint_vector_holds_aggregate_then_step() {
    let pm = two_ellipses(Point::new(3_700_000, 4_000_000));
    let w = flat(2);
    assert_eq!(
        pm.f1_call(Point::new(3_750_000, 4_100_000), &w),
        vec![1_675_000_000_000, 11_803_398_875]
    );
    assert_eq!(
        pm.f1_call(Point::new(3_900_000, 4_000_000), &w),
        vec![1_480_000_000_000, 100_000_000_000]
    );
    let mut out: Vec<i128> = vec![7, 7, 7];
    pm.f1(Point::new(3_900_000, 4_000_000), &w, &mut out);
    assert_eq!(out, vec![1_480_000_000_000, 100_000_000_000, 7]);
}

#[test]
fn jacobian_is_forward_difference_of_constraints() {
    let pm = two_ellipses(Point::new(3_700_000, 4_000_000));
    let w = flat(2);
    let j = pm.jf1_call(Point::new(3_750_000, 4_100_000), &w, &w);
    assert_eq!(j, Matrix2 { m00: -1_166_668, m01: -250_001, m10: 447_218, m11: 894_429 });
    let j = pm.jf1_call(Point::new(3_900_000, 4_000_000), &w, &w);
    assert_eq!(j, Matrix2 { m00: -1_600_001, m01: -1, m10: 1_000_000, m11: 3 });
}

#[test]
fn jacobian_product_inside_an_obstacle() {
    let pm = two_ellipses(Point::new(3_700_000, 4_000_000));
    let w = flat(2);
    let mut res: Vec<i128> = vec![0, 0];
    pm.f1_jacobian_product(Point::new(3_750_000, 4_100_000), &[3, 5], &w, &w, &mut res);
    assert_eq!(res, vec![-1_263_914, 3_722_142]);
    pm.f1_jacobian_product(Point::new(3_900_000, 4_000_000), &[3, 5], &w, &w, &mut res);
    assert_eq!(res, vec![199_997, 12]);
}

#[test]
fn jacobian_product_ignores_penetration_row_outside() {
    let pm = two_ellipses(Point::new(0, 0));
    let w = flat(2);
    let u = Point::new(300_000, 400_000);
    assert_eq!(pm.f1_call(u, &w)[0], 0);
    let mut res: Vec<i128> = vec![0, 0];
    pm.f1_jacobian_product(u, &[3, 5], &w, &w, &mut res);
    assert_eq!(res, vec![3_000_005, 4_000_005]);
    for d0 in [-1_000_000_000_000i128, -7, 0, 1, 999_999_999_999] {
        let mut other: Vec<i128> = vec![1, 1];
        pm.f1_jacobian_product(u, &[d0, 5], &w, &w, &mut other);
        assert_eq!(other, res);
    }
    // on the boundary of the ellipse the next grid point is
    // inside, yet the row still counts as zero
    let edge = Point::new(1_500_000, 4_000_000);
    let near = ProblemMaster::init(
        edge,
        Point::new(30_000_000, 30_000_000),
        vec![Obstacle::Ellipse { cx: 3_000_000, cy: 4_000_000, rx: 1_500_000, ry: 2_000_000 }],
        100_000,
    );
    let w1 = flat(1);
    assert_eq!(near.f1_call(edge, &w1)[0], 0);
    assert!(near.jf1_call(edge, &w1, &w1).m00 > 0);
    near.f1_jacobian_product(edge, &[1_000, 0], &w1, &w1, &mut res);
    assert_eq!(res, vec![0, 0]);
}

#[test]
fn free_field_has_no_penetration() {
    let pm = ProblemMaster::init(
        Point::new(0, 0),
        Point::new(30_000_000, 30_000_000),
        Vec::new(),
        100_000,
    );
    let w: Vec<Wave> = Vec::new();
    let mut x: i64 = -60_000_000;
    while x <= 60_000_000 {
        assert_eq!(pm.f1_call(Point::new(x, x / 2), &w)[0], 0);
        x += 7_500_000;
    }
}
