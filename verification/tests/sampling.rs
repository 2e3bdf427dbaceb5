use nonlinear_obstacles::fixed::Point;
use nonlinear_obstacles::obstacle::{Obstacle, Wave};
use nonlinear_obstacles::sampling::{column_count, get_points_obstacle};

#[test]
fn column_count_matches_grid_walk() {
    assert_eq!(column_count(-3, 3, 1), 7);
    assert_eq!(column_count(-3, 3, 2), 4);
    assert_eq!(column_count(-3, 3, 7), 1);
    assert_eq!(column_count(0, 0, 5), 1);
    assert_eq!(column_count(1, 0, 5), 0);
    assert_eq!(column_count(-10_000_000, 40_000_000, 50_000), 1_001);
    assert_eq!(column_count(-64_000_000, 64_000_000, 1), 128_000_001);
}

#[test]
fn sampling_collects_interior_points_column_by_column() {
    let obs = vec![Obstacle::Ellipse { cx: 0, cy: 0, rx: 2, ry: 2 }];
    let waves = vec![vec![Wave { lower: 0, upper: 0 }]; 7];
    let pts = get_points_obstacle(&obs, ((-3, 3), (-3, 3), 1), &waves);
    let expected: Vec<Point> = [
        (-1, -1), (-1, 0), (-1, 1), (0, -1), (0, 0), (0, 1), (1, -1), (1, 0), (1, 1),
    ]
    .iter()
    .map(|&(x, y)| Point::new(x, y))
    .collect();
    assert_eq!(pts, expected);
}

#[test]
fn sampling_respects_resolution_per_axis() {
    let obs = vec![Obstacle::Ellipse { cx: 0, cy: 0, rx: 2, ry: 2 }];
    let waves = vec![vec![Wave { lower: 0, upper: 0 }]; 4];
    let pts = get_points_obstacle(&obs, ((-3, 3), (-3, 3), 2), &waves);
    let expected: Vec<Point> =
        [(-1, -1), (-1, 1), (1, -1), (1, 1)].iter().map(|&(x, y)| Point::new(x, y)).collect();
    assert_eq!(pts, expected);
}

#[test]
fn sampling_of_empty_field_or_empty_range_is_empty() {
    let none: Vec<Obstacle> = Vec::new();
    let waves: Vec<Vec<Wave>> = vec![Vec::new(); 3];
    assert!(get_points_obstacle(&none, ((0, 2), (0, 2), 1), &waves).is_empty());
    let obs = vec![Obstacle::Ellipse { cx: 0, cy: 0, rx: 2, ry: 2 }];
    let no_columns: Vec<Vec<Wave>> = Vec::new();
    assert!(get_points_obstacle(&obs, ((1, 0), (-3, 3), 1), &no_columns).is_empty());
    let one = vec![vec![Wave { lower: 0, upper: 0 }]];
    assert!(get_points_obstacle(&obs, ((0, 0), (1, 0), 1), &one).is_empty());
}

#[test]
fn sampling_uses_the_waves_of_each_column() {
    let obs = vec![Obstacle::NonlinearRegionB { cx: 0, cy: 0 }];
    // columns at x = 2_000_000 and x = 4_000_000; only the second one has an
    // open band at y = 0
    let waves = vec![
        vec![Wave { lower: 500_000, upper: 400_000 }],
        vec![Wave { lower: -1_818_595, upper: 2_524_413 }],
    ];
    let pts = get_points_obstacle(
        &obs,
        ((2_000_000, 4_000_000), (-3_000_000, 3_000_000), 2_000_000),
        &waves,
    );
    assert_eq!(pts, vec![Point::new(4_000_000, -1_000_000), Point::new(4_000_000, 1_000_000)]);
}
