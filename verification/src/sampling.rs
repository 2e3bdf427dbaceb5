//! Sampling of the obstacle interiors on a regular grid.

use crate::fixed::{Point, COORD_MAX};
use crate::obstacle::{aggregate, aggregate_penetration, field_wf, Obstacle, Wave};
use vstd::prelude::*;

verus! {

/// Number of grid lines from `x` to `x_end`, `res` apart.
pub open spec fn columns(x: int, x_end: int, res: int) -> nat
    decreases x_end + res - x,
{
    if x > x_end || res <= 0 {
        0
    } else {
        1 + columns(x + res, x_end, res)
    }
}

/// The number of grid lines in closed form.
pub proof fn lemma_columns_closed_form(x: int, x_end: int, res: int)
    requires
        res > 0,
    ensures
        columns(x, x_end, res) == if x > x_end {
            0
        } else {
            (x_end - x) / res + 1
        },
    decreases x_end + res - x,
{
    if x <= x_end {
        lemma_columns_closed_form(x + res, x_end, res);
        if x + res > x_end {
            vstd::arithmetic::div_mod::lemma_basic_div(x_end - x, res);
        } else {
            vstd::arithmetic::div_mod::lemma_div_plus_one(x_end - x - res, res);
            vstd::arithmetic::div_mod::lemma_div_pos_is_pos(x_end - x - res, res);
        }
    }
}

/// Number of grid lines from `x` to `x_end`, `res` apart.
pub fn column_count(x: i64, x_end: i64, res: i64) -> (n: usize)
    requires
        -COORD_MAX <= x,
        x_end <= COORD_MAX,
        res > 0,
    ensures
        n == columns(x as int, x_end as int, res as int),
{
    proof {
        lemma_columns_closed_form(x as int, x_end as int, res as int);
    }
    if x > x_end {
        0
    } else {
        let span: u64 = (x_end - x) as u64;
        let q: u64 = span / (res as u64);
        assert(q <= span) by (nonlinear_arith)
            requires
                q == span as int / res as int,
                span >= 0,
                res >= 1,
        ;
        (q + 1) as usize
    }
}

/// The grid points of the column at `x`, from `y` upwards to `y_end`, at
/// which the aggregate penetration is positive, in ascending order.
pub open spec fn column_points(
    obs: Seq<Obstacle>,
    x: int,
    y: int,
    y_end: int,
    res: int,
    waves: Seq<Wave>,
) -> Seq<Point>
    decreases y_end + res - y,
{
    if y > y_end || res <= 0 {
        Seq::empty()
    } else {
        let p = Point { x: x as i64, y: y as i64 };
        let rest = column_points(obs, x, y + res, y_end, res, waves);
        if aggregate(obs, p, waves) > 0 {
            seq![p] + rest
        } else {
            rest
        }
    }
}

/// The grid points inside some obstacle, column after column from `x` to
/// `x_end`; the column at `x` is evaluated with the waves `waves[k]`, the
/// next one with `waves[k + 1]`, and so on.
pub open spec fn grid_points(
    obs: Seq<Obstacle>,
    x: int,
    x_end: int,
    y: int,
    y_end: int,
    res: int,
    waves: Seq<Vec<Wave>>,
    k: int,
) -> Seq<Point>
    decreases x_end + res - x,
{
    if x > x_end || res <= 0 || !(0 <= k < waves.len()) {
        Seq::empty()
    } else {
        column_points(obs, x, y, y_end, res, waves[k]@) + grid_points(
            obs,
            x + res,
            x_end,
            y,
            y_end,
            res,
            waves,
            k + 1,
        )
    }
}

/// The points of the grid `search_area = ((x_min, x_max), (y_min, y_max), resolution)`
/// that lie inside some obstacle, column by column. `waves[k]` holds, for the
/// `k`-th column, the wave heights of every obstacle at that column.
pub fn get_points_obstacle(
    obstacle_info: &Vec<Obstacle>,
    search_area: ((i64, i64), (i64, i64), i64),
    waves: &Vec<Vec<Wave>>,
) -> (points: Vec<Point>)
    requires
        -COORD_MAX <= (search_area.0).0,
        (search_area.0).1 <= COORD_MAX,
        -COORD_MAX <= (search_area.1).0,
        (search_area.1).1 <= COORD_MAX,
        search_area.2 > 0,
        waves@.len() == columns((search_area.0).0 as int, (search_area.0).1 as int, search_area.2 as int),
        forall|k: int| 0 <= k < waves@.len() ==> field_wf(obstacle_info@, (#[trigger] waves@[k])@),
    ensures
        points@ == grid_points(
            obstacle_info@,
            (search_area.0).0 as int,
            (search_area.0).1 as int,
            (search_area.1).0 as int,
            (search_area.1).1 as int,
            search_area.2 as int,
            waves@,
            0,
        ),
{
    let x_range = search_area.0;
    let y_range = search_area.1;
    let resolution: i128 = search_area.2 as i128;
    let ghost total = grid_points(
        obstacle_info@,
        x_range.0 as int,
        x_range.1 as int,
        y_range.0 as int,
        y_range.1 as int,
        resolution as int,
        waves@,
        0,
    );
    let mut points: Vec<Point> = Vec::new();
    let mut x: i128 = x_range.0 as i128;
    let mut k: usize = 0;
    let n: usize = waves.len();
    assert(points@ + total =~= total);
    while x <= x_range.1 as i128
        invariant
            -COORD_MAX <= x_range.0 <= x,
            x_range.1 <= COORD_MAX,
            -COORD_MAX <= y_range.0,
            y_range.1 <= COORD_MAX,
            0 < resolution <= i64::MAX,
            n == waves@.len(),
            k + columns(x as int, x_range.1 as int, resolution as int) == waves@.len(),
            forall|k: int|
                0 <= k < waves@.len() ==> field_wf(obstacle_info@, (#[trigger] waves@[k])@),
            points@ + grid_points(
                obstacle_info@,
                x as int,
                x_range.1 as int,
                y_range.0 as int,
                y_range.1 as int,
                resolution as int,
                waves@,
                k as int,
            ) == total,
        decreases x_range.1 + resolution - x,
    {
        assert(columns(x as int, x_range.1 as int, resolution as int) == 1 + columns(
            x + resolution,
            x_range.1 as int,
            resolution as int,
        ));
        let w = &waves[k];
        let ghost before = points@;
        let ghost column = column_points(
            obstacle_info@,
            x as int,
            y_range.0 as int,
            y_range.1 as int,
            resolution as int,
            w@,
        );
        let mut y: i128 = y_range.0 as i128;
        assert(points@ + column =~= before + column);
        while y <= y_range.1 as i128
            invariant
                -COORD_MAX <= x <= x_range.1 <= COORD_MAX,
                -COORD_MAX <= y_range.0 <= y,
                y_range.1 <= COORD_MAX,
                0 < resolution <= i64::MAX,
                field_wf(obstacle_info@, w@),
                k < n == waves@.len(),
                w@ == waves@[k as int]@,
                k + 1 + columns(x + resolution, x_range.1 as int, resolution as int)
                    == waves@.len(),
                forall|k: int|
                    0 <= k < waves@.len() ==> field_wf(obstacle_info@, (#[trigger] waves@[k])@),
                before + grid_points(
                    obstacle_info@,
                    x as int,
                    x_range.1 as int,
                    y_range.0 as int,
                    y_range.1 as int,
                    resolution as int,
                    waves@,
                    k as int,
                ) == total,
                column == column_points(
                    obstacle_info@,
                    x as int,
                    y_range.0 as int,
                    y_range.1 as int,
                    resolution as int,
                    w@,
                ),
                points@ + column_points(
                    obstacle_info@,
                    x as int,
                    y as int,
                    y_range.1 as int,
                    resolution as int,
                    w@,
                ) == before + column,
            decreases y_range.1 + resolution - y,
        {
            let p = Point { x: x as i64, y: y as i64 };
            let h = aggregate_penetration(obstacle_info, p, w);
            let ghost rest = column_points(
                obstacle_info@,
                x as int,
                y + resolution,
                y_range.1 as int,
                resolution as int,
                w@,
            );
            if h > 0 {
                assert(points@.push(p) + rest =~= points@ + (seq![p] + rest));
                points.push(p);
            }
            y = y + resolution;
        }
        assert(points@ =~= before + column);
        assert((before + column) + grid_points(
            obstacle_info@,
            x + resolution,
            x_range.1 as int,
            y_range.0 as int,
            y_range.1 as int,
            resolution as int,
            waves@,
            k + 1,
        ) =~= before + (column + grid_points(
            obstacle_info@,
            x + resolution,
            x_range.1 as int,
            y_range.0 as int,
            y_range.1 as int,
            resolution as int,
            waves@,
            k + 1,
        )));
        x = x + resolution;
        k = k + 1;
    }
    assert(points@ + Seq::<Point>::empty() =~= points@);
    points
}

} // verus!
