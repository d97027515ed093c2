//! Approach angles of lanes.
//!
//! Intersections lie on a 4×4 grid, numbered row by row. The approach angle
//! of a lane is the direction of travel from its start to its end, measured
//! from the direction of increasing row towards the direction of increasing
//! column. Angles are whole millidegrees in `0 .. 360_000`.

use crate::lanes::{Lane, GRID_SIDE};
use vstd::prelude::*;

verus! {

/// One full turn, in millidegrees.
pub const FULL_TURN: u32 = 360_000;

/// Row and column of intersection `inter`.
pub open spec fn grid_position(inter: u32) -> (u32, u32) {
    (((inter - 1) / GRID_SIDE as int) as u32, ((inter - 1) % GRID_SIDE as int) as u32)
}

/// Row and column of intersection `inter`, both counted from 0.
pub fn intersection_to_coords(inter: u32) -> (coords: (u32, u32))
    requires
        inter >= 1,
    ensures
        coords == grid_position(inter),
        coords.0 == (inter - 1) / 4,
        coords.1 == (inter - 1) % 4,
{
    let row: u32 = (inter - 1) / GRID_SIDE;
    let col: u32 = (inter - 1) % GRID_SIDE;
    (row, col)
}

/// The angle whose tangent is `minor / major`, to the nearest millidegree,
/// for the slopes that occur between grid points: `0 <= minor <= major <= 3`.
pub open spec fn slope_angle(minor: int, major: int) -> int {
    if minor == 0 {
        0
    } else if minor == major {
        45_000
    } else if minor == 1 && major == 2 {
        26_565
    } else if minor == 1 && major == 3 {
        18_435
    } else {
        33_690
    }
}

/// The angle of the direction `(rows, cols)` where neither is negative.
pub open spec fn quadrant_angle(rows: int, cols: int) -> int {
    if cols <= rows {
        slope_angle(cols, rows)
    } else {
        90_000 - slope_angle(rows, cols)
    }
}

/// The angle of the direction that advances by `rows` rows and `cols`
/// columns, in `0 .. 360_000`. The direction `(0, 0)` has the angle 0.
pub open spec fn direction_angle(rows: int, cols: int) -> int {
    if cols >= 0 {
        if rows >= 0 {
            quadrant_angle(rows, cols)
        } else {
            180_000 - quadrant_angle(-rows, cols)
        }
    } else {
        if rows >= 0 {
            360_000 - quadrant_angle(rows, -cols)
        } else {
            180_000 + quadrant_angle(-rows, -cols)
        }
    }
}

/// The angle given to a lane that enters the grid at an intersection in row
/// `row` and column `col`: traffic enters the top row at 90°, the bottom row
/// at 270°, the left column at 0° and the right column at 180°.
pub open spec fn entry_angle(row: u32, col: u32) -> int {
    if row == 0 {
        90_000
    } else if row == 3 {
        270_000
    } else if col == 0 {
        0
    } else if col == 3 {
        180_000
    } else {
        90_000
    }
}

/// The approach angle of a lane that ends at an intersection.
pub open spec fn lane_angle(lane: Lane) -> int {
    let end = grid_position(lane.end_intersection);
    if lane.start_intersection != 0 {
        let start = grid_position(lane.start_intersection);
        direction_angle(end.0 - start.0, end.1 - start.1)
    } else {
        entry_angle(end.0, end.1)
    }
}

/// Every direction between grid points has an angle below a full turn.
pub proof fn lemma_direction_angle_in_range(rows: int, cols: int)
    requires
        -3 <= rows <= 3,
        -3 <= cols <= 3,
    ensures
        0 <= direction_angle(rows, cols) < FULL_TURN,
{
}

/// Travelling the other way turns the angle by half a turn.
pub proof fn lemma_opposite_direction(rows: int, cols: int)
    requires
        -3 <= rows <= 3,
        -3 <= cols <= 3,
        rows != 0 || cols != 0,
    ensures
        direction_angle(-rows, -cols) == (direction_angle(rows, cols) + 180_000) % 360_000,
{
}

/// The exact angle for a slope between grid points.
fn slope_angle_of(minor: u32, major: u32) -> (angle: u32)
    requires
        minor <= major <= 3,
    ensures
        angle == slope_angle(minor as int, major as int),
        angle <= 45_000,
{
    if minor == 0 {
        0
    } else if minor == major {
        45_000
    } else if minor == 1 && major == 2 {
        26_565
    } else if minor == 1 && major == 3 {
        18_435
    } else {
        33_690
    }
}

/// The angle of a direction whose parts are not negative.
fn quadrant_angle_of(rows: u32, cols: u32) -> (angle: u32)
    requires
        rows <= 3,
        cols <= 3,
    ensures
        angle == quadrant_angle(rows as int, cols as int),
        angle <= 90_000,
        cols > 0 ==> angle > 0,
{
    if cols <= rows {
        slope_angle_of(cols, rows)
    } else {
        90_000 - slope_angle_of(rows, cols)
    }
}

/// Computes the approach angle of a lane that ends at an intersection, in
/// millidegrees.
pub fn compute_lane_angle(lane: &Lane) -> (angle: u32)
    requires
        lane.well_formed(),
        lane.controlled(),
    ensures
        angle == lane_angle(*lane),
        angle < FULL_TURN,
{
    let (end_row, end_col) = intersection_to_coords(lane.end_intersection);
    if lane.start_intersection != 0 {
        let (start_row, start_col) = intersection_to_coords(lane.start_intersection);
        let forward: bool = end_row >= start_row;
        let rightward: bool = end_col >= start_col;
        let rows: u32 = if forward {
            end_row - start_row
        } else {
            start_row - end_row
        };
        let cols: u32 = if rightward {
            end_col - start_col
        } else {
            start_col - end_col
        };
        let quadrant: u32 = quadrant_angle_of(rows, cols);
        if rightward {
            if forward {
                quadrant
            } else {
                180_000 - quadrant
            }
        } else {
            if forward {
                360_000 - quadrant
            } else {
                180_000 + quadrant
            }
        }
    } else {
        if end_row == 0 {
            90_000
        } else if end_row == 3 {
            270_000
        } else if end_col == 0 {
            0
        } else if end_col == 3 {
            180_000
        } else {
            90_000
        }
    }
}

} // verus!
