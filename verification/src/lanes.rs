//! Lanes of the street grid and the table that lists them.
//!
//! A lane is a directed segment between two intersections. Intersections are
//! numbered 1 to 16, row by row; 0 stands for "outside the grid".

use vstd::prelude::*;

verus! {

/// Number of intersections per row and per column.
pub const GRID_SIDE: u32 = 4;

/// Number of intersections of the grid.
pub const INTERSECTION_COUNT: u32 = 16;

/// Where a lane lies with respect to the grid boundary.
#[derive(Debug, Clone, Copy, PartialEq, Eq, Structural)]
pub enum LaneCategory {
    /// Comes from outside and ends at an intersection.
    InputBoundary,
    /// Starts at an intersection and leaves the grid.
    OutputBoundary,
    /// Connects two intersections.
    Internal,
}

/// A directed lane. `length` is in whole metres.
#[derive(Debug, Clone, Copy, PartialEq, Eq, Structural)]
pub struct Lane {
    pub id: u32,
    pub start_intersection: u32,
    pub end_intersection: u32,
    pub length: u32,
    pub category: LaneCategory,
}

/// `id` names an intersection of the grid.
pub open spec fn is_intersection(id: u32) -> bool {
    1 <= id <= INTERSECTION_COUNT
}

impl Lane {
    /// The lane has a positive length and endpoints that fit its category:
    /// the outside end of a boundary lane is 0, every other end is an
    /// intersection of the grid.
    pub open spec fn well_formed(self) -> bool {
        &&& self.length > 0
        &&& match self.category {
            LaneCategory::InputBoundary => self.start_intersection == 0 && is_intersection(
                self.end_intersection,
            ),
            LaneCategory::OutputBoundary => is_intersection(self.start_intersection)
                && self.end_intersection == 0,
            LaneCategory::Internal => is_intersection(self.start_intersection) && is_intersection(
                self.end_intersection,
            ),
        }
    }

    /// Whether the lane is well formed.
    pub fn is_well_formed(&self) -> (ok: bool)
        ensures
            ok == self.well_formed(),
    {
        let start_in: bool = 1 <= self.start_intersection && self.start_intersection
            <= INTERSECTION_COUNT;
        let end_in: bool = 1 <= self.end_intersection && self.end_intersection
            <= INTERSECTION_COUNT;
        let ends_fit: bool = match self.category {
            LaneCategory::InputBoundary => self.start_intersection == 0 && end_in,
            LaneCategory::OutputBoundary => start_in && self.end_intersection == 0,
            LaneCategory::Internal => start_in && end_in,
        };
        self.length > 0 && ends_fit
    }

    /// A lane has a signal exactly when it ends at an intersection.
    pub open spec fn controlled(self) -> bool {
        self.end_intersection != 0
    }

    /// Whether the lane has a signal.
    pub fn is_controlled(&self) -> (b: bool)
        ensures
            b == self.controlled(),
    {
        self.end_intersection != 0
    }
}

/// A lane that leaves the grid at intersection `from`.
pub open spec fn spec_outbound(id: u32, from: u32, length: u32) -> Lane {
    Lane {
        id,
        start_intersection: from,
        end_intersection: 0,
        length,
        category: LaneCategory::OutputBoundary,
    }
}

/// A lane that leaves the grid at intersection `from`.
#[verifier::when_used_as_spec(spec_outbound)]
pub fn outbound(id: u32, from: u32, length: u32) -> (lane: Lane)
    ensures
        lane == spec_outbound(id, from, length),
{
    Lane {
        id,
        start_intersection: from,
        end_intersection: 0,
        length,
        category: LaneCategory::OutputBoundary,
    }
}

/// A lane that enters the grid at intersection `to`.
pub open spec fn spec_inbound(id: u32, to: u32, length: u32) -> Lane {
    Lane {
        id,
        start_intersection: 0,
        end_intersection: to,
        length,
        category: LaneCategory::InputBoundary,
    }
}

/// A lane that enters the grid at intersection `to`.
#[verifier::when_used_as_spec(spec_inbound)]
pub fn inbound(id: u32, to: u32, length: u32) -> (lane: Lane)
    ensures
        lane == spec_inbound(id, to, length),
{
    Lane {
        id,
        start_intersection: 0,
        end_intersection: to,
        length,
        category: LaneCategory::InputBoundary,
    }
}

/// A lane between the intersections `from` and `to`.
pub open spec fn spec_internal(id: u32, from: u32, to: u32, length: u32) -> Lane {
    Lane {
        id,
        start_intersection: from,
        end_intersection: to,
        length,
        category: LaneCategory::Internal,
    }
}

/// A lane between the intersections `from` and `to`.
#[verifier::when_used_as_spec(spec_internal)]
pub fn internal(id: u32, from: u32, to: u32, length: u32) -> (lane: Lane)
    ensures
        lane == spec_internal(id, from, to, length),
{
    Lane {
        id,
        start_intersection: from,
        end_intersection: to,
        length,
        category: LaneCategory::Internal,
    }
}

/// Every lane of the table is well formed and no identifier occurs twice.
pub open spec fn table_valid(lanes: Seq<Lane>) -> bool {
    &&& forall|i: int| 0 <= i < lanes.len() ==> (#[trigger] lanes[i]).well_formed()
    &&& forall|i: int, j: int|
        0 <= i < j < lanes.len() ==> (#[trigger] lanes[i]).id != (#[trigger] lanes[j]).id
}

/// `id` is the identifier of one of the first `n` lanes.
pub open spec fn id_among(lanes: Seq<Lane>, n: int, id: u32) -> bool {
    exists|k: int| 0 <= k < n && k < lanes.len() && (#[trigger] lanes[k]).id == id
}

/// Whether one of the first `n` lanes has the identifier `id`.
fn has_id_among(lanes: &Vec<Lane>, n: usize, id: u32) -> (found: bool)
    requires
        n <= lanes.len(),
    ensures
        found == id_among(lanes@, n as int, id),
{
    let mut k: usize = 0;
    while k < n
        invariant
            k <= n <= lanes.len(),
            !id_among(lanes@, k as int, id),
        decreases n - k,
    {
        if lanes[k].id == id {
            return true;
        }
        k += 1;
    }
    false
}

/// Checks a lane table: every lane well formed, every identifier used once.
pub fn check_table(lanes: &Vec<Lane>) -> (ok: bool)
    ensures
        ok == table_valid(lanes@),
{
    let mut i: usize = 0;
    while i < lanes.len()
        invariant
            i <= lanes.len(),
            table_valid(lanes@.take(i as int)),
        decreases lanes.len() - i,
    {
        let lane: Lane = lanes[i];
        if !lane.is_well_formed() {
            return false;
        }
        if has_id_among(lanes, i, lane.id) {
            return false;
        }
        proof {
            let before = lanes@.take(i as int);
            let after = lanes@.take(i + 1);
            assert forall|a: int, b: int| 0 <= a < b < after.len() implies (#[trigger] after[a]).id
                != (#[trigger] after[b]).id by {
                if b < i {
                    assert(before[a].id != before[b].id);
                }
            }
            assert forall|a: int| 0 <= a < after.len() implies (#[trigger] after[a]).well_formed() by {
                if a < i {
                    assert(before[a].well_formed());
                }
            }
        }
        i += 1;
    }
    assert(lanes@.take(i as int) == lanes@);
    true
}

/// The first `n` rows are well formed and row `i` has the identifier
/// `1000 + i`.
pub open spec fn numbered_rows(lanes: Seq<Lane>) -> bool {
    forall|i: int|
        0 <= i < lanes.len() ==> (#[trigger] lanes[i]).well_formed() && lanes[i].id == 1000 + i
}

/// Rows numbered from 1000 upward form a valid table.
pub proof fn lemma_numbered_rows_valid(lanes: Seq<Lane>)
    requires
        numbered_rows(lanes),
    ensures
        table_valid(lanes),
{
}

/// Appends one row to a table under construction.
fn push_row(lanes: &mut Vec<Lane>, lane: Lane)
    requires
        numbered_rows(old(lanes)@),
        lane.well_formed(),
        lane.id == 1000 + old(lanes)@.len(),
    ensures
        final(lanes)@ == old(lanes)@.push(lane),
        numbered_rows(final(lanes)@),
{
    lanes.push(lane);
}

/// The street grid's lane table: ten lanes that leave the grid, eight that
/// enter it and thirty-four between intersections, numbered from 1000.
pub open spec fn standard_table() -> Seq<Lane> {
    seq![
        outbound(1000, 1, 100),
        outbound(1001, 2, 300),
        outbound(1002, 3, 300),
        outbound(1003, 4, 200),
        outbound(1004, 5, 400),
        outbound(1005, 12, 400),
        outbound(1006, 13, 200),
        outbound(1007, 13, 200),
        outbound(1008, 15, 200),
        outbound(1009, 16, 400),
        inbound(1010, 1, 200),
        inbound(1011, 2, 300),
        inbound(1012, 4, 100),
        inbound(1013, 5, 400),
        inbound(1014, 12, 400),
        inbound(1015, 15, 200),
        inbound(1016, 16, 500),
        inbound(1017, 16, 400),
        internal(1018, 1, 2, 300),
        internal(1019, 2, 3, 500),
        internal(1020, 3, 4, 200),
        internal(1021, 4, 8, 300),
        internal(1022, 5, 1, 300),
        internal(1023, 5, 6, 500),
        internal(1024, 5, 9, 400),
        internal(1025, 6, 5, 500),
        internal(1026, 2, 6, 200),
        internal(1027, 6, 2, 200),
        internal(1028, 6, 7, 300),
        internal(1029, 7, 6, 300),
        internal(1030, 7, 3, 300),
        internal(1031, 7, 8, 300),
        internal(1032, 8, 7, 300),
        internal(1033, 8, 12, 200),
        internal(1034, 9, 10, 100),
        internal(1035, 9, 13, 400),
        internal(1036, 10, 9, 100),
        internal(1037, 10, 11, 150),
        internal(1038, 10, 14, 200),
        internal(1039, 11, 10, 150),
        internal(1040, 11, 7, 500),
        internal(1041, 11, 15, 400),
        internal(1042, 12, 8, 200),
        internal(1043, 12, 16, 200),
        internal(1044, 14, 13, 200),
        internal(1045, 14, 10, 200),
        internal(1046, 14, 15, 200),
        internal(1047, 15, 14, 200),
        internal(1048, 15, 11, 400),
        internal(1049, 15, 16, 500),
        internal(1050, 16, 12, 200),
        internal(1051, 16, 15, 500),
    ]
}

/// Builds the lane table of the street grid.
pub fn load_lanes() -> (lanes: Vec<Lane>)
    ensures
        lanes@ == standard_table(),
        lanes@.len() == 52,
        table_valid(lanes@),
        numbered_rows(lanes@),
{
    let mut lanes: Vec<Lane> = Vec::new();
    push_row(&mut lanes, outbound(1000, 1, 100));
    push_row(&mut lanes, outbound(1001, 2, 300));
    push_row(&mut lanes, outbound(1002, 3, 300));
    push_row(&mut lanes, outbound(1003, 4, 200));
    push_row(&mut lanes, outbound(1004, 5, 400));
    push_row(&mut lanes, outbound(1005, 12, 400));
    push_row(&mut lanes, outbound(1006, 13, 200));
    push_row(&mut lanes, outbound(1007, 13, 200));
    push_row(&mut lanes, outbound(1008, 15, 200));
    push_row(&mut lanes, outbound(1009, 16, 400));
    push_row(&mut lanes, inbound(1010, 1, 200));
    push_row(&mut lanes, inbound(1011, 2, 300));
    push_row(&mut lanes, inbound(1012, 4, 100));
    push_row(&mut lanes, inbound(1013, 5, 400));
    push_row(&mut lanes, inbound(1014, 12, 400));
    push_row(&mut lanes, inbound(1015, 15, 200));
    push_row(&mut lanes, inbound(1016, 16, 500));
    push_row(&mut lanes, inbound(1017, 16, 400));
    push_row(&mut lanes, internal(1018, 1, 2, 300));
    push_row(&mut lanes, internal(1019, 2, 3, 500));
    push_row(&mut lanes, internal(1020, 3, 4, 200));
    push_row(&mut lanes, internal(1021, 4, 8, 300));
    push_row(&mut lanes, internal(1022, 5, 1, 300));
    push_row(&mut lanes, internal(1023, 5, 6, 500));
    push_row(&mut lanes, internal(1024, 5, 9, 400));
    push_row(&mut lanes, internal(1025, 6, 5, 500));
    push_row(&mut lanes, internal(1026, 2, 6, 200));
    push_row(&mut lanes, internal(1027, 6, 2, 200));
    push_row(&mut lanes, internal(1028, 6, 7, 300));
    push_row(&mut lanes, internal(1029, 7, 6, 300));
    push_row(&mut lanes, internal(1030, 7, 3, 300));
    push_row(&mut lanes, internal(1031, 7, 8, 300));
    push_row(&mut lanes, internal(1032, 8, 7, 300));
    push_row(&mut lanes, internal(1033, 8, 12, 200));
    push_row(&mut lanes, internal(1034, 9, 10, 100));
    push_row(&mut lanes, internal(1035, 9, 13, 400));
    push_row(&mut lanes, internal(1036, 10, 9, 100));
    push_row(&mut lanes, internal(1037, 10, 11, 150));
    push_row(&mut lanes, internal(1038, 10, 14, 200));
    push_row(&mut lanes, internal(1039, 11, 10, 150));
    push_row(&mut lanes, internal(1040, 11, 7, 500));
    push_row(&mut lanes, internal(1041, 11, 15, 400));
    push_row(&mut lanes, internal(1042, 12, 8, 200));
    push_row(&mut lanes, internal(1043, 12, 16, 200));
    push_row(&mut lanes, internal(1044, 14, 13, 200));
    push_row(&mut lanes, internal(1045, 14, 10, 200));
    push_row(&mut lanes, internal(1046, 14, 15, 200));
    push_row(&mut lanes, internal(1047, 15, 14, 200));
    push_row(&mut lanes, internal(1048, 15, 11, 400));
    push_row(&mut lanes, internal(1049, 15, 16, 500));
    push_row(&mut lanes, internal(1050, 16, 12, 200));
    push_row(&mut lanes, internal(1051, 16, 15, 500));
    proof {
        lemma_numbered_rows_valid(lanes@);
    }
    lanes
}

} // verus!
