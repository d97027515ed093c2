//! How many vehicles are on each lane.
//!
//! A count never falls below zero: a vehicle that leaves a lane on which
//! none is counted changes nothing and is told so.

use crate::events::TrafficUpdate;
use crate::lanes::{load_lanes, standard_table, Lane};
use std::collections::HashMap;
use vstd::prelude::*;
use vstd::std_specs::hash::*;

verus! {

broadcast use group_hash_axioms;

/// The number of vehicles counted on lane `id`; none where the lane has no
/// entry.
pub open spec fn count_on(occupancy: Map<u32, u32>, id: u32) -> nat {
    if occupancy.contains_key(id) {
        occupancy[id] as nat
    } else {
        0
    }
}

/// Why a count was left as it was.
#[derive(Debug, Clone, Copy, PartialEq, Eq, Structural)]
pub enum OccupancyError {
    /// The count cannot grow: it is the largest that is held.
    Full,
    /// The count cannot shrink: no vehicle is counted on the lane.
    Empty,
}

/// `id` is the identifier of a lane of `lanes`.
pub open spec fn listed_id(lanes: Seq<Lane>, id: u32) -> bool {
    exists|i: int| 0 <= i < lanes.len() && (#[trigger] lanes[i]).id == id
}

/// One entry for every lane, and no vehicle counted on any.
pub open spec fn all_empty(lanes: Seq<Lane>, occupancy: Map<u32, u32>) -> bool {
    &&& forall|id: u32| #[trigger] occupancy.contains_key(id) <==> listed_id(lanes, id)
    &&& forall|id: u32| #[trigger] occupancy.contains_key(id) ==> occupancy[id] == 0
}

/// The counts of `lanes` at start-up: every lane has an entry, and no
/// vehicle is counted.
pub fn occupancy_for(lanes: &Vec<Lane>) -> (occupancy: HashMap<u32, u32>)
    ensures
        all_empty(lanes@, occupancy@),
{
    let mut occupancy: HashMap<u32, u32> = HashMap::new();
    let mut i: usize = 0;
    while i < lanes.len()
        invariant
            i <= lanes.len(),
            all_empty(lanes@.take(i as int), occupancy@),
        decreases lanes.len() - i,
    {
        let lane: Lane = lanes[i];
        let ghost seen = lanes@.take(i as int);
        let ghost more = lanes@.take(i + 1);
        occupancy.insert(lane.id, 0);
        proof {
            assert(more[i as int] == lane);
            assert forall|id: u32| #[trigger] occupancy@.contains_key(id) <==> listed_id(
                more,
                id,
            ) by {
                if listed_id(seen, id) {
                    let k = choose|k: int| 0 <= k < seen.len() && (#[trigger] seen[k]).id == id;
                    assert(more[k] == seen[k]);
                }
                if listed_id(more, id) {
                    let k = choose|k: int| 0 <= k < more.len() && (#[trigger] more[k]).id == id;
                    if k < i {
                        assert(seen[k] == more[k]);
                    }
                }
            }
        }
        i += 1;
    }
    assert(lanes@.take(i as int) =~= lanes@);
    occupancy
}

/// The counts of the street grid at start-up: every lane of the lane table
/// has an entry, and no vehicle is counted.
pub fn initialize_simdata() -> (occupancy: HashMap<u32, u32>)
    ensures
        all_empty(standard_table(), occupancy@),
{
    let lanes: Vec<Lane> = load_lanes();
    occupancy_for(&lanes)
}

/// The number of vehicles counted on the lane.
pub fn vehicles_on(occupancy: &HashMap<u32, u32>, lane_id: u32) -> (count: u32)
    ensures
        count == count_on(occupancy@, lane_id),
{
    match occupancy.get(&lane_id) {
        Some(count) => *count,
        None => 0,
    }
}

/// What entering lane `id` at time `now` does to the counts: one more
/// vehicle on the lane and an update with the new count, or, where the
/// count is full, nothing.
pub open spec fn entered(
    before: Map<u32, u32>,
    after: Map<u32, u32>,
    id: u32,
    now: u64,
    outcome: Result<TrafficUpdate, OccupancyError>,
) -> bool {
    if count_on(before, id) < u32::MAX {
        &&& after == before.insert(id, (count_on(before, id) + 1) as u32)
        &&& outcome == Ok::<TrafficUpdate, OccupancyError>(
            TrafficUpdate {
                lane_id: id,
                vehicle_count: (count_on(before, id) + 1) as u32,
                timestamp: now,
            },
        )
    } else {
        after == before && outcome == Err::<TrafficUpdate, OccupancyError>(OccupancyError::Full)
    }
}

/// What leaving lane `id` at time `now` does to the counts: one vehicle
/// fewer on the lane and an update with the new count, or, where no vehicle
/// is counted, nothing.
pub open spec fn left(
    before: Map<u32, u32>,
    after: Map<u32, u32>,
    id: u32,
    now: u64,
    outcome: Result<TrafficUpdate, OccupancyError>,
) -> bool {
    if count_on(before, id) > 0 {
        &&& after == before.insert(id, (count_on(before, id) - 1) as u32)
        &&& outcome == Ok::<TrafficUpdate, OccupancyError>(
            TrafficUpdate {
                lane_id: id,
                vehicle_count: (count_on(before, id) - 1) as u32,
                timestamp: now,
            },
        )
    } else {
        after == before && outcome == Err::<TrafficUpdate, OccupancyError>(OccupancyError::Empty)
    }
}

/// Counts a vehicle onto a lane and reports the new count.
pub fn enter_lane(occupancy: &mut HashMap<u32, u32>, lane_id: u32, now: u64) -> (outcome: Result<
    TrafficUpdate,
    OccupancyError,
>)
    ensures
        entered(old(occupancy)@, final(occupancy)@, lane_id, now, outcome),
{
    let count: u32 = vehicles_on(occupancy, lane_id);
    if count == u32::MAX {
        return Err(OccupancyError::Full);
    }
    occupancy.insert(lane_id, count + 1);
    Ok(TrafficUpdate { lane_id, vehicle_count: count + 1, timestamp: now })
}

/// Counts a vehicle off a lane and reports the new count.
pub fn leave_lane(occupancy: &mut HashMap<u32, u32>, lane_id: u32, now: u64) -> (outcome: Result<
    TrafficUpdate,
    OccupancyError,
>)
    ensures
        left(old(occupancy)@, final(occupancy)@, lane_id, now, outcome),
{
    let count: u32 = vehicles_on(occupancy, lane_id);
    if count == 0 {
        return Err(OccupancyError::Empty);
    }
    occupancy.insert(lane_id, count - 1);
    Ok(TrafficUpdate { lane_id, vehicle_count: count - 1, timestamp: now })
}

} // verus!
