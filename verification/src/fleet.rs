//! Spawning vehicles: the choice of speed, entry lane and exit lane, and the
//! fleet of a simulation run.

use crate::chance::{draw, seeded_generator};
use crate::events::LogEvent;
use crate::lanes::{table_valid, Lane, LaneCategory};
use crate::routing::planned;
use crate::vehicle::{plan_journey, Stage, Vehicle, MAX_SPEED, MIN_SPEED};
use vstd::prelude::*;
use vstd::string::StringExecFns;

verus! {

/// Number of vehicles of a simulation run.
pub const FLEET_SIZE: u32 = 30;

/// What is added to a vehicle's number to seed its random choices.
pub const SEED_BASE: u64 = 42;

/// The lanes of `lanes` that have the category `category`, in table order.
pub open spec fn of_category(lanes: Seq<Lane>, category: LaneCategory) -> Seq<Lane>
    decreases lanes.len(),
{
    if lanes.len() == 0 {
        Seq::empty()
    } else if lanes.last().category == category {
        of_category(lanes.drop_last(), category).push(lanes.last())
    } else {
        of_category(lanes.drop_last(), category)
    }
}

/// The lanes of `lanes` whose identifier is not `id`, in table order.
pub open spec fn other_than(lanes: Seq<Lane>, id: u32) -> Seq<Lane>
    decreases lanes.len(),
{
    if lanes.len() == 0 {
        Seq::empty()
    } else if lanes.last().id != id {
        other_than(lanes.drop_last(), id).push(lanes.last())
    } else {
        other_than(lanes.drop_last(), id)
    }
}

/// The lanes of a category are lanes of the table with that category.
pub proof fn lemma_of_category(lanes: Seq<Lane>, category: LaneCategory)
    ensures
        of_category(lanes, category).len() <= lanes.len(),
        forall|k: int|
            0 <= k < of_category(lanes, category).len() ==> lanes.contains(
                #[trigger] of_category(lanes, category)[k],
            ) && of_category(lanes, category)[k].category == category,
        forall|i: int|
            0 <= i < lanes.len() && (#[trigger] lanes[i]).category == category ==> of_category(
                lanes,
                category,
            ).contains(lanes[i]),
    decreases lanes.len(),
{
    if lanes.len() > 0 {
        let rest = lanes.drop_last();
        let inner = of_category(rest, category);
        let outer = of_category(lanes, category);
        lemma_of_category(rest, category);
        assert forall|k: int| 0 <= k < outer.len() implies lanes.contains(#[trigger] outer[k])
            && outer[k].category == category by {
            if k < inner.len() {
                assert(rest.contains(inner[k]));
                let i = choose|i: int| 0 <= i < rest.len() && rest[i] == inner[k];
                assert(lanes[i] == inner[k]);
            } else {
                assert(lanes[lanes.len() - 1] == outer[k]);
            }
        }
        assert forall|i: int|
            0 <= i < lanes.len() && (#[trigger] lanes[i]).category == category implies outer.contains(
            lanes[i],
        ) by {
            if i < rest.len() {
                assert(rest[i] == lanes[i]);
                assert(inner.contains(rest[i]));
                let k = choose|k: int| 0 <= k < inner.len() && inner[k] == rest[i];
                assert(outer[k] == lanes[i]);
            } else {
                assert(outer[outer.len() - 1] == lanes[i]);
            }
        }
    }
}

/// The lanes with another identifier are lanes of the list with another
/// identifier; where no lane of the list has the identifier, they are the
/// list.
pub proof fn lemma_other_than(lanes: Seq<Lane>, id: u32)
    ensures
        other_than(lanes, id).len() <= lanes.len(),
        forall|k: int|
            0 <= k < other_than(lanes, id).len() ==> lanes.contains(
                #[trigger] other_than(lanes, id)[k],
            ) && other_than(lanes, id)[k].id != id,
        (forall|i: int| 0 <= i < lanes.len() ==> (#[trigger] lanes[i]).id != id) ==> other_than(
            lanes,
            id,
        ) == lanes,
        other_than(lanes, id).len() == 0 ==> forall|i: int|
            0 <= i < lanes.len() ==> (#[trigger] lanes[i]).id == id,
    decreases lanes.len(),
{
    if lanes.len() > 0 {
        let rest = lanes.drop_last();
        let inner = other_than(rest, id);
        let outer = other_than(lanes, id);
        lemma_other_than(rest, id);
        assert forall|k: int| 0 <= k < outer.len() implies lanes.contains(#[trigger] outer[k])
            && outer[k].id != id by {
            if k < inner.len() {
                assert(rest.contains(inner[k]));
                let i = choose|i: int| 0 <= i < rest.len() && rest[i] == inner[k];
                assert(lanes[i] == inner[k]);
            } else {
                assert(lanes[lanes.len() - 1] == outer[k]);
            }
        }
        if forall|i: int| 0 <= i < lanes.len() ==> (#[trigger] lanes[i]).id != id {
            assert forall|i: int| 0 <= i < rest.len() implies (#[trigger] rest[i]).id != id by {
                assert(lanes[i].id != id);
            }
            assert(lanes[lanes.len() - 1].id != id);
            assert(outer =~= lanes);
        }
        if outer.len() == 0 {
            assert forall|i: int| 0 <= i < lanes.len() implies (#[trigger] lanes[i]).id == id by {
                if i < rest.len() {
                    assert(rest[i].id == id);
                }
            }
        }
    }
}

/// The lanes of `lanes` that have the category `category`, in table order.
pub fn lanes_of_category(lanes: &Vec<Lane>, category: LaneCategory) -> (found: Vec<Lane>)
    ensures
        found@ == of_category(lanes@, category),
{
    let mut found: Vec<Lane> = Vec::new();
    let mut i: usize = 0;
    while i < lanes.len()
        invariant
            i <= lanes.len(),
            found@ == of_category(lanes@.take(i as int), category),
        decreases lanes.len() - i,
    {
        let lane: Lane = lanes[i];
        proof {
            assert(lanes@.take(i + 1).drop_last() =~= lanes@.take(i as int));
            assert(lanes@.take(i + 1).last() == lane);
        }
        if lane.category == category {
            found.push(lane);
        }
        i += 1;
    }
    assert(lanes@.take(i as int) =~= lanes@);
    found
}

/// The lanes on which vehicles enter the grid.
pub fn entry_lanes(lanes: &Vec<Lane>) -> (found: Vec<Lane>)
    ensures
        found@ == of_category(lanes@, LaneCategory::InputBoundary),
{
    lanes_of_category(lanes, LaneCategory::InputBoundary)
}

/// The lanes on which vehicles leave the grid.
pub fn exit_lanes(lanes: &Vec<Lane>) -> (found: Vec<Lane>)
    ensures
        found@ == of_category(lanes@, LaneCategory::OutputBoundary),
{
    lanes_of_category(lanes, LaneCategory::OutputBoundary)
}

/// The exit lanes that a vehicle may take after it has entered on the lane
/// `input_id`: those with another identifier.
pub fn exit_candidates(exits: &Vec<Lane>, input_id: u32) -> (found: Vec<Lane>)
    ensures
        found@ == other_than(exits@, input_id),
{
    let mut found: Vec<Lane> = Vec::new();
    let mut i: usize = 0;
    while i < exits.len()
        invariant
            i <= exits.len(),
            found@ == other_than(exits@.take(i as int), input_id),
        decreases exits.len() - i,
    {
        let lane: Lane = exits[i];
        proof {
            assert(exits@.take(i + 1).drop_last() =~= exits@.take(i as int));
            assert(exits@.take(i + 1).last() == lane);
        }
        if lane.id != input_id {
            found.push(lane);
        }
        i += 1;
    }
    assert(exits@.take(i as int) =~= exits@);
    found
}

/// Draws an entry lane, and an exit lane with another identifier, each with
/// equal chance among those that can be taken.
///
/// There is no pair where there is no entry lane, or where every exit lane
/// has the identifier of the entry lane drawn.
pub fn pick_lanes(
    generator: &mut rand_chacha::ChaCha8Rng,
    entries: &Vec<Lane>,
    exits: &Vec<Lane>,
) -> (picked: Option<(Lane, Lane)>)
    ensures
        match picked {
            Some((input, exit)) => entries@.contains(input) && exits@.contains(exit) && exit.id
                != input.id,
            None => entries@.len() == 0 || exists|i: int|
                0 <= i < entries@.len() && other_than(exits@, (#[trigger] entries@[i]).id).len()
                    == 0,
        },
{
    if entries.len() == 0 {
        return None;
    }
    let at: usize = draw(generator, 0, (entries.len() - 1) as u64) as usize;
    let input: Lane = entries[at];
    let candidates: Vec<Lane> = exit_candidates(exits, input.id);
    if candidates.len() == 0 {
        return None;
    }
    let to: usize = draw(generator, 0, (candidates.len() - 1) as u64) as usize;
    let exit: Lane = candidates[to];
    proof {
        lemma_other_than(exits@, input.id);
        assert(exits@.contains(candidates@[to as int]));
    }
    Some((input, exit))
}

/// The seed of the random choices of vehicle `car_id`.
pub fn vehicle_seed(car_id: u32) -> (seed: u64)
    ensures
        seed == SEED_BASE + car_id,
{
    SEED_BASE + car_id as u64
}

/// The generator of the random choices of vehicle `car_id`: the one that
/// its seed fixes. The generator's state is not modelled, so nothing is
/// said of it here.
pub fn vehicle_generator(car_id: u32) -> rand_chacha::ChaCha8Rng {
    seeded_generator(vehicle_seed(car_id))
}

/// Spawns vehicle `car_id` on the table `lanes`: draws its speed between
/// the least and the greatest speed, its entry lane among the lanes that
/// enter the grid and its exit lane among those that leave it, and plans
/// its route.
///
/// There is a vehicle exactly where the table has a lane that enters the
/// grid and a lane that leaves it.
pub fn spawn_vehicle(car_id: u32, lanes: &Vec<Lane>, generator: &mut rand_chacha::ChaCha8Rng) -> (made:
    Option<Vehicle>)
    requires
        table_valid(lanes@),
    ensures
        made is Some <==> of_category(lanes@, LaneCategory::InputBoundary).len() > 0
            && of_category(lanes@, LaneCategory::OutputBoundary).len() > 0,
        made matches Some(v) ==> {
            &&& v.wf()
            &&& v.car_id == car_id
            &&& MIN_SPEED <= v.speed <= MAX_SPEED
            &&& lanes@.contains(v.input_lane)
            &&& v.input_lane.category == LaneCategory::InputBoundary
            &&& lanes@.contains(v.exit_lane)
            &&& v.exit_lane.category == LaneCategory::OutputBoundary
            &&& v.exit_lane.id != v.input_lane.id
            &&& v.stage == Stage::Start
            &&& v.wait_ms == 0
            &&& v.drive_ms == 0
            &&& journey_planned(lanes@, v)
        },
{
    let speed: u32 = draw(generator, MIN_SPEED as u64, MAX_SPEED as u64) as u32;
    let entries: Vec<Lane> = entry_lanes(lanes);
    let exits: Vec<Lane> = exit_lanes(lanes);
    proof {
        lemma_of_category(lanes@, LaneCategory::InputBoundary);
        lemma_of_category(lanes@, LaneCategory::OutputBoundary);
        assert forall|i: int| 0 <= i < entries@.len() implies other_than(
            exits@,
            (#[trigger] entries@[i]).id,
        ) == exits@ by {
            let input = entries@[i];
            assert(lanes@.contains(input));
            let a = choose|a: int| 0 <= a < lanes@.len() && lanes@[a] == input;
            assert forall|k: int| 0 <= k < exits@.len() implies (#[trigger] exits@[k]).id
                != input.id by {
                assert(lanes@.contains(exits@[k]));
                let b = choose|b: int| 0 <= b < lanes@.len() && lanes@[b] == exits@[k];
                if a < b {
                    assert(lanes@[a].id != lanes@[b].id);
                } else if b < a {
                    assert(lanes@[b].id != lanes@[a].id);
                }
            }
            lemma_other_than(exits@, input.id);
        }
    }
    match pick_lanes(generator, &entries, &exits) {
        Some((input, exit)) => Some(plan_journey(car_id, speed, input, exit, lanes)),
        None => None,
    }
}

/// The vehicle's route is a shortest one between its entry lane's end and
/// its exit lane's start, and empty where no route leads there.
pub open spec fn journey_planned(lanes: Seq<Lane>, v: Vehicle) -> bool {
    planned(
        lanes,
        v.input_lane.end_intersection,
        v.exit_lane.start_intersection,
        Some(v.route@),
    ) || (v.route@.len() == 0 && planned(
        lanes,
        v.input_lane.end_intersection,
        v.exit_lane.start_intersection,
        None,
    ))
}

/// Spawns the vehicles numbered 1 to `cars`, each with its own generator.
///
/// The fleet is empty where the table has no lane that enters the grid or
/// none that leaves it.
pub fn spawn_fleet(lanes: &Vec<Lane>, cars: u32) -> (fleet: Vec<Vehicle>)
    requires
        table_valid(lanes@),
    ensures
        fleet@.len() == (if of_category(lanes@, LaneCategory::InputBoundary).len() > 0
            && of_category(lanes@, LaneCategory::OutputBoundary).len() > 0 {
            cars as int
        } else {
            0
        }),
        forall|k: int|
            0 <= k < fleet@.len() ==> {
                let v = #[trigger] fleet@[k];
                &&& v.wf()
                &&& v.car_id == k + 1
                &&& MIN_SPEED <= v.speed <= MAX_SPEED
                &&& lanes@.contains(v.input_lane)
                &&& v.input_lane.category == LaneCategory::InputBoundary
                &&& lanes@.contains(v.exit_lane)
                &&& v.exit_lane.category == LaneCategory::OutputBoundary
                &&& v.exit_lane.id != v.input_lane.id
                &&& v.stage == Stage::Start
                &&& v.wait_ms == 0
                &&& v.drive_ms == 0
                &&& journey_planned(lanes@, v)
            },
{
    let ghost possible = of_category(lanes@, LaneCategory::InputBoundary).len() > 0 && of_category(
        lanes@,
        LaneCategory::OutputBoundary,
    ).len() > 0;
    let mut fleet: Vec<Vehicle> = Vec::new();
    let mut made: u32 = 0;
    while made < cars
        invariant
            made <= cars,
            table_valid(lanes@),
            possible == (of_category(lanes@, LaneCategory::InputBoundary).len() > 0 && of_category(
                lanes@,
                LaneCategory::OutputBoundary,
            ).len() > 0),
            fleet@.len() == (if possible {
                made as int
            } else {
                0
            }),
            forall|k: int|
                0 <= k < fleet@.len() ==> {
                    let v = #[trigger] fleet@[k];
                    &&& v.wf()
                    &&& v.car_id == k + 1
                    &&& MIN_SPEED <= v.speed <= MAX_SPEED
                    &&& lanes@.contains(v.input_lane)
                    &&& v.input_lane.category == LaneCategory::InputBoundary
                    &&& lanes@.contains(v.exit_lane)
                    &&& v.exit_lane.category == LaneCategory::OutputBoundary
                    &&& v.exit_lane.id != v.input_lane.id
                    &&& v.stage == Stage::Start
                    &&& v.wait_ms == 0
                    &&& v.drive_ms == 0
                    &&& journey_planned(lanes@, v)
                },
        decreases cars - made,
    {
        let car_id: u32 = made + 1;
        let mut generator: rand_chacha::ChaCha8Rng = vehicle_generator(car_id);
        match spawn_vehicle(car_id, lanes, &mut generator) {
            Some(vehicle) => {
                fleet.push(vehicle);
            },
            None => {},
        }
        made = car_id;
    }
    fleet
}

/// The log line that closes a simulation run.
pub fn simulation_complete(now: u64) -> (line: LogEvent)
    ensures
        line.source@ == "Simulation"@,
        line.message@ == "Simulation complete"@,
        line.timestamp == now,
{
    LogEvent {
        source: String::from_str("Simulation"),
        message: String::from_str("Simulation complete"),
        timestamp: now,
    }
}

} // verus!
