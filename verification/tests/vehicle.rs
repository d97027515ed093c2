use std::collections::HashMap;
use traffic_grid::events::{LogEvent, TrafficUpdate};
use traffic_grid::fleet::{
    entry_lanes, exit_candidates, exit_lanes, simulation_complete, spawn_fleet, spawn_vehicle,
    vehicle_generator, vehicle_seed, FLEET_SIZE, SEED_BASE,
};
use traffic_grid::lanes::{inbound, internal, load_lanes, outbound, LaneCategory};
use traffic_grid::occupancy::{
    enter_lane, initialize_simdata, leave_lane, occupancy_for, vehicles_on, OccupancyError,
};
use traffic_grid::routing::find_lane_path;
use traffic_grid::signals::{initialize_traffic_lights, LightColor};
use traffic_grid::vehicle::{
    fault_log, plan_journey, travel_time, unrouted_log, CarMetrics, LaneEvent, Stage, Vehicle,
    MAX_SPEED, MIN_SPEED, POLL_MS,
};

fn all_green() -> HashMap<u32, LightColor> {
    let mut lights = initialize_traffic_lights();
    for color in lights.values_mut() {
        *color = LightColor::Green;
    }
    lights
}

#[test]
fn a_single_vehicle_on_an_empty_network_drives_three_seconds() {
    let mut vehicle =
        Vehicle::new(1, 100_000, inbound(1, 1, 200), outbound(2, 1, 100), Vec::new());
    let mut occupancy: HashMap<u32, u32> = HashMap::new();
    let lights: HashMap<u32, LightColor> = HashMap::new();
    let mut logs: Vec<LogEvent> = Vec::new();
    let mut updates: Vec<TrafficUpdate> = Vec::new();
    let mut slept: u64 = 0;
    let mut turns = 0;
    while !vehicle.is_done() {
        let turn = vehicle.step(&mut occupancy, &lights, 50);
        logs.extend(turn.log);
        updates.extend(turn.update);
        slept += turn.sleep_ms;
        turns += 1;
        assert!(turns < 10);
    }
    assert_eq!(slept, 3000);
    assert_eq!(
        vehicle.metrics(),
        CarMetrics { id: 1, wait_time: 0, drive_time: 3000, total_time: 3000 }
    );
    assert_eq!(logs.len(), 2);
    assert!(updates.is_empty());
    assert!(occupancy.is_empty());
    assert_eq!(logs[0].source, "Car-1");
    assert_eq!(
        logs[0].message,
        "Generated vehicle with speed 100.00 m/s; Entry Lane 1 (Inter. 1), Exit Lane 2 (Inter. 1); Lane Route: []"
    );
    assert_eq!(logs[1].source, "Car-1");
    assert_eq!(logs[1].message, "Completed journey: Wait=0.00s, Drive=3.00s, Total=3.00s");
    assert_eq!(logs[1].timestamp, 50);
}

#[test]
fn travel_time_is_length_over_speed() {
    assert_eq!(travel_time(200, 100_000), 2000);
    assert_eq!(travel_time(100, 70_000), 1428);
    assert_eq!(travel_time(500, 90_000), 5555);
    assert_eq!(travel_time(0, 70_000), 0);
    assert_eq!(travel_time(u32::MAX, 1), 4_294_967_295_000_000);
}

#[test]
fn a_vehicle_enters_waits_drives_and_leaves_each_lane() {
    let route = vec![internal(10, 1, 2, 300), internal(11, 2, 3, 500)];
    let mut vehicle = Vehicle::new(7, 80_000, inbound(1, 1, 200), outbound(2, 3, 100), route);
    let mut occupancy: HashMap<u32, u32> = HashMap::new();
    let mut lights: HashMap<u32, LightColor> = HashMap::new();
    lights.insert(10, LightColor::Red);
    lights.insert(11, LightColor::Green);

    let turn = vehicle.step(&mut occupancy, &lights, 1);
    assert_eq!(vehicle.stage, Stage::Enter(0));
    assert_eq!(turn.sleep_ms, 2500);
    assert!(turn.log.is_some());
    assert_eq!(turn.event, None);

    let turn = vehicle.step(&mut occupancy, &lights, 2);
    assert_eq!(vehicle.stage, Stage::Wait(0));
    assert_eq!(turn.event, Some(LaneEvent::Entered(10)));
    assert_eq!(
        turn.update,
        Some(TrafficUpdate { lane_id: 10, vehicle_count: 1, timestamp: 2 })
    );
    assert_eq!(turn.sleep_ms, 0);
    assert_eq!(vehicles_on(&occupancy, 10), 1);

    // The signal is red: the vehicle looks again every 100 ms.
    for _ in 0..3 {
        let turn = vehicle.step(&mut occupancy, &lights, 3);
        assert_eq!(vehicle.stage, Stage::Wait(0));
        assert_eq!(turn.sleep_ms, POLL_MS);
        assert_eq!(turn.update, None);
    }
    assert_eq!(vehicle.wait_ms, 300);

    lights.insert(10, LightColor::Green);
    let turn = vehicle.step(&mut occupancy, &lights, 4);
    assert_eq!(vehicle.stage, Stage::Leave(0));
    assert_eq!(turn.sleep_ms, 3750);

    let turn = vehicle.step(&mut occupancy, &lights, 5);
    assert_eq!(vehicle.stage, Stage::Enter(1));
    assert_eq!(turn.event, Some(LaneEvent::Left(10)));
    assert_eq!(
        turn.update,
        Some(TrafficUpdate { lane_id: 10, vehicle_count: 0, timestamp: 5 })
    );
    assert_eq!(vehicles_on(&occupancy, 10), 0);

    let turn = vehicle.step(&mut occupancy, &lights, 6);
    assert_eq!(turn.event, Some(LaneEvent::Entered(11)));
    let turn = vehicle.step(&mut occupancy, &lights, 7);
    assert_eq!(vehicle.stage, Stage::Leave(1));
    assert_eq!(turn.sleep_ms, 6250);
    let turn = vehicle.step(&mut occupancy, &lights, 8);
    assert_eq!(turn.event, Some(LaneEvent::Left(11)));
    assert_eq!(vehicle.stage, Stage::Exit);
    let turn = vehicle.step(&mut occupancy, &lights, 9);
    assert_eq!(turn.sleep_ms, 1250);
    assert_eq!(vehicle.stage, Stage::Finish);
    let turn = vehicle.step(&mut occupancy, &lights, 10);
    assert_eq!(vehicle.stage, Stage::Done);
    let line = turn.log.expect("the report");
    assert_eq!(line.message, "Completed journey: Wait=0.30s, Drive=13.75s, Total=14.05s");
    assert_eq!(
        vehicle.metrics(),
        CarMetrics { id: 7, wait_time: 300, drive_time: 13_750, total_time: 14_050 }
    );

    // A finished vehicle does nothing more.
    let turn = vehicle.step(&mut occupancy, &lights, 11);
    assert_eq!(vehicle.stage, Stage::Done);
    assert_eq!(turn.sleep_ms, 0);
    assert!(turn.log.is_none() && turn.update.is_none() && turn.event.is_none());
}

#[test]
fn a_vehicle_waits_at_a_lane_without_a_signal() {
    let route = vec![internal(10, 1, 2, 300)];
    let mut vehicle = Vehicle::new(7, 80_000, inbound(1, 1, 200), outbound(2, 2, 100), route);
    let mut occupancy = HashMap::new();
    let lights = HashMap::new();
    vehicle.step(&mut occupancy, &lights, 1);
    vehicle.step(&mut occupancy, &lights, 1);
    for _ in 0..5 {
        vehicle.step(&mut occupancy, &lights, 1);
        assert_eq!(vehicle.stage, Stage::Wait(0));
    }
    assert_eq!(vehicle.wait_ms, 500);
    assert_eq!(vehicles_on(&occupancy, 10), 1);
}

#[test]
fn every_lane_entered_is_left() {
    let lanes = load_lanes();
    let lights = all_green();
    for car_id in 1..=50u32 {
        let mut generator = vehicle_generator(car_id);
        let mut vehicle = spawn_vehicle(car_id, &lanes, &mut generator).expect("a vehicle");
        let mut occupancy = initialize_simdata();
        let mut on: HashMap<u32, i64> = HashMap::new();
        let mut turns = 0;
        while !vehicle.is_done() {
            let turn = vehicle.step(&mut occupancy, &lights, 0);
            match turn.event {
                Some(LaneEvent::Entered(id)) => *on.entry(id).or_insert(0) += 1,
                Some(LaneEvent::Left(id)) => *on.entry(id).or_insert(0) -= 1,
                None => {}
            }
            // Never left before entered, never on a lane twice.
            assert!(on.values().all(|n| *n == 0 || *n == 1));
            assert!(on.values().filter(|n| **n == 1).count() <= 1);
            turns += 1;
            assert!(turns < 200);
        }
        assert!(on.values().all(|n| *n == 0));
        assert_eq!(occupancy, initialize_simdata());
    }
}

#[test]
fn thirty_vehicles_leave_the_occupancy_as_it_was() {
    let lanes = load_lanes();
    let lights = all_green();
    let initial = initialize_simdata();
    let mut occupancy = initial.clone();
    let mut fleet = spawn_fleet(&lanes, FLEET_SIZE);
    assert_eq!(fleet.len(), 30);
    let mut logs: Vec<LogEvent> = Vec::new();
    let mut rounds = 0;
    while fleet.iter().any(|v| !v.is_done()) {
        for vehicle in fleet.iter_mut() {
            let turn = vehicle.step(&mut occupancy, &lights, 1000);
            assert!(turn.fault.is_none());
            logs.extend(turn.log);
        }
        for count in occupancy.values() {
            assert!(*count <= 30);
        }
        rounds += 1;
        assert!(rounds < 500);
    }
    assert_eq!(occupancy, initial);
    logs.push(simulation_complete(1001));
    assert!(logs.len() >= 60);
    assert_eq!(logs.len(), 61);
    assert_eq!(logs[60].source, "Simulation");
    assert_eq!(logs[60].message, "Simulation complete");
}

#[test]
fn entry_and_exit_lanes_differ_in_ten_thousand_spawns() {
    let lanes = load_lanes();
    for car_id in 1..=10_000u32 {
        let mut generator = vehicle_generator(car_id);
        let vehicle = spawn_vehicle(car_id, &lanes, &mut generator).expect("a vehicle");
        assert_ne!(vehicle.input_lane.id, vehicle.exit_lane.id);
        assert_eq!(vehicle.input_lane.category, LaneCategory::InputBoundary);
        assert_eq!(vehicle.exit_lane.category, LaneCategory::OutputBoundary);
        assert!(MIN_SPEED <= vehicle.speed && vehicle.speed <= MAX_SPEED);
        assert_eq!(vehicle.car_id, car_id);
        assert_eq!(vehicle.stage, Stage::Start);
    }
}

#[test]
fn spawned_vehicles_do_not_all_choose_alike() {
    let lanes = load_lanes();
    let mut inputs = std::collections::HashSet::new();
    let mut exits = std::collections::HashSet::new();
    let mut speeds = std::collections::HashSet::new();
    for vehicle in spawn_fleet(&lanes, 200) {
        inputs.insert(vehicle.input_lane.id);
        exits.insert(vehicle.exit_lane.id);
        speeds.insert(vehicle.speed);
    }
    assert_eq!(inputs.len(), 8);
    assert_eq!(exits.len(), 10);
    assert!(speeds.len() > 100);
}

#[test]
fn a_vehicle_has_the_same_choices_whenever_it_is_spawned() {
    let lanes = load_lanes();
    let first = spawn_fleet(&lanes, 10);
    let second = spawn_fleet(&lanes, 10);
    for (a, b) in first.iter().zip(second.iter()) {
        assert_eq!(a.speed, b.speed);
        assert_eq!(a.input_lane, b.input_lane);
        assert_eq!(a.exit_lane, b.exit_lane);
        assert_eq!(a.route, b.route);
    }
}

#[test]
fn a_spawned_vehicle_has_a_planned_route() {
    let lanes = load_lanes();
    for vehicle in spawn_fleet(&lanes, 30) {
        let planned = find_lane_path(
            vehicle.input_lane.end_intersection,
            vehicle.exit_lane.start_intersection,
            &lanes,
        );
        assert_eq!(vehicle.route, planned.unwrap_or_default());
    }
}

#[test]
fn no_vehicle_is_spawned_without_entry_or_exit_lanes() {
    let mut generator = vehicle_generator(1);
    let no_exit = vec![inbound(1, 1, 100), internal(2, 1, 2, 100)];
    assert!(spawn_vehicle(1, &no_exit, &mut generator).is_none());
    let no_entry = vec![outbound(1, 1, 100), internal(2, 1, 2, 100)];
    assert!(spawn_vehicle(1, &no_entry, &mut generator).is_none());
    assert!(spawn_fleet(&no_entry, 5).is_empty());
    let both = vec![inbound(1, 1, 100), outbound(3, 2, 100), internal(2, 1, 2, 100)];
    let vehicle = spawn_vehicle(9, &both, &mut generator).expect("a vehicle");
    assert_eq!(vehicle.route, vec![internal(2, 1, 2, 100)]);
}

#[test]
fn an_unreachable_exit_gives_an_empty_route() {
    let lanes = vec![inbound(1, 1, 100), outbound(2, 5, 100), internal(3, 2, 3, 100)];
    let vehicle = plan_journey(4, 75_000, lanes[0], lanes[1], &lanes);
    assert!(vehicle.route.is_empty());
    assert_eq!(vehicle.stage, Stage::Start);
}

#[test]
fn lanes_are_picked_by_category() {
    let lanes = load_lanes();
    let entries: Vec<u32> = entry_lanes(&lanes).iter().map(|l| l.id).collect();
    let exits: Vec<u32> = exit_lanes(&lanes).iter().map(|l| l.id).collect();
    assert_eq!(entries, (1010..=1017).collect::<Vec<u32>>());
    assert_eq!(exits, (1000..=1009).collect::<Vec<u32>>());
    let others: Vec<u32> =
        exit_candidates(&exit_lanes(&lanes), 1003).iter().map(|l| l.id).collect();
    assert_eq!(others, vec![1000, 1001, 1002, 1004, 1005, 1006, 1007, 1008, 1009]);
}

#[test]
fn counts_go_up_and_down() {
    let mut occupancy = occupancy_for(&load_lanes());
    assert_eq!(occupancy.len(), 52);
    assert!(occupancy.values().all(|c| *c == 0));
    assert_eq!(
        enter_lane(&mut occupancy, 1020, 5),
        Ok(TrafficUpdate { lane_id: 1020, vehicle_count: 1, timestamp: 5 })
    );
    assert_eq!(
        enter_lane(&mut occupancy, 1020, 6),
        Ok(TrafficUpdate { lane_id: 1020, vehicle_count: 2, timestamp: 6 })
    );
    assert_eq!(
        leave_lane(&mut occupancy, 1020, 7),
        Ok(TrafficUpdate { lane_id: 1020, vehicle_count: 1, timestamp: 7 })
    );
    assert_eq!(vehicles_on(&occupancy, 1020), 1);
    assert_eq!(vehicles_on(&occupancy, 1021), 0);
    assert_eq!(vehicles_on(&occupancy, 5), 0);
}

#[test]
fn a_count_never_falls_below_zero() {
    let mut occupancy = initialize_simdata();
    let before = occupancy.clone();
    assert_eq!(leave_lane(&mut occupancy, 1020, 7), Err(OccupancyError::Empty));
    assert_eq!(leave_lane(&mut occupancy, 77, 7), Err(OccupancyError::Empty));
    assert_eq!(occupancy, before);
}

#[test]
fn a_full_count_stays_as_it_is() {
    let mut occupancy: HashMap<u32, u32> = HashMap::new();
    occupancy.insert(3, u32::MAX);
    assert_eq!(enter_lane(&mut occupancy, 3, 7), Err(OccupancyError::Full));
    assert_eq!(vehicles_on(&occupancy, 3), u32::MAX);
    let mut vehicle = Vehicle::new(
        1,
        70_000,
        inbound(1, 1, 10),
        outbound(2, 2, 10),
        vec![internal(3, 1, 2, 10)],
    );
    let lights = HashMap::new();
    vehicle.step(&mut occupancy, &lights, 0);
    let turn = vehicle.step(&mut occupancy, &lights, 0);
    assert_eq!(turn.event, Some(LaneEvent::Entered(3)));
    assert_eq!(turn.update, None);
    assert_eq!(turn.fault, Some(OccupancyError::Full));
    assert_eq!(vehicle.stage, Stage::Wait(0));
}

#[test]
fn an_unknown_lane_is_counted_from_zero() {
    let mut occupancy: HashMap<u32, u32> = HashMap::new();
    assert_eq!(
        enter_lane(&mut occupancy, 9, 1),
        Ok(TrafficUpdate { lane_id: 9, vehicle_count: 1, timestamp: 1 })
    );
    assert_eq!(occupancy.get(&9), Some(&1));
}

#[test]
fn a_journey_without_a_route_is_reported() {
    let lanes = vec![inbound(1, 1, 100), outbound(2, 5, 100), internal(3, 2, 3, 100)];
    let vehicle = plan_journey(4, 75_000, lanes[0], lanes[1], &lanes);
    let line = unrouted_log(&vehicle, 12).expect("no route was found");
    assert_eq!(line.source, "Car-4");
    assert_eq!(
        line.message,
        "No internal route from intersection 1 to intersection 5; driving from entry lane to exit lane"
    );
    assert_eq!(line.timestamp, 12);
    // An entry lane and an exit lane at one intersection need no route.
    let at_one = plan_journey(5, 75_000, inbound(1, 5, 100), outbound(2, 5, 100), &lanes);
    assert!(at_one.route.is_empty());
    assert!(unrouted_log(&at_one, 12).is_none());
    // A vehicle with a route has nothing to report.
    let routed = plan_journey(6, 75_000, inbound(1, 2, 100), outbound(2, 3, 100), &lanes);
    assert_eq!(routed.route.len(), 1);
    assert!(unrouted_log(&routed, 12).is_none());
}

#[test]
fn a_count_that_could_not_be_changed_is_reported() {
    let line = fault_log(8, OccupancyError::Full, 3);
    assert_eq!(line.source, "Car-8");
    assert_eq!(line.message, "Lane count is full; vehicle not counted");
    assert_eq!(line.timestamp, 3);
    let line = fault_log(9, OccupancyError::Empty, 4);
    assert_eq!(line.source, "Car-9");
    assert_eq!(line.message, "Lane count is zero; vehicle not counted off");
}

#[test]
fn a_vehicle_is_seeded_by_its_number() {
    assert_eq!(SEED_BASE, 42);
    assert_eq!(vehicle_seed(0), 42);
    assert_eq!(vehicle_seed(1), 43);
    assert_eq!(vehicle_seed(30), 72);
    assert_eq!(vehicle_seed(u32::MAX), 4_294_967_337);
}

#[test]
fn generators_of_one_vehicle_draw_alike_and_of_two_vehicles_differently() {
    let lanes = load_lanes();
    let choices = |car_id: u32| {
        let mut generator = vehicle_generator(car_id);
        let v = spawn_vehicle(7, &lanes, &mut generator).expect("a vehicle");
        (v.speed, v.input_lane.id, v.exit_lane.id)
    };
    assert_eq!(choices(1), choices(1));
    assert_eq!(choices(25), choices(25));
    let distinct: std::collections::HashSet<(u32, u32, u32)> = (1..=30).map(choices).collect();
    assert!(distinct.len() > 25);
}
