use std::collections::HashMap;
use traffic_grid::analyzer::advise;
use traffic_grid::events::{LightStatus, Recommendation, TrafficUpdate};
use traffic_grid::lanes::{inbound, internal, load_lanes, outbound};
use traffic_grid::occupancy::{initialize_simdata, vehicles_on};
use traffic_grid::services::{receive_payload, run_flow_analyzer};
use traffic_grid::signal_log::{phase_log, receive_recommendation};
use traffic_grid::vehicle::{Stage, Vehicle};
use traffic_grid::wire::{encode_recommendation, encode_traffic_update};
use traffic_grid::signals::{
    apply_recommendation, can_proceed_lane, incoming_lanes, initialize_traffic_lights,
    junction_controllers, lights_for, record_light_status, JunctionController, LightColor,
    SignalPhase, CLEARANCE_DURATION, GREEN_DURATION,
};

fn three_groups() -> JunctionController {
    JunctionController {
        junction: 6,
        lane_ids: vec![11, 12, 13, 14],
        groups: vec![vec![11], vec![12, 14], vec![13]],
        group_index: 0,
        phase: SignalPhase::Idle,
        green_duration: 5,
        clearance_duration: 10,
    }
}

fn green_lanes(lights: &HashMap<u32, LightColor>, ids: &[u32]) -> Vec<u32> {
    ids.iter().cloned().filter(|id| can_proceed_lane(*id, lights)).collect()
}

#[test]
fn every_controlled_lane_starts_red() {
    let lights = initialize_traffic_lights();
    let lanes = load_lanes();
    let controlled = lanes.iter().filter(|l| l.end_intersection != 0).count();
    assert_eq!(controlled, 42);
    assert_eq!(lights.len(), 42);
    for lane in &lanes {
        if lane.end_intersection != 0 {
            assert_eq!(lights.get(&lane.id), Some(&LightColor::Red));
        } else {
            assert_eq!(lights.get(&lane.id), None);
        }
        assert!(!can_proceed_lane(lane.id, &lights));
    }
    assert_eq!(lights_for(&lanes), lights);
}

#[test]
fn a_lane_without_a_signal_is_never_entered() {
    let mut lights = HashMap::new();
    assert!(!can_proceed_lane(5, &lights));
    lights.insert(5, LightColor::Red);
    assert!(!can_proceed_lane(5, &lights));
    lights.insert(5, LightColor::Green);
    assert!(can_proceed_lane(5, &lights));
}

#[test]
fn incoming_lanes_are_taken_in_table_order() {
    let lanes = load_lanes();
    let ids: Vec<u32> = incoming_lanes(&lanes, 16).iter().map(|l| l.id).collect();
    assert_eq!(ids, vec![1016, 1017, 1043, 1049]);
    assert!(incoming_lanes(&lanes, 17).is_empty());
}

#[test]
fn the_cycle_serves_each_group_then_clears() {
    let mut controller = three_groups();
    let mut lights = HashMap::new();
    lights.insert(99, LightColor::Green);

    let change = controller.advance(&mut lights);
    assert_eq!(change.phase, SignalPhase::Green);
    assert_eq!(change.group_index, 0);
    assert_eq!(change.hold_secs, 5);
    assert_eq!(change.green_lanes, vec![11]);
    assert_eq!(change.red_lanes, vec![12, 13, 14]);
    assert_eq!(green_lanes(&lights, &controller.lane_ids), vec![11]);
    let announced: Vec<(u32, String)> =
        change.statuses.iter().map(|s| (s.lane_id, s.status.clone())).collect();
    assert_eq!(
        announced,
        vec![
            (11, "Green".to_string()),
            (12, "Red".to_string()),
            (13, "Red".to_string()),
            (14, "Red".to_string())
        ]
    );

    let change = controller.advance(&mut lights);
    assert_eq!(change.phase, SignalPhase::AllRed);
    assert_eq!(change.group_index, 0);
    assert_eq!(change.hold_secs, 10);
    assert!(change.green_lanes.is_empty());
    assert_eq!(change.red_lanes, vec![11, 12, 13, 14]);
    assert!(green_lanes(&lights, &controller.lane_ids).is_empty());
    assert!(change.statuses.iter().all(|s| s.status == "Red"));
    assert_eq!(change.statuses.len(), 4);

    let change = controller.advance(&mut lights);
    assert_eq!(change.phase, SignalPhase::Green);
    assert_eq!(change.group_index, 1);
    assert_eq!(change.green_lanes, vec![12, 14]);
    assert_eq!(change.red_lanes, vec![11, 13]);

    // A signal of another junction is left alone.
    assert_eq!(lights.get(&99), Some(&LightColor::Green));
}

#[test]
fn at_most_one_group_is_green_at_any_change() {
    let mut controller = three_groups();
    let mut lights = HashMap::new();
    for _ in 0..20 {
        controller.advance(&mut lights);
        let lit: Vec<usize> = (0..controller.groups.len())
            .filter(|g| controller.groups[*g].iter().any(|id| can_proceed_lane(*id, &lights)))
            .collect();
        match controller.phase {
            SignalPhase::Green => assert_eq!(lit, vec![controller.group_index]),
            _ => assert!(lit.is_empty()),
        }
    }
}

#[test]
fn the_group_advances_once_per_green_and_clearance() {
    let mut controller = three_groups();
    let mut lights = HashMap::new();
    let mut clock: u64 = 0;
    let mut entered_green_at: Vec<(usize, u64)> = Vec::new();
    for _ in 0..12 {
        let change = controller.advance(&mut lights);
        if change.phase == SignalPhase::Green {
            entered_green_at.push((change.group_index, clock));
        }
        clock += change.hold_secs;
    }
    assert_eq!(
        entered_green_at,
        vec![(0, 0), (1, 15), (2, 30), (0, 45), (1, 60), (2, 75)]
    );
}

#[test]
fn three_groups_are_all_served_within_forty_five_seconds() {
    let mut controller = three_groups();
    let mut lights = HashMap::new();
    let mut clock: u64 = 0;
    let mut served = vec![false; 3];
    loop {
        let change = controller.advance(&mut lights);
        if change.phase == SignalPhase::Green && clock + change.hold_secs <= 45 {
            served[change.group_index] = true;
        }
        clock += change.hold_secs;
        if clock >= 45 {
            break;
        }
    }
    assert_eq!(served, vec![true, true, true]);
}

#[test]
fn a_controller_with_one_group_returns_to_it() {
    let mut controller = JunctionController {
        junction: 1,
        lane_ids: vec![7],
        groups: vec![vec![7]],
        group_index: 0,
        phase: SignalPhase::Idle,
        green_duration: 3,
        clearance_duration: 4,
    };
    let mut lights = HashMap::new();
    let phases: Vec<(SignalPhase, usize, u64)> = (0..5)
        .map(|_| {
            let c = controller.advance(&mut lights);
            (c.phase, c.group_index, c.hold_secs)
        })
        .collect();
    assert_eq!(
        phases,
        vec![
            (SignalPhase::Green, 0, 3),
            (SignalPhase::AllRed, 0, 4),
            (SignalPhase::Green, 0, 3),
            (SignalPhase::AllRed, 0, 4),
            (SignalPhase::Green, 0, 3)
        ]
    );
}

#[test]
fn controllers_cover_every_junction_with_incoming_lanes() {
    let lanes = load_lanes();
    let controllers = junction_controllers(&lanes);
    let junctions: Vec<u32> = controllers.iter().map(|c| c.junction).collect();
    assert_eq!(junctions, (1..=16).collect::<Vec<u32>>());
    for c in &controllers {
        assert_eq!(c.phase, SignalPhase::Idle);
        assert_eq!(c.group_index, 0);
        assert_eq!(c.green_duration, GREEN_DURATION);
        assert_eq!(c.clearance_duration, CLEARANCE_DURATION);
        assert!(!c.groups.is_empty());
        let members: usize = c.groups.iter().map(|g| g.len()).sum();
        assert_eq!(members, c.lane_ids.len());
    }
    assert_eq!(GREEN_DURATION, 5);
    assert_eq!(CLEARANCE_DURATION, 10);
}

#[test]
fn there_is_no_controller_where_no_lane_ends() {
    let lanes = load_lanes();
    assert!(JunctionController::new(0, &lanes).is_none());
    assert!(JunctionController::new(17, &lanes).is_none());
    let only: Vec<_> = lanes.iter().filter(|l| l.end_intersection != 3).cloned().collect();
    assert!(JunctionController::new(3, &only).is_none());
    assert!(JunctionController::new(4, &only).is_some());
}

#[test]
fn the_controller_of_the_last_junction_groups_its_four_lanes() {
    let lanes = load_lanes();
    let controller = JunctionController::new(16, &lanes).expect("lanes end there");
    assert_eq!(controller.lane_ids, vec![1016, 1017, 1043, 1049]);
    // 12 → 16 comes down one row (0°), 15 → 16 comes one column right (90°),
    // and both entry lanes come from the bottom (270°).
    assert_eq!(controller.groups, vec![vec![1043], vec![1049], vec![1016, 1017]]);
}

#[test]
fn a_recommendation_turns_its_lane_green_at_once() {
    let mut controller = three_groups();
    let mut lights = HashMap::new();
    controller.advance(&mut lights);
    controller.advance(&mut lights);
    assert!(green_lanes(&lights, &controller.lane_ids).is_empty());
    let rec = Recommendation { lane_id: 13, new_green_time: 40, timestamp: 9 };
    assert!(apply_recommendation(&mut lights, &rec));
    assert_eq!(green_lanes(&lights, &controller.lane_ids), vec![13]);
    // The next change follows the cycle and takes the green back.
    let change = controller.advance(&mut lights);
    assert_eq!(change.group_index, 1);
    assert_eq!(green_lanes(&lights, &controller.lane_ids), vec![12, 14]);
}

#[test]
fn a_recommendation_can_light_a_second_group_until_the_next_change() {
    let mut controller = three_groups();
    let mut lights = HashMap::new();
    controller.advance(&mut lights);
    let rec = Recommendation { lane_id: 13, new_green_time: 40, timestamp: 9 };
    assert!(apply_recommendation(&mut lights, &rec));
    assert_eq!(green_lanes(&lights, &controller.lane_ids), vec![11, 13]);
    controller.advance(&mut lights);
    assert!(green_lanes(&lights, &controller.lane_ids).is_empty());
}

#[test]
fn a_recommendation_for_an_unknown_lane_changes_nothing() {
    let mut lights = initialize_traffic_lights();
    let before = lights.clone();
    let rec = Recommendation { lane_id: 4242, new_green_time: 40, timestamp: 9 };
    assert!(!apply_recommendation(&mut lights, &rec));
    assert_eq!(lights, before);
    // Lane 1000 leaves the grid and has no signal.
    let rec = Recommendation { lane_id: 1000, new_green_time: 40, timestamp: 9 };
    assert!(!apply_recommendation(&mut lights, &rec));
    assert_eq!(lights, before);
}

#[test]
fn congestion_leads_to_one_recommendation_and_green() {
    let shared = internal(1028, 6, 7, 300);
    let mut lights = initialize_traffic_lights();
    let mut occupancy = initialize_simdata();
    let mut payloads: Vec<Vec<u8>> = Vec::new();
    // Four vehicles whose routes share one lane reach it while it is red.
    let mut fleet: Vec<Vehicle> = (1..=4)
        .map(|car_id| {
            Vehicle::new(car_id, 80_000, inbound(1011, 2, 300), outbound(1002, 3, 300), vec![shared])
        })
        .collect();
    for vehicle in fleet.iter_mut() {
        for _ in 0..3 {
            let turn = vehicle.step(&mut occupancy, &lights, 100);
            if let Some(update) = turn.update {
                payloads.push(encode_traffic_update(&update));
            }
        }
        assert_eq!(vehicle.stage, Stage::Wait(0));
    }
    assert_eq!(vehicles_on(&occupancy, 1028), 4);
    assert_eq!(payloads.len(), 4);

    let recommendations: Vec<Recommendation> = run_flow_analyzer(&payloads, 101)
        .iter()
        .filter_map(|advice| advice.recommendation)
        .collect();
    assert_eq!(
        recommendations,
        vec![Recommendation { lane_id: 1028, new_green_time: 40, timestamp: 101 }]
    );

    // The controller of the lane's junction is in a clearance.
    let mut controller = JunctionController::new(7, &load_lanes()).expect("lanes end there");
    controller.advance(&mut lights);
    controller.advance(&mut lights);
    assert_eq!(controller.phase, SignalPhase::AllRed);
    assert!(!can_proceed_lane(1028, &lights));
    let line =
        receive_payload(&mut lights, &encode_recommendation(&recommendations[0]), 102);
    assert!(can_proceed_lane(1028, &lights));
    assert_eq!(line.source, "TrafficLight-1028");
    assert_eq!(line.message, "Set to Green per recommendation");
    assert_eq!(line.timestamp, 102);

    // The vehicles drive on and leave the lane as it was.
    for vehicle in fleet.iter_mut() {
        while !vehicle.is_done() {
            vehicle.step(&mut occupancy, &lights, 103);
        }
    }
    assert_eq!(occupancy, initialize_simdata());
}

#[test]
fn only_updates_from_four_vehicles_on_are_answered() {
    let mut recommendations = Vec::new();
    for count in [1, 2, 3, 4, 3, 2, 1, 0] {
        let update = TrafficUpdate { lane_id: 1028, vehicle_count: count, timestamp: 100 };
        if let Some(rec) = advise(Some(update), 101).recommendation {
            recommendations.push(rec);
        }
    }
    assert_eq!(
        recommendations,
        vec![Recommendation { lane_id: 1028, new_green_time: 40, timestamp: 101 }]
    );
}

#[test]
fn received_recommendations_are_logged() {
    let mut lights = HashMap::new();
    lights.insert(5, LightColor::Red);
    let unknown = Recommendation { lane_id: 6, new_green_time: 40, timestamp: 1 };
    let line = receive_recommendation(&mut lights, Some(unknown), 7);
    assert_eq!(line.source, "TrafficLight-6");
    assert_eq!(line.message, "Ignored recommendation for unknown lane");
    assert_eq!(lights.len(), 1);
    assert_eq!(lights.get(&5), Some(&LightColor::Red));
    let line = receive_recommendation(&mut lights, None, 8);
    assert_eq!(line.source, "TrafficLight");
    assert_eq!(line.message, "Dropped malformed recommendation");
    assert_eq!(line.timestamp, 8);
    assert_eq!(lights.get(&5), Some(&LightColor::Red));
}

#[test]
fn a_green_phase_is_logged_and_a_clearance_is_not() {
    let mut controller = three_groups();
    let mut lights = HashMap::new();
    controller.advance(&mut lights);
    controller.advance(&mut lights);
    let change = controller.advance(&mut lights);
    let line = phase_log(controller.junction, &change, 77).expect("a green phase");
    assert_eq!(line.source, "Junction-6");
    assert_eq!(line.message, "Phase 1 active: Green lanes [12, 14], Red lanes [11, 13]");
    assert_eq!(line.timestamp, 77);
    let change = controller.advance(&mut lights);
    assert!(phase_log(controller.junction, &change, 78).is_none());
}

#[test]
fn observed_statuses_are_green_only_for_the_word_green() {
    let mut observed = HashMap::new();
    record_light_status(&mut observed, &LightStatus { lane_id: 1, status: "Green".into() });
    record_light_status(&mut observed, &LightStatus { lane_id: 2, status: "Red".into() });
    record_light_status(&mut observed, &LightStatus { lane_id: 3, status: "green".into() });
    record_light_status(&mut observed, &LightStatus { lane_id: 4, status: "".into() });
    assert_eq!(observed.get(&1), Some(&LightColor::Green));
    assert_eq!(observed.get(&2), Some(&LightColor::Red));
    assert_eq!(observed.get(&3), Some(&LightColor::Red));
    assert_eq!(observed.get(&4), Some(&LightColor::Red));
    record_light_status(&mut observed, &LightStatus { lane_id: 1, status: "Red".into() });
    assert_eq!(observed.get(&1), Some(&LightColor::Red));
    assert!(!can_proceed_lane(9, &observed));
}
