use traffic_grid::lanes::{check_table, inbound, internal, load_lanes, outbound, Lane, LaneCategory};

#[test]
fn standard_table_has_fifty_two_valid_lanes() {
    let lanes = load_lanes();
    assert_eq!(lanes.len(), 52);
    assert!(check_table(&lanes));
    let inputs = lanes.iter().filter(|l| l.category == LaneCategory::InputBoundary).count();
    let outputs = lanes.iter().filter(|l| l.category == LaneCategory::OutputBoundary).count();
    let internals = lanes.iter().filter(|l| l.category == LaneCategory::Internal).count();
    assert_eq!(inputs, 8);
    assert_eq!(outputs, 10);
    assert_eq!(internals, 34);
}

#[test]
fn standard_table_is_numbered_from_one_thousand() {
    let lanes = load_lanes();
    for (i, lane) in lanes.iter().enumerate() {
        assert_eq!(lane.id as usize, 1000 + i);
    }
}

#[test]
fn standard_table_rows_are_as_listed() {
    let lanes = load_lanes();
    assert_eq!(lanes[0], outbound(1000, 1, 100));
    assert_eq!(lanes[10], inbound(1010, 1, 200));
    assert_eq!(lanes[18], internal(1018, 1, 2, 300));
    assert_eq!(lanes[37], internal(1037, 10, 11, 150));
    assert_eq!(lanes[51], internal(1051, 16, 15, 500));
}

#[test]
fn boundary_lanes_have_exactly_one_outside_end() {
    for lane in load_lanes() {
        match lane.category {
            LaneCategory::InputBoundary => {
                assert_eq!(lane.start_intersection, 0);
                assert!((1..=16).contains(&lane.end_intersection));
            }
            LaneCategory::OutputBoundary => {
                assert_eq!(lane.end_intersection, 0);
                assert!((1..=16).contains(&lane.start_intersection));
            }
            LaneCategory::Internal => {
                assert!((1..=16).contains(&lane.start_intersection));
                assert!((1..=16).contains(&lane.end_intersection));
            }
        }
        assert!(lane.length > 0);
        assert!(lane.is_well_formed());
    }
}

#[test]
fn constructors_fill_the_category() {
    let lane = inbound(7, 3, 120);
    assert_eq!(
        lane,
        Lane {
            id: 7,
            start_intersection: 0,
            end_intersection: 3,
            length: 120,
            category: LaneCategory::InputBoundary
        }
    );
    assert!(lane.is_controlled());
    assert!(!outbound(8, 3, 120).is_controlled());
    assert!(internal(9, 3, 4, 120).is_controlled());
}

#[test]
fn check_table_refuses_a_repeated_identifier() {
    let lanes = vec![internal(1, 1, 2, 100), internal(2, 2, 3, 100), internal(1, 3, 4, 100)];
    assert!(!check_table(&lanes));
}

#[test]
fn check_table_refuses_ill_formed_lanes() {
    assert!(!check_table(&vec![internal(1, 1, 17, 100)]));
    assert!(!check_table(&vec![internal(1, 0, 2, 100)]));
    assert!(!check_table(&vec![internal(1, 1, 2, 0)]));
    assert!(!check_table(&vec![inbound(1, 0, 100)]));
    assert!(!check_table(&vec![outbound(1, 17, 100)]));
    assert!(!check_table(&vec![Lane {
        id: 1,
        start_intersection: 2,
        end_intersection: 3,
        length: 10,
        category: LaneCategory::InputBoundary
    }]));
}

#[test]
fn check_table_accepts_the_empty_table() {
    assert!(check_table(&Vec::new()));
}
