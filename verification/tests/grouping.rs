use traffic_grid::angles::{compute_lane_angle, intersection_to_coords};
use traffic_grid::grouping::{
    group_lanes_by_direction, lane_approaches, partition_approaches, Approach,
};
use traffic_grid::lanes::{inbound, internal, load_lanes, Lane};

fn approach(lane_id: u32, angle: u32) -> Approach {
    Approach { lane_id, angle }
}

#[test]
fn intersections_lie_row_by_row() {
    assert_eq!(intersection_to_coords(1), (0, 0));
    assert_eq!(intersection_to_coords(4), (0, 3));
    assert_eq!(intersection_to_coords(5), (1, 0));
    assert_eq!(intersection_to_coords(11), (2, 2));
    assert_eq!(intersection_to_coords(16), (3, 3));
}

#[test]
fn angles_along_the_axes() {
    // One row down, same column.
    assert_eq!(compute_lane_angle(&internal(1, 1, 5, 10)), 0);
    // Same row, one column right.
    assert_eq!(compute_lane_angle(&internal(1, 1, 2, 10)), 90_000);
    // One row up.
    assert_eq!(compute_lane_angle(&internal(1, 5, 1, 10)), 180_000);
    // One column left.
    assert_eq!(compute_lane_angle(&internal(1, 2, 1, 10)), 270_000);
}

#[test]
fn angles_off_the_axes() {
    // From (0,0) to (1,1), (2,1), (3,1), (3,2) and (1,2).
    assert_eq!(compute_lane_angle(&internal(1, 1, 6, 10)), 45_000);
    assert_eq!(compute_lane_angle(&internal(1, 1, 10, 10)), 26_565);
    assert_eq!(compute_lane_angle(&internal(1, 1, 14, 10)), 18_435);
    assert_eq!(compute_lane_angle(&internal(1, 1, 15, 10)), 33_690);
    assert_eq!(compute_lane_angle(&internal(1, 1, 7, 10)), 63_435);
    // From (3,3) to (2,1): two columns left, one row up.
    assert_eq!(compute_lane_angle(&internal(1, 16, 10, 10)), 243_435);
    // From (0,3) to (1,2): one row down, one column left.
    assert_eq!(compute_lane_angle(&internal(1, 4, 7, 10)), 315_000);
    // From (3,0) to (2,1): one row up, one column right.
    assert_eq!(compute_lane_angle(&internal(1, 13, 10, 10)), 135_000);
    // A lane from an intersection to itself.
    assert_eq!(compute_lane_angle(&internal(1, 6, 6, 10)), 0);
}

#[test]
fn opposite_lanes_differ_by_half_a_turn() {
    for from in 1..=16u32 {
        for to in 1..=16u32 {
            if from != to {
                let there = compute_lane_angle(&internal(1, from, to, 10));
                let back = compute_lane_angle(&internal(2, to, from, 10));
                assert_eq!((there + 180_000) % 360_000, back);
                assert!(there < 360_000);
            }
        }
    }
}

#[test]
fn entry_lanes_get_the_angle_of_their_side() {
    // Top row.
    assert_eq!(compute_lane_angle(&inbound(1, 1, 10)), 90_000);
    assert_eq!(compute_lane_angle(&inbound(1, 4, 10)), 90_000);
    // Bottom row.
    assert_eq!(compute_lane_angle(&inbound(1, 13, 10)), 270_000);
    assert_eq!(compute_lane_angle(&inbound(1, 16, 10)), 270_000);
    // Left column, right column.
    assert_eq!(compute_lane_angle(&inbound(1, 5, 10)), 0);
    assert_eq!(compute_lane_angle(&inbound(1, 12, 10)), 180_000);
    // Inside the grid.
    assert_eq!(compute_lane_angle(&inbound(1, 6, 10)), 90_000);
}

#[test]
fn a_lane_joins_the_first_group_within_twenty_degrees() {
    let groups = partition_approaches(&vec![
        approach(1, 0),
        approach(2, 20_000),
        approach(3, 30_000),
        approach(4, 30_001),
        approach(5, 200_000),
        approach(6, 52_000),
    ]);
    // 20° joins 0° (average 10°); 30° is exactly 20° off and joins (average
    // 16⅔°); 30.001° is less than 20° off and joins (average 20.00025°);
    // 200° founds a group; 52° is more than 20° off the first and founds one.
    assert_eq!(
        groups,
        vec![
            vec![approach(1, 0), approach(2, 20_000), approach(3, 30_000), approach(4, 30_001)],
            vec![approach(5, 200_000)],
            vec![approach(6, 52_000)],
        ]
    );
}

#[test]
fn a_lane_just_outside_the_spread_founds_a_group() {
    let groups = partition_approaches(&vec![approach(1, 0), approach(2, 20_001)]);
    assert_eq!(groups, vec![vec![approach(1, 0)], vec![approach(2, 20_001)]]);
    let groups = partition_approaches(&vec![approach(1, 0), approach(2, 20_000)]);
    assert_eq!(groups, vec![vec![approach(1, 0), approach(2, 20_000)]]);
}

#[test]
fn the_running_average_is_exact() {
    // The average of 0°, 0° and 10° is 3⅓°; 23.333° is within 20° of it and
    // 23.334° is not.
    let base = vec![approach(1, 0), approach(2, 0), approach(3, 10_000)];
    let mut near = base.clone();
    near.push(approach(4, 23_333));
    assert_eq!(partition_approaches(&near).len(), 1);
    let mut far = base.clone();
    far.push(approach(4, 23_334));
    assert_eq!(partition_approaches(&far).len(), 2);
}

#[test]
fn members_share_a_group_only_within_the_spread_of_the_running_average() {
    let angles = [5_000u32, 350_000, 18_000, 100_000, 111_000, 95_000, 0, 40_000, 200_000, 219_999];
    let approaches: Vec<Approach> =
        angles.iter().enumerate().map(|(i, a)| approach(i as u32, *a)).collect();
    let groups = partition_approaches(&approaches);
    let mut members = 0;
    for group in &groups {
        assert!(!group.is_empty());
        members += group.len();
        let mut sum: i64 = group[0].angle as i64;
        for k in 1..group.len() {
            let angle = group[k].angle as i64;
            let n = k as i64;
            assert!((angle * n - sum).abs() <= 20_000 * n);
            sum += angle;
        }
    }
    assert_eq!(members, approaches.len());
}

#[test]
fn groups_are_served_in_ascending_order_of_average_angle() {
    let lanes = vec![
        internal(1, 10, 6, 100), // one row up: 180°
        internal(2, 5, 6, 100),  // one column right: 90°
        internal(3, 7, 6, 100),  // one column left: 270°
        internal(4, 2, 6, 100),  // one row down: 0°
        inbound(5, 6, 100),      // inside the grid: 90°
    ];
    let groups = group_lanes_by_direction(&lanes);
    assert_eq!(groups, vec![vec![4], vec![2, 5], vec![1], vec![3]]);
}

#[test]
fn groups_of_equal_average_keep_their_order() {
    let lanes = vec![internal(1, 5, 6, 100), internal(2, 10, 6, 100), internal(3, 5, 6, 100)];
    // Lanes 1 and 3 share 90°; lane 2 is alone at 180°.
    assert_eq!(group_lanes_by_direction(&lanes), vec![vec![1, 3], vec![2]]);
}

#[test]
fn no_lanes_make_no_groups() {
    assert_eq!(group_lanes_by_direction(&Vec::new()), Vec::<Vec<u32>>::new());
}

#[test]
fn every_lane_of_a_junction_is_in_exactly_one_group() {
    let table = load_lanes();
    for junction in 1..=16u32 {
        let incoming: Vec<Lane> =
            table.iter().filter(|l| l.end_intersection == junction).cloned().collect();
        let groups = group_lanes_by_direction(&incoming);
        for lane in &incoming {
            let holders = groups.iter().filter(|g| g.contains(&lane.id)).count();
            assert_eq!(holders, 1);
        }
        let members: usize = groups.iter().map(|g| g.len()).sum();
        assert_eq!(members, incoming.len());
    }
}

#[test]
fn approaches_pair_each_lane_with_its_angle() {
    let lanes = vec![internal(7, 1, 2, 10), inbound(8, 13, 10)];
    assert_eq!(lane_approaches(&lanes), vec![approach(7, 90_000), approach(8, 270_000)]);
}
