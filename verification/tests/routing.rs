use traffic_grid::lanes::{inbound, internal, load_lanes, outbound, Lane, LaneCategory};
use traffic_grid::routing::find_lane_path;

fn total(route: &[Lane]) -> u64 {
    route.iter().map(|l| l.length as u64).sum()
}

/// Shortest distances between all intersections, by repeated relaxation.
fn all_distances(lanes: &[Lane]) -> Vec<Vec<Option<u64>>> {
    let mut dist: Vec<Vec<Option<u64>>> = vec![vec![None; 17]; 17];
    for v in 0..17 {
        dist[v][v] = Some(0);
    }
    for lane in lanes {
        if lane.category == LaneCategory::Internal {
            let (a, b) = (lane.start_intersection as usize, lane.end_intersection as usize);
            let len = lane.length as u64;
            if a != b && dist[a][b].map_or(true, |d| len < d) {
                dist[a][b] = Some(len);
            }
        }
    }
    for k in 0..17 {
        for a in 0..17 {
            for b in 0..17 {
                if let (Some(x), Some(y)) = (dist[a][k], dist[k][b]) {
                    if dist[a][b].map_or(true, |d| x + y < d) {
                        dist[a][b] = Some(x + y);
                    }
                }
            }
        }
    }
    dist
}

fn assert_is_route(route: &[Lane], lanes: &[Lane], start: u32, end: u32) {
    if route.is_empty() {
        assert_eq!(start, end);
        return;
    }
    assert_eq!(route[0].start_intersection, start);
    assert_eq!(route[route.len() - 1].end_intersection, end);
    for pair in route.windows(2) {
        assert_eq!(pair[0].end_intersection, pair[1].start_intersection);
    }
    for lane in route {
        assert_eq!(lane.category, LaneCategory::Internal);
        assert!(lanes.contains(lane));
    }
}

#[test]
fn route_from_corner_to_corner_has_the_shortest_length() {
    let lanes = load_lanes();
    let route = find_lane_path(1, 16, &lanes).expect("a route exists");
    assert_eq!(total(&route), 1500);
    let ids: Vec<u32> = route.iter().map(|l| l.id).collect();
    assert_eq!(ids, vec![1018, 1026, 1028, 1031, 1033, 1043]);
    assert_is_route(&route, &lanes, 1, 16);
}

#[test]
fn plan_to_the_same_intersection_is_empty() {
    let lanes = load_lanes();
    for at in 0..=20 {
        let route = find_lane_path(at, at, &lanes).expect("the empty route");
        assert!(route.is_empty());
    }
}

#[test]
fn every_plan_is_a_chain_of_least_length() {
    let lanes = load_lanes();
    let dist = all_distances(&lanes);
    for start in 1..=16u32 {
        for end in 1..=16u32 {
            let found = find_lane_path(start, end, &lanes);
            match dist[start as usize][end as usize] {
                Some(d) => {
                    let route = found.expect("a route exists");
                    assert_is_route(&route, &lanes, start, end);
                    assert_eq!(total(&route), d);
                }
                None => assert!(found.is_none()),
            }
        }
    }
}

#[test]
fn repeated_plans_have_equal_length() {
    let lanes = load_lanes();
    for start in 1..=16u32 {
        for end in 1..=16u32 {
            let first = find_lane_path(start, end, &lanes);
            let second = find_lane_path(start, end, &lanes);
            assert_eq!(first.is_some(), second.is_some());
            if let (Some(a), Some(b)) = (first, second) {
                assert_eq!(total(&a), total(&b));
                assert_eq!(a, b);
            }
        }
    }
}

#[test]
fn no_route_leaves_an_intersection_without_outgoing_lanes() {
    let lanes = load_lanes();
    assert!(find_lane_path(13, 1, &lanes).is_none());
    assert!(find_lane_path(13, 14, &lanes).is_none());
}

#[test]
fn no_route_starts_or_ends_outside_the_grid() {
    let lanes = load_lanes();
    assert!(find_lane_path(0, 5, &lanes).is_none());
    assert!(find_lane_path(5, 0, &lanes).is_none());
    assert!(find_lane_path(17, 5, &lanes).is_none());
    assert!(find_lane_path(5, 99, &lanes).is_none());
}

#[test]
fn boundary_lanes_are_not_part_of_a_route() {
    let lanes = vec![inbound(1, 1, 10), outbound(2, 2, 10), internal(3, 2, 3, 10)];
    assert!(find_lane_path(1, 2, &lanes).is_none());
    let route = find_lane_path(2, 3, &lanes).expect("one lane");
    assert_eq!(route, vec![internal(3, 2, 3, 10)]);
}

#[test]
fn the_shorter_of_two_ways_is_taken() {
    let lanes = vec![
        internal(1, 1, 2, 100),
        internal(2, 2, 4, 100),
        internal(3, 1, 3, 50),
        internal(4, 3, 4, 60),
        internal(5, 1, 4, 500),
    ];
    let route = find_lane_path(1, 4, &lanes).expect("a route exists");
    assert_eq!(route, vec![internal(3, 1, 3, 50), internal(4, 3, 4, 60)]);
    assert_eq!(total(&route), 110);
}

#[test]
fn parallel_lanes_use_the_shorter() {
    let lanes = vec![internal(1, 1, 2, 300), internal(2, 1, 2, 200), internal(3, 1, 2, 250)];
    let route = find_lane_path(1, 2, &lanes).expect("a route exists");
    assert_eq!(route, vec![internal(2, 1, 2, 200)]);
}

#[test]
fn long_lanes_do_not_overflow() {
    let lanes = vec![
        internal(1, 1, 2, u32::MAX),
        internal(2, 2, 3, u32::MAX),
        internal(3, 3, 4, u32::MAX),
    ];
    let route = find_lane_path(1, 4, &lanes).expect("a route exists");
    assert_eq!(total(&route), 3 * (u32::MAX as u64));
}

#[test]
fn empty_table_connects_nothing() {
    let lanes: Vec<Lane> = Vec::new();
    assert!(find_lane_path(1, 2, &lanes).is_none());
    assert_eq!(find_lane_path(3, 3, &lanes), Some(Vec::new()));
}
