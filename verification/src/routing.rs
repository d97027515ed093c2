//! Route planning over the internal lanes of a lane table.
//!
//! A route is a chain of internal lanes; its length is the sum of its lanes'
//! lengths. The planner returns a route of least length, or nothing where no
//! chain of internal lanes connects the two intersections.

use crate::lanes::{table_valid, Lane, LaneCategory, INTERSECTION_COUNT};
use vstd::prelude::*;

verus! {

/// `lane` is listed in `lanes` and connects two intersections.
pub open spec fn usable(lanes: Seq<Lane>, lane: Lane) -> bool {
    lane.category == LaneCategory::Internal && lanes.contains(lane)
}

/// `route` leads from `start` to `end` over internal lanes of `lanes`: each
/// lane starts where the one before it ends. The empty route leads from an
/// intersection to itself.
pub open spec fn is_route(lanes: Seq<Lane>, route: Seq<Lane>, start: u32, end: u32) -> bool {
    &&& forall|i: int| 0 <= i < route.len() ==> usable(lanes, #[trigger] route[i])
    &&& forall|i: int, j: int|
        0 <= i && j == i + 1 && j < route.len() ==> (#[trigger] route[i]).end_intersection == (
        #[trigger] route[j]).start_intersection
    &&& if route.len() == 0 {
        start == end
    } else {
        route[0].start_intersection == start && route.last().end_intersection == end
    }
}

/// Sum of the lengths of the lanes of `route`, in metres.
pub open spec fn route_length(route: Seq<Lane>) -> int
    decreases route.len(),
{
    if route.len() == 0 {
        0
    } else {
        route_length(route.drop_last()) + route.last().length
    }
}

/// No route from `start` to `end` is shorter than `route`.
pub open spec fn shortest(lanes: Seq<Lane>, route: Seq<Lane>, start: u32, end: u32) -> bool {
    forall|other: Seq<Lane>| #[trigger]
        is_route(lanes, other, start, end) ==> route_length(route) <= route_length(other)
}

/// Some route leads from `start` to `end`.
pub open spec fn connected(lanes: Seq<Lane>, start: u32, end: u32) -> bool {
    exists|route: Seq<Lane>| is_route(lanes, route, start, end)
}

/// A route's length is never negative.
pub proof fn lemma_route_length_nonnegative(route: Seq<Lane>)
    ensures
        route_length(route) >= 0,
    decreases route.len(),
{
    if route.len() > 0 {
        lemma_route_length_nonnegative(route.drop_last());
    }
}

/// Appending a lane adds its length.
pub proof fn lemma_route_length_push(route: Seq<Lane>, lane: Lane)
    ensures
        route_length(route.push(lane)) == route_length(route) + lane.length,
{
    assert(route.push(lane).drop_last() =~= route);
}

/// A route followed by a usable lane that starts at its end is a route to
/// that lane's end.
pub proof fn lemma_route_push(lanes: Seq<Lane>, route: Seq<Lane>, start: u32, lane: Lane)
    requires
        is_route(lanes, route, start, lane.start_intersection),
        usable(lanes, lane),
    ensures
        is_route(lanes, route.push(lane), start, lane.end_intersection),
{
    let longer = route.push(lane);
    assert forall|i: int, j: int| 0 <= i && j == i + 1 && j < longer.len() implies (
    #[trigger] longer[i]).end_intersection == (#[trigger] longer[j]).start_intersection by {
        if j < route.len() {
            assert(route[i].end_intersection == route[j].start_intersection);
        }
    }
}

/// A route without its last lane is a route to that lane's start.
pub proof fn lemma_route_drop_last(lanes: Seq<Lane>, route: Seq<Lane>, start: u32, end: u32)
    requires
        is_route(lanes, route, start, end),
        route.len() > 0,
    ensures
        is_route(lanes, route.drop_last(), start, route.last().start_intersection),
        usable(lanes, route.last()),
        route.last().end_intersection == end,
{
    let shorter = route.drop_last();
    assert forall|i: int| 0 <= i < shorter.len() implies usable(lanes, #[trigger] shorter[i]) by {
        assert(usable(lanes, route[i]));
    }
    assert forall|i: int, j: int| 0 <= i && j == i + 1 && j < shorter.len() implies (
    #[trigger] shorter[i]).end_intersection == (#[trigger] shorter[j]).start_intersection by {
        assert(route[i].end_intersection == route[j].start_intersection);
    }
    if shorter.len() > 0 {
        let k = route.len() - 2;
        assert(route[k].end_intersection == route[k + 1].start_intersection);
    }
}

/// Where lanes have positive lengths, a route of length zero is empty.
pub proof fn lemma_positive_route_length(lanes: Seq<Lane>, route: Seq<Lane>, start: u32, end: u32)
    requires
        table_valid(lanes),
        is_route(lanes, route, start, end),
        route.len() > 0,
    ensures
        route_length(route) > 0,
{
    lemma_route_length_nonnegative(route.drop_last());
    let last = route.last();
    assert(usable(lanes, route[route.len() - 1]));
    let k = choose|k: int| 0 <= k < lanes.len() && lanes[k] == last;
    assert(lanes[k].well_formed());
}

/// What the planner may return for `start` and `end`: a shortest route where
/// one exists, and nothing otherwise.
pub open spec fn planned(
    lanes: Seq<Lane>,
    start: u32,
    end: u32,
    found: Option<Seq<Lane>>,
) -> bool {
    match found {
        Some(route) => is_route(lanes, route, start, end) && shortest(lanes, route, start, end),
        None => !connected(lanes, start, end),
    }
}

/// Planning twice between the same intersections of the same table gives
/// routes of the same length: both plans find a route or neither does, and
/// two routes found have equal lengths.
pub proof fn lemma_plans_agree(
    lanes: Seq<Lane>,
    start: u32,
    end: u32,
    first: Option<Seq<Lane>>,
    second: Option<Seq<Lane>>,
)
    requires
        planned(lanes, start, end, first),
        planned(lanes, start, end, second),
    ensures
        first is Some <==> second is Some,
        first is Some ==> route_length(first->0) == route_length(second->0),
{
}

/// A plan from an intersection to itself is the empty route, whatever else
/// the table offers.
pub proof fn lemma_plan_to_self_is_empty(lanes: Seq<Lane>, at: u32, found: Option<Seq<Lane>>)
    requires
        table_valid(lanes),
        planned(lanes, at, at, found),
    ensures
        found == Some(Seq::<Lane>::empty()),
{
    let nothing = Seq::<Lane>::empty();
    assert(is_route(lanes, nothing, at, at));
    let route = found->0;
    if route.len() > 0 {
        lemma_positive_route_length(lanes, route, at, at);
    }
    assert(route =~= nothing);
}

/// Number of slots of the search tables: one per intersection, and slot 0,
/// which stays unused.
const SLOTS: usize = 17;

/// Marks an intersection that no route has reached yet.
const UNREACHED: u64 = 0xffff_ffff_ffff_ffff;

/// What the search knows after some intersections were settled.
///
/// `dist[v]` is the length of the best route to `v` found so far, `done[v]`
/// says that `v` is settled. Settled intersections are no farther than open
/// ones, and every lane that leaves a settled intersection, other than the
/// first `pending_from` lanes out of `pending`, has been followed.
spec fn search_state(
    lanes: Seq<Lane>,
    start: u32,
    dist: Seq<u64>,
    done: Seq<bool>,
    pending: int,
    pending_from: int,
) -> bool {
    &&& dist.len() == SLOTS
    &&& done.len() == SLOTS
    &&& 1 <= start < SLOTS
    &&& dist[start as int] == 0
    &&& forall|v: int| 0 <= v < SLOTS && #[trigger] done[v] ==> dist[v] <= 17 * 0xffff_ffff
    &&& forall|a: int, b: int|
        0 <= a < SLOTS && 0 <= b < SLOTS && #[trigger] done[a] && !#[trigger] done[b] ==> dist[a]
            <= dist[b]
    &&& forall|k: int|
        0 <= k < lanes.len() && (#[trigger] lanes[k]).category == LaneCategory::Internal
            && done[lanes[k].start_intersection as int] && (lanes[k].start_intersection != pending
            || k < pending_from) ==> dist[lanes[k].end_intersection as int]
            <= dist[lanes[k].start_intersection as int] + lanes[k].length
}

/// Every route from `start` is at least as long as the search's distance to
/// its end, if that end is settled, and at least as long as the distance to
/// the nearest open intersection `nearest` otherwise.
proof fn lemma_lower_bound(
    lanes: Seq<Lane>,
    start: u32,
    dist: Seq<u64>,
    done: Seq<bool>,
    nearest: int,
    route: Seq<Lane>,
    end: u32,
)
    requires
        table_valid(lanes),
        search_state(lanes, start, dist, done, 0, 0),
        0 <= nearest < SLOTS,
        !done[nearest],
        forall|v: int| 0 <= v < SLOTS && !#[trigger] done[v] ==> dist[nearest] <= dist[v],
        is_route(lanes, route, start, end),
    ensures
        0 <= end < SLOTS,
        done[end as int] ==> route_length(route) >= dist[end as int],
        !done[end as int] ==> route_length(route) >= dist[nearest],
    decreases route.len(),
{
    if route.len() > 0 {
        let last = route.last();
        lemma_route_drop_last(lanes, route, start, end);
        lemma_lower_bound(
            lanes,
            start,
            dist,
            done,
            nearest,
            route.drop_last(),
            last.start_intersection,
        );
        let k = choose|k: int| 0 <= k < lanes.len() && lanes[k] == last;
        assert(lanes[k].well_formed());
        assert(lanes[k].category == LaneCategory::Internal);
    }
}

/// Once no open intersection has been reached, every route from `start`
/// ends at a settled intersection.
proof fn lemma_closed(
    lanes: Seq<Lane>,
    start: u32,
    dist: Seq<u64>,
    done: Seq<bool>,
    route: Seq<Lane>,
    end: u32,
)
    requires
        table_valid(lanes),
        search_state(lanes, start, dist, done, 0, 0),
        forall|v: int| 0 <= v < SLOTS && !#[trigger] done[v] ==> dist[v] == UNREACHED,
        is_route(lanes, route, start, end),
    ensures
        0 <= end < SLOTS,
        done[end as int],
    decreases route.len(),
{
    if route.len() > 0 {
        let last = route.last();
        lemma_route_drop_last(lanes, route, start, end);
        lemma_closed(lanes, start, dist, done, route.drop_last(), last.start_intersection);
        let k = choose|k: int| 0 <= k < lanes.len() && lanes[k] == last;
        assert(lanes[k].well_formed());
        assert(lanes[k].category == LaneCategory::Internal);
    }
}

/// No route starts or ends at something that is not an intersection, unless
/// it is empty.
proof fn lemma_route_ends_in_grid(lanes: Seq<Lane>, route: Seq<Lane>, start: u32, end: u32)
    requires
        table_valid(lanes),
        is_route(lanes, route, start, end),
        start != end,
    ensures
        1 <= start < SLOTS,
        1 <= end < SLOTS,
{
    let first = route[0];
    let last = route.last();
    assert(usable(lanes, route[0]));
    assert(usable(lanes, route[route.len() - 1]));
    let a = choose|a: int| 0 <= a < lanes.len() && lanes[a] == first;
    let b = choose|b: int| 0 <= b < lanes.len() && lanes[b] == last;
    assert(lanes[a].well_formed());
    assert(lanes[b].well_formed());
}

/// The open intersection that is nearest to the start, among those reached.
fn nearest_open(dist: &Vec<u64>, done: &Vec<bool>) -> (found: Option<usize>)
    requires
        dist@.len() == SLOTS,
        done@.len() == SLOTS,
    ensures
        match found {
            Some(u) => {
                &&& u < SLOTS
                &&& !done@[u as int]
                &&& dist@[u as int] < UNREACHED
                &&& forall|v: int| 0 <= v < SLOTS && !#[trigger] done@[v] ==> dist@[u as int] <= dist@[v]
            },
            None => forall|v: int| 0 <= v < SLOTS && !#[trigger] done@[v] ==> dist@[v] == UNREACHED,
        },
{
    let mut best: Option<usize> = None;
    let mut least: u64 = UNREACHED;
    let mut v: usize = 0;
    while v < SLOTS
        invariant
            v <= SLOTS,
            dist@.len() == SLOTS,
            done@.len() == SLOTS,
            forall|w: int| 0 <= w < v && !#[trigger] done@[w] ==> least <= dist@[w],
            match best {
                Some(u) => u < v && !done@[u as int] && dist@[u as int] == least && least
                    < UNREACHED,
                None => least == UNREACHED,
            },
        decreases SLOTS - v,
    {
        if !done[v] && dist[v] < least {
            least = dist[v];
            best = Some(v);
        }
        v += 1;
    }
    best
}

/// A copy of `route`.
fn copy_route(route: &Vec<Lane>) -> (copy: Vec<Lane>)
    ensures
        copy@ == route@,
{
    let mut copy: Vec<Lane> = Vec::new();
    let mut i: usize = 0;
    while i < route.len()
        invariant
            i <= route.len(),
            copy@ == route@.take(i as int),
        decreases route.len() - i,
    {
        copy.push(route[i]);
        assert(route@.take(i + 1) =~= route@.take(i as int).push(route@[i as int]));
        i += 1;
    }
    assert(route@.take(i as int) =~= route@);
    copy
}

/// The routes that the search holds: for every intersection reached, a
/// route to it whose length is the search's distance.
spec fn routes_match(
    lanes: Seq<Lane>,
    start: u32,
    dist: Seq<u64>,
    routes: Seq<Vec<Lane>>,
    bound: int,
) -> bool {
    &&& routes.len() == SLOTS
    &&& forall|v: int|
        0 <= v < SLOTS && (#[trigger] dist[v]) < UNREACHED ==> {
            &&& is_route(lanes, routes[v]@, start, v as u32)
            &&& route_length(routes[v]@) == dist[v]
            &&& dist[v] <= bound * 0xffff_ffff
        }
}

/// Follows every internal lane that leaves the newly settled intersection
/// `u`, and keeps the shorter route wherever one is found.
fn follow_lanes(
    lanes: &Vec<Lane>,
    start: u32,
    u: usize,
    settled: usize,
    dist: &mut Vec<u64>,
    done: &Vec<bool>,
    routes: &mut Vec<Vec<Lane>>,
)
    requires
        table_valid(lanes@),
        1 <= u < SLOTS,
        settled < SLOTS,
        done@[u as int],
        search_state(lanes@, start, old(dist)@, done@, u as int, 0),
        routes_match(lanes@, start, old(dist)@, old(routes)@, settled as int),
        old(dist)@[u as int] < UNREACHED,
        forall|a: int| 0 <= a < SLOTS && #[trigger] done@[a] ==> old(dist)@[a] <= old(dist)@[u as int],
    ensures
        search_state(lanes@, start, final(dist)@, done@, 0, 0),
        routes_match(lanes@, start, final(dist)@, final(routes)@, settled + 1),
        forall|v: int| 0 <= v < SLOTS && #[trigger] done@[v] ==> final(dist)@[v] == old(dist)@[v],
        forall|v: int| 0 <= v < SLOTS ==> #[trigger] final(dist)@[v] <= old(dist)@[v],
{
    let reach: u64 = dist[u];
    let mut k: usize = 0;
    while k < lanes.len()
        invariant
            k <= lanes.len(),
            table_valid(lanes@),
            1 <= u < SLOTS,
            settled < SLOTS,
            done@[u as int],
            dist@[u as int] == reach,
            reach <= settled * 0xffff_ffff,
            old(dist)@.len() == SLOTS,
            forall|a: int| 0 <= a < SLOTS && #[trigger] done@[a] ==> dist@[a] <= reach,
            search_state(lanes@, start, dist@, done@, u as int, k as int),
            routes_match(lanes@, start, dist@, routes@, settled + 1),
            forall|v: int| 0 <= v < SLOTS && #[trigger] done@[v] ==> dist@[v] == old(dist)@[v],
            forall|v: int| 0 <= v < SLOTS ==> #[trigger] dist@[v] <= old(dist)@[v],
        decreases lanes.len() - k,
    {
        let lane: Lane = lanes[k];
        proof {
            assert(lanes@[k as int].well_formed());
        }
        if lane.category == LaneCategory::Internal && lane.start_intersection as usize == u {
            let v: usize = lane.end_intersection as usize;
            let candidate: u64 = reach + lane.length as u64;
            if candidate < dist[v] {
                let longer: Vec<Lane> = extended(&routes[u], lane);
                proof {
                    assert(lanes@.contains(lane));
                    lemma_route_push(lanes@, routes@[u as int]@, start, lane);
                    lemma_route_length_push(routes@[u as int]@, lane);
                    assert(candidate <= (settled + 1) * 0xffff_ffff) by (nonlinear_arith)
                        requires
                            candidate == reach + lane.length,
                            reach <= settled * 0xffff_ffff,
                            lane.length <= 0xffff_ffff,
                    ;
                }
                let ghost before = dist@;
                dist.set(v, candidate);
                routes.set(v, longer);
                proof {
                    assert(!done@[v as int]);
                    assert forall|j: int|
                        0 <= j < lanes@.len() && (#[trigger] lanes@[j]).category
                            == LaneCategory::Internal && done@[lanes@[j].start_intersection as int]
                            && (lanes@[j].start_intersection != u || j < k + 1) implies dist@[lanes@[j].end_intersection as int]
                        <= dist@[lanes@[j].start_intersection as int] + lanes@[j].length by {
                        assert(lanes@[j].well_formed());
                        if j < k || lanes@[j].start_intersection != u {
                            assert(before[lanes@[j].end_intersection as int]
                                <= before[lanes@[j].start_intersection as int] + lanes@[j].length);
                        }
                    }
                }
            }
        }
        k += 1;
    }
}

/// `route` with `lane` appended.
fn extended(route: &Vec<Lane>, lane: Lane) -> (longer: Vec<Lane>)
    ensures
        longer@ == route@.push(lane),
{
    let mut longer: Vec<Lane> = copy_route(route);
    longer.push(lane);
    longer
}

/// Plans a route from intersection `start` to intersection `end` over the
/// internal lanes of `lanes`.
///
/// Returns a shortest route where one exists, the empty route where `start`
/// and `end` coincide, and nothing where no chain of internal lanes leads
/// from `start` to `end`. Which of several shortest routes is returned is
/// not part of the contract.
///
/// The search settles intersections in order of their distance from
/// `start`, and stops when `end` is the nearest open intersection.
pub fn find_lane_path(start: u32, end: u32, lanes: &Vec<Lane>) -> (found: Option<Vec<Lane>>)
    requires
        table_valid(lanes@),
    ensures
        found is Some <==> connected(lanes@, start, end),
        found matches Some(route) ==> is_route(lanes@, route@, start, end) && shortest(
            lanes@,
            route@,
            start,
            end,
        ),
        start == end ==> (found matches Some(route) && route@.len() == 0),
        planned(
            lanes@,
            start,
            end,
            match found {
                Some(route) => Some(route@),
                None => None,
            },
        ),
{
    if start == end {
        let route: Vec<Lane> = Vec::new();
        proof {
            assert(is_route(lanes@, route@, start, end));
            assert forall|other: Seq<Lane>| #[trigger]
                is_route(lanes@, other, start, end) implies route_length(route@) <= route_length(
                other,
            ) by {
                lemma_route_length_nonnegative(other);
            }
        }
        return Some(route);
    }
    if start < 1 || start > INTERSECTION_COUNT || end < 1 || end > INTERSECTION_COUNT {
        proof {
            assert forall|other: Seq<Lane>| !is_route(lanes@, other, start, end) by {
                if is_route(lanes@, other, start, end) {
                    lemma_route_ends_in_grid(lanes@, other, start, end);
                }
            }
        }
        return None;
    }
    let mut dist: Vec<u64> = Vec::new();
    let mut done: Vec<bool> = Vec::new();
    let mut routes: Vec<Vec<Lane>> = Vec::new();
    let mut v: usize = 0;
    while v < SLOTS
        invariant
            v <= SLOTS,
            dist@.len() == v,
            done@.len() == v,
            routes@.len() == v,
            1 <= start < SLOTS,
            forall|w: int| 0 <= w < v ==> !#[trigger] done@[w],
            forall|w: int| 0 <= w < v ==> #[trigger] dist@[w] == (if w == start { 0 } else { UNREACHED }),
            forall|w: int| 0 <= w < v ==> (#[trigger] routes@[w])@.len() == 0,
        decreases SLOTS - v,
    {
        dist.push(if v == start as usize { 0 } else { UNREACHED });
        done.push(false);
        routes.push(Vec::new());
        v += 1;
    }
    proof {
        assert(is_route(lanes@, routes@[start as int]@, start, start));
    }
    let mut settled: usize = 0;
    proof {
        lemma_no_flag_set(done@);
    }
    loop
        invariant
            settled <= SLOTS,
            table_valid(lanes@),
            1 <= start < SLOTS,
            1 <= end < SLOTS,
            start != end,
            !done@[end as int],
            search_state(lanes@, start, dist@, done@, 0, 0),
            routes_match(lanes@, start, dist@, routes@, settled as int),
            forall|w: int| 0 <= w < SLOTS && #[trigger] done@[w] ==> dist@[w] < UNREACHED,
            settled == set_flags(done@),
        decreases SLOTS - settled,
    {
        let pick: Option<usize> = nearest_open(&dist, &done);
        match pick {
            None => {
                proof {
                    assert forall|other: Seq<Lane>| !is_route(lanes@, other, start, end) by {
                        if is_route(lanes@, other, start, end) {
                            lemma_closed(lanes@, start, dist@, done@, other, end);
                        }
                    }
                }
                return None;
            },
            Some(u) => {
                if u == end as usize {
                    let route: Vec<Lane> = copy_route(&routes[u]);
                    proof {
                        assert(dist@[u as int] < UNREACHED);
                        assert forall|other: Seq<Lane>| #[trigger]
                            is_route(lanes@, other, start, end) implies route_length(route@)
                            <= route_length(other) by {
                            lemma_lower_bound(lanes@, start, dist@, done@, u as int, other, end);
                        }
                    }
                    return Some(route);
                }
                proof {
                    assert(u != 0) by {
                        // Slot 0 is never reached: no internal lane ends outside the grid.
                        if u == 0 {
                            lemma_route_ends_in_grid(lanes@, routes@[0]@, start, 0u32);
                        }
                    }
                    lemma_set_one_flag(done@, u as int);
                }
                done.set(u, true);
                follow_lanes(lanes, start, u, settled, &mut dist, &done, &mut routes);
                settled += 1;
            },
        }
    }
}

/// Number of flags that are set.
spec fn set_flags(flags: Seq<bool>) -> nat
    decreases flags.len(),
{
    if flags.len() == 0 {
        0
    } else {
        set_flags(flags.drop_last()) + if flags.last() {
            1nat
        } else {
            0nat
        }
    }
}

/// Where no flag is set, the number of set flags is zero.
proof fn lemma_no_flag_set(flags: Seq<bool>)
    requires
        forall|i: int| 0 <= i < flags.len() ==> !#[trigger] flags[i],
    ensures
        set_flags(flags) == 0,
    decreases flags.len(),
{
    if flags.len() > 0 {
        lemma_no_flag_set(flags.drop_last());
    }
}

/// No more flags are set than there are flags.
proof fn lemma_set_flags_bounded(flags: Seq<bool>)
    ensures
        set_flags(flags) <= flags.len(),
    decreases flags.len(),
{
    if flags.len() > 0 {
        lemma_set_flags_bounded(flags.drop_last());
    }
}

/// Setting a flag that was clear raises the number of set flags by one; that
/// number was below the number of flags.
proof fn lemma_set_one_flag(flags: Seq<bool>, at: int)
    requires
        0 <= at < flags.len(),
        !flags[at],
    ensures
        set_flags(flags.update(at, true)) == set_flags(flags) + 1,
        set_flags(flags) < flags.len(),
    decreases flags.len(),
{
    let updated = flags.update(at, true);
    if at == flags.len() - 1 {
        assert(updated.drop_last() =~= flags.drop_last());
        lemma_set_flags_bounded(flags.drop_last());
    } else {
        assert(updated.drop_last() =~= flags.drop_last().update(at, true));
        lemma_set_one_flag(flags.drop_last(), at);
    }
}

} // verus!
