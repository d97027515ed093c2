//! What holds of the lanes that a vehicle counts itself onto and off.

use crate::events::TrafficUpdate;
use crate::lanes::Lane;
use crate::occupancy::{count_on, entered, left, OccupancyError};
use crate::vehicle::{event_in, next_stage, LaneEvent, Stage};
use vstd::prelude::*;

verus! {

/// How often the events count a vehicle onto lane `id`.
pub open spec fn entries(events: Seq<LaneEvent>, id: u32) -> nat
    decreases events.len(),
{
    if events.len() == 0 {
        0
    } else {
        entries(events.drop_last(), id) + if events.last() == LaneEvent::Entered(id) {
            1nat
        } else {
            0nat
        }
    }
}

/// How often the events count a vehicle off lane `id`.
pub open spec fn exits(events: Seq<LaneEvent>, id: u32) -> nat
    decreases events.len(),
{
    if events.len() == 0 {
        0
    } else {
        exits(events.drop_last(), id) + if events.last() == LaneEvent::Left(id) {
            1nat
        } else {
            0nat
        }
    }
}

/// The events of driving the first `n` lanes of a route: each lane entered,
/// then left.
pub open spec fn visits(route: Seq<Lane>, n: int) -> Seq<LaneEvent>
    decreases n,
{
    if n <= 0 {
        Seq::empty()
    } else {
        visits(route, n - 1).push(LaneEvent::Entered(route[n - 1].id)).push(
            LaneEvent::Left(route[n - 1].id),
        )
    }
}

/// The stage of a vehicle on a route of `lanes` lanes after one turn for
/// each of `greens`, which say what the signal showed where the vehicle
/// looked at one.
pub open spec fn stage_after(lanes: int, greens: Seq<bool>) -> Stage
    decreases greens.len(),
{
    if greens.len() == 0 {
        Stage::Start
    } else {
        next_stage(stage_after(lanes, greens.drop_last()), lanes, greens.last())
    }
}

/// The lanes that a vehicle has counted itself onto and off in these turns,
/// in order.
pub open spec fn events_after(route: Seq<Lane>, greens: Seq<bool>) -> Seq<LaneEvent>
    decreases greens.len(),
{
    if greens.len() == 0 {
        Seq::empty()
    } else {
        let before = events_after(route, greens.drop_last());
        match event_in(stage_after(route.len() as int, greens.drop_last()), route) {
            Some(event) => before.push(event),
            None => before,
        }
    }
}

/// What a vehicle in `stage` has done: the lanes before its own entered
/// and left, and its own lane entered if it waits on it or drives it.
pub open spec fn done_by(route: Seq<Lane>, stage: Stage) -> Seq<LaneEvent> {
    match stage {
        Stage::Start => Seq::empty(),
        Stage::Enter(i) => visits(route, i as int),
        Stage::Wait(i) | Stage::Leave(i) => visits(route, i as int).push(
            LaneEvent::Entered(route[i as int].id),
        ),
        Stage::Exit | Stage::Finish | Stage::Done => visits(route, route.len() as int),
    }
}

/// The stage reached names a lane of the route.
pub open spec fn on_route(route: Seq<Lane>, stage: Stage) -> bool {
    match stage {
        Stage::Enter(i) | Stage::Wait(i) | Stage::Leave(i) => i < route.len(),
        _ => true,
    }
}

/// Whatever the signals show, the events of a journey are those of its
/// stage: lanes are entered and left in route order, one at a time.
pub proof fn lemma_journey_events(route: Seq<Lane>, greens: Seq<bool>)
    requires
        route.len() <= usize::MAX,
    ensures
        on_route(route, stage_after(route.len() as int, greens)),
        events_after(route, greens) == done_by(route, stage_after(route.len() as int, greens)),
    decreases greens.len(),
{
    if greens.len() > 0 {
        lemma_journey_events(route, greens.drop_last());
        let before = stage_after(route.len() as int, greens.drop_last());
        match before {
            Stage::Leave(i) => {
                assert(visits(route, i + 1) == visits(route, i as int).push(
                    LaneEvent::Entered(route[i as int].id),
                ).push(LaneEvent::Left(route[i as int].id)));
            },
            Stage::Start => {
                assert(visits(route, 0) =~= Seq::<LaneEvent>::empty());
            },
            _ => {},
        }
    }
}

/// Counting onto a sequence with one more event.
pub proof fn lemma_counts_push(events: Seq<LaneEvent>, event: LaneEvent, id: u32)
    ensures
        entries(events.push(event), id) == entries(events, id) + if event == LaneEvent::Entered(
            id,
        ) {
            1nat
        } else {
            0nat
        },
        exits(events.push(event), id) == exits(events, id) + if event == LaneEvent::Left(id) {
            1nat
        } else {
            0nat
        },
{
    assert(events.push(event).drop_last() =~= events);
}

/// Complete visits enter each lane as often as they leave it.
pub proof fn lemma_visits_balanced(route: Seq<Lane>, n: int, id: u32)
    ensures
        entries(visits(route, n), id) == exits(visits(route, n), id),
    decreases n,
{
    if n > 0 {
        lemma_visits_balanced(route, n - 1, id);
        let inner = visits(route, n - 1);
        let entered = LaneEvent::Entered(route[n - 1].id);
        let left = LaneEvent::Left(route[n - 1].id);
        lemma_counts_push(inner, entered, id);
        lemma_counts_push(inner.push(entered), left, id);
    }
}

/// Conservation: at every moment of a journey a vehicle has left each lane
/// at most as often as it has entered it, and is on a lane at most once;
/// when the journey is over it has left every lane as often as it has
/// entered it.
pub proof fn lemma_conservation(route: Seq<Lane>, greens: Seq<bool>, id: u32)
    requires
        route.len() <= usize::MAX,
    ensures
        exits(events_after(route, greens), id) <= entries(events_after(route, greens), id)
            <= exits(events_after(route, greens), id) + 1,
        stage_after(route.len() as int, greens) == Stage::Done ==> entries(
            events_after(route, greens),
            id,
        ) == exits(events_after(route, greens), id),
{
    lemma_journey_events(route, greens);
    let stage = stage_after(route.len() as int, greens);
    match stage {
        Stage::Start => {},
        Stage::Enter(i) => {
            lemma_visits_balanced(route, i as int, id);
        },
        Stage::Wait(i) | Stage::Leave(i) => {
            lemma_visits_balanced(route, i as int, id);
            lemma_counts_push(visits(route, i as int), LaneEvent::Entered(route[i as int].id), id);
        },
        Stage::Exit | Stage::Finish | Stage::Done => {
            lemma_visits_balanced(route, route.len() as int, id);
        },
    }
}

/// A vehicle that was counted onto a lane is counted off it again, and
/// then every lane holds as many vehicles as before.
pub proof fn lemma_visit_keeps_counts(
    before: Map<u32, u32>,
    between: Map<u32, u32>,
    after: Map<u32, u32>,
    id: u32,
    entered_at: u64,
    left_at: u64,
    first: Result<TrafficUpdate, OccupancyError>,
    second: Result<TrafficUpdate, OccupancyError>,
)
    requires
        entered(before, between, id, entered_at, first),
        first is Ok,
        left(between, after, id, left_at, second),
    ensures
        second is Ok,
        forall|lane: u32| count_on(after, lane) == count_on(before, lane),
{
}

} // verus!
