//! A vehicle's journey from an entry lane to an exit lane.
//!
//! The journey is a sequence of turns. In each turn the vehicle does what
//! its stage calls for (counts itself onto or off a lane, looks at a
//! signal, writes a log line) and says how long to pause before its next
//! turn. Speeds are in millimetres per second, times in milliseconds.

use crate::events::{LogEvent, TrafficUpdate};
use crate::lanes::{table_valid, Lane};
use crate::occupancy::{enter_lane, entered, leave_lane, left, OccupancyError};
use crate::routing::{find_lane_path, planned};
use crate::signals::{can_proceed_lane, shows_green, LightColor};
use crate::text::{
    append_bracketed, append_decimal, append_two_decimals, bracketed, decimal, two_decimals,
};
use std::collections::HashMap;
use vstd::prelude::*;
use vstd::string::StringExecFns;

verus! {

/// Milliseconds between two looks at a red signal.
pub const POLL_MS: u64 = 100;

/// The least speed of a vehicle, in millimetres per second.
pub const MIN_SPEED: u32 = 70_000;

/// The greatest speed of a vehicle, in millimetres per second.
pub const MAX_SPEED: u32 = 90_000;

/// What a vehicle does in its next turn.
#[derive(Clone, Copy, Debug, PartialEq, Eq, Structural)]
pub enum Stage {
    /// Announce itself and drive the entry lane.
    Start,
    /// Count itself onto the route's lane of this index.
    Enter(usize),
    /// Look at the signal of the route's lane of this index.
    Wait(usize),
    /// Count itself off the route's lane of this index.
    Leave(usize),
    /// Drive the exit lane.
    Exit,
    /// Report the journey.
    Finish,
    /// Nothing: the journey is over.
    Done,
}

/// A vehicle counting itself onto or off a lane.
#[derive(Clone, Copy, Debug, PartialEq, Eq, Structural)]
pub enum LaneEvent {
    Entered(u32),
    Left(u32),
}

/// What a journey took, in milliseconds.
#[derive(Clone, Copy, Debug, PartialEq, Eq, Structural)]
pub struct CarMetrics {
    pub id: u32,
    pub wait_time: u64,
    pub drive_time: u64,
    pub total_time: u64,
}

/// What a turn asks of whoever drives the vehicle: what to publish, and
/// how long to pause before the next turn.
#[derive(Debug, Clone, PartialEq, Eq)]
pub struct Turn {
    /// The lane that the vehicle counted itself onto or off, if it did.
    pub event: Option<LaneEvent>,
    /// The lane's new count, where the count was changed.
    pub update: Option<TrafficUpdate>,
    /// Why the count was left as it was, where it was.
    pub fault: Option<OccupancyError>,
    /// A line for the log.
    pub log: Option<LogEvent>,
    /// Milliseconds to pause.
    pub sleep_ms: u64,
}

/// A vehicle on its journey.
pub struct Vehicle {
    pub car_id: u32,
    /// Millimetres per second.
    pub speed: u32,
    pub input_lane: Lane,
    pub exit_lane: Lane,
    /// The internal lanes between the entry lane and the exit lane.
    pub route: Vec<Lane>,
    pub stage: Stage,
    /// Milliseconds spent before red signals.
    pub wait_ms: u64,
    /// Milliseconds spent driving.
    pub drive_ms: u64,
}

/// Milliseconds that a lane of `length` metres takes at `speed` millimetres
/// per second, rounded down.
pub open spec fn travel_ms(length: u32, speed: u32) -> int {
    (length * 1_000_000) / (speed as int)
}

/// `total`, or the largest number held where `total` is larger.
pub open spec fn capped(total: int) -> u64 {
    if total > u64::MAX {
        u64::MAX
    } else {
        total as u64
    }
}

/// The stage after a turn in `stage`, on a route of `lanes` lanes, where
/// `green` says that the signal looked at showed green.
pub open spec fn next_stage(stage: Stage, lanes: int, green: bool) -> Stage {
    match stage {
        Stage::Start => if lanes > 0 {
            Stage::Enter(0)
        } else {
            Stage::Exit
        },
        Stage::Enter(i) => Stage::Wait(i),
        Stage::Wait(i) => if green {
            Stage::Leave(i)
        } else {
            Stage::Wait(i)
        },
        Stage::Leave(i) => if i + 1 < lanes {
            Stage::Enter((i + 1) as usize)
        } else {
            Stage::Exit
        },
        Stage::Exit => Stage::Finish,
        Stage::Finish => Stage::Done,
        Stage::Done => Stage::Done,
    }
}

/// The lane that a vehicle counts itself onto or off in a turn in `stage`.
pub open spec fn event_in(stage: Stage, route: Seq<Lane>) -> Option<LaneEvent> {
    match stage {
        Stage::Enter(i) => Some(LaneEvent::Entered(route[i as int].id)),
        Stage::Leave(i) => Some(LaneEvent::Left(route[i as int].id)),
        _ => None,
    }
}

/// The identifiers of the lanes of a route.
pub open spec fn route_ids(route: Seq<Lane>) -> Seq<u32> {
    route.map_values(|lane: Lane| lane.id)
}

/// The name under which a vehicle writes to the log.
pub open spec fn car_source(car_id: u32) -> Seq<char> {
    "Car-"@ + decimal(car_id as nat)
}

/// The line with which a vehicle announces itself.
pub open spec fn spawn_text(speed: u32, input: Lane, exit: Lane, route: Seq<Lane>) -> Seq<char> {
    "Generated vehicle with speed "@ + two_decimals(speed as nat) + " m/s; Entry Lane "@ + decimal(
        input.id as nat,
    ) + " (Inter. "@ + decimal(input.end_intersection as nat) + "), Exit Lane "@ + decimal(
        exit.id as nat,
    ) + " (Inter. "@ + decimal(exit.start_intersection as nat) + "); Lane Route: "@ + bracketed(
        route_ids(route),
    )
}

/// The line with which a vehicle reports its journey.
pub open spec fn completion_text(wait_ms: u64, drive_ms: u64) -> Seq<char> {
    "Completed journey: Wait="@ + two_decimals(wait_ms as nat) + "s, Drive="@ + two_decimals(
        drive_ms as nat,
    ) + "s, Total="@ + two_decimals(capped(wait_ms + drive_ms) as nat) + "s"@
}

impl Vehicle {
    /// The vehicle moves, and its stage names a lane of its route.
    pub open spec fn wf(self) -> bool {
        &&& self.speed > 0
        &&& match self.stage {
            Stage::Enter(i) | Stage::Wait(i) | Stage::Leave(i) => i < self.route@.len(),
            _ => true,
        }
    }

    /// The vehicle looks at a signal in its next turn and will see green.
    pub open spec fn sees_green(self, lights: Map<u32, LightColor>) -> bool {
        self.stage matches Stage::Wait(i) && shows_green(lights, self.route@[i as int].id)
    }

    /// Milliseconds of driving that the next turn starts.
    pub open spec fn driving(self, green: bool) -> int {
        match self.stage {
            Stage::Start => travel_ms(self.input_lane.length, self.speed),
            Stage::Wait(i) => if green {
                travel_ms(self.route@[i as int].length, self.speed)
            } else {
                0
            },
            Stage::Exit => travel_ms(self.exit_lane.length, self.speed),
            _ => 0,
        }
    }

    /// Milliseconds of waiting that the next turn starts.
    pub open spec fn waiting(self, green: bool) -> int {
        match self.stage {
            Stage::Wait(_) => if green {
                0
            } else {
                POLL_MS as int
            },
            _ => 0,
        }
    }

    /// The vehicle after its next turn.
    pub open spec fn after_turn(self, green: bool) -> Vehicle {
        Vehicle {
            stage: next_stage(self.stage, self.route@.len() as int, green),
            wait_ms: capped(self.wait_ms + self.waiting(green)),
            drive_ms: capped(self.drive_ms + self.driving(green)),
            ..self
        }
    }

    /// The line that the next turn writes to the log, if it writes one.
    pub open spec fn log_text(self) -> Option<Seq<char>> {
        match self.stage {
            Stage::Start => Some(
                spawn_text(self.speed, self.input_lane, self.exit_lane, self.route@),
            ),
            Stage::Finish => Some(completion_text(self.wait_ms, self.drive_ms)),
            _ => None,
        }
    }

    /// A vehicle at the start of its journey.
    pub fn new(car_id: u32, speed: u32, input_lane: Lane, exit_lane: Lane, route: Vec<Lane>) -> (v:
        Vehicle)
        requires
            speed > 0,
        ensures
            v.wf(),
            v.car_id == car_id,
            v.speed == speed,
            v.input_lane == input_lane,
            v.exit_lane == exit_lane,
            v.route == route,
            v.stage == Stage::Start,
            v.wait_ms == 0,
            v.drive_ms == 0,
    {
        Vehicle { car_id, speed, input_lane, exit_lane, route, stage: Stage::Start, wait_ms: 0, drive_ms: 0 }
    }

    /// Whether the journey is over.
    pub fn is_done(&self) -> (done: bool)
        ensures
            done == (self.stage == Stage::Done),
    {
        match self.stage {
            Stage::Done => true,
            _ => false,
        }
    }

    /// What the journey has taken so far.
    pub fn metrics(&self) -> (m: CarMetrics)
        ensures
            m == (CarMetrics {
                id: self.car_id,
                wait_time: self.wait_ms,
                drive_time: self.drive_ms,
                total_time: capped(self.wait_ms + self.drive_ms),
            }),
    {
        CarMetrics {
            id: self.car_id,
            wait_time: self.wait_ms,
            drive_time: self.drive_ms,
            total_time: self.wait_ms.saturating_add(self.drive_ms),
        }
    }

    /// Takes the vehicle's next turn at time `now`.
    ///
    /// The vehicle counts itself onto or off a lane in `occupancy` where
    /// its stage calls for it, and looks up its lane's signal in `lights`
    /// where it waits for green. In every other turn `occupancy` stays as
    /// it is.
    pub fn step(
        &mut self,
        occupancy: &mut HashMap<u32, u32>,
        lights: &HashMap<u32, LightColor>,
        now: u64,
    ) -> (turn: Turn)
        requires
            old(self).wf(),
        ensures
            final(self).wf(),
            *final(self) == old(self).after_turn(old(self).sees_green(lights@)),
            turn.event == event_in(old(self).stage, old(self).route@),
            turn.sleep_ms == capped(
                old(self).driving(old(self).sees_green(lights@)) + old(self).waiting(
                    old(self).sees_green(lights@),
                ),
            ),
            match old(self).stage {
                Stage::Enter(i) => entered(
                    old(occupancy)@,
                    final(occupancy)@,
                    old(self).route@[i as int].id,
                    now,
                    match turn.update {
                        Some(update) => Ok(update),
                        None => Err(OccupancyError::Full),
                    },
                ) && (turn.update is None <==> turn.fault == Some(OccupancyError::Full)),
                Stage::Leave(i) => left(
                    old(occupancy)@,
                    final(occupancy)@,
                    old(self).route@[i as int].id,
                    now,
                    match turn.update {
                        Some(update) => Ok(update),
                        None => Err(OccupancyError::Empty),
                    },
                ) && (turn.update is None <==> turn.fault == Some(OccupancyError::Empty)),
                _ => final(occupancy)@ == old(occupancy)@ && turn.update is None && turn.fault
                    is None,
            },
            match old(self).log_text() {
                Some(text) => turn.log matches Some(line) && line.source@ == car_source(
                    old(self).car_id,
                ) && line.message@ == text && line.timestamp == now,
                None => turn.log is None,
            },
    {
        let mut turn: Turn = Turn { event: None, update: None, fault: None, log: None, sleep_ms: 0 };
        match self.stage {
            Stage::Start => {
                turn.log = Some(self.spawn_log(now));
                let pause: u64 = travel_time(self.input_lane.length, self.speed);
                self.drive_ms = self.drive_ms.saturating_add(pause);
                turn.sleep_ms = pause;
                self.stage = if self.route.len() > 0 {
                    Stage::Enter(0)
                } else {
                    Stage::Exit
                };
            },
            Stage::Enter(i) => {
                let id: u32 = self.route[i].id;
                turn.event = Some(LaneEvent::Entered(id));
                match enter_lane(occupancy, id, now) {
                    Ok(update) => {
                        turn.update = Some(update);
                    },
                    Err(fault) => {
                        turn.fault = Some(fault);
                    },
                }
                self.stage = Stage::Wait(i);
            },
            Stage::Wait(i) => {
                let lane: Lane = self.route[i];
                if can_proceed_lane(lane.id, lights) {
                    let pause: u64 = travel_time(lane.length, self.speed);
                    self.drive_ms = self.drive_ms.saturating_add(pause);
                    turn.sleep_ms = pause;
                    self.stage = Stage::Leave(i);
                } else {
                    self.wait_ms = self.wait_ms.saturating_add(POLL_MS);
                    turn.sleep_ms = POLL_MS;
                }
            },
            Stage::Leave(i) => {
                let id: u32 = self.route[i].id;
                turn.event = Some(LaneEvent::Left(id));
                match leave_lane(occupancy, id, now) {
                    Ok(update) => {
                        turn.update = Some(update);
                    },
                    Err(fault) => {
                        turn.fault = Some(fault);
                    },
                }
                let lanes: usize = self.route.len();
                self.stage = if i + 1 < lanes {
                    Stage::Enter(i + 1)
                } else {
                    Stage::Exit
                };
            },
            Stage::Exit => {
                let pause: u64 = travel_time(self.exit_lane.length, self.speed);
                self.drive_ms = self.drive_ms.saturating_add(pause);
                turn.sleep_ms = pause;
                self.stage = Stage::Finish;
            },
            Stage::Finish => {
                turn.log = Some(self.completion_log(now));
                self.stage = Stage::Done;
            },
            Stage::Done => {},
        }
        turn
    }

    /// The name under which the vehicle writes to the log.
    fn source(&self) -> (name: String)
        ensures
            name@ == car_source(self.car_id),
    {
        let mut name: String = String::from_str("Car-");
        append_decimal(&mut name, self.car_id as u64);
        name
    }

    /// The line that announces the vehicle.
    fn spawn_log(&self, now: u64) -> (line: LogEvent)
        ensures
            line.source@ == car_source(self.car_id),
            line.message@ == spawn_text(self.speed, self.input_lane, self.exit_lane, self.route@),
            line.timestamp == now,
    {
        let ids: Vec<u32> = ids_of(&self.route);
        let mut message: String = String::from_str("Generated vehicle with speed ");
        append_two_decimals(&mut message, self.speed as u64);
        message.append(" m/s; Entry Lane ");
        append_decimal(&mut message, self.input_lane.id as u64);
        message.append(" (Inter. ");
        append_decimal(&mut message, self.input_lane.end_intersection as u64);
        message.append("), Exit Lane ");
        append_decimal(&mut message, self.exit_lane.id as u64);
        message.append(" (Inter. ");
        append_decimal(&mut message, self.exit_lane.start_intersection as u64);
        message.append("); Lane Route: ");
        append_bracketed(&mut message, &ids);
        LogEvent { source: self.source(), message, timestamp: now }
    }

    /// The line that reports the journey.
    fn completion_log(&self, now: u64) -> (line: LogEvent)
        ensures
            line.source@ == car_source(self.car_id),
            line.message@ == completion_text(self.wait_ms, self.drive_ms),
            line.timestamp == now,
    {
        let mut message: String = String::from_str("Completed journey: Wait=");
        append_two_decimals(&mut message, self.wait_ms);
        message.append("s, Drive=");
        append_two_decimals(&mut message, self.drive_ms);
        message.append("s, Total=");
        append_two_decimals(&mut message, self.wait_ms.saturating_add(self.drive_ms));
        message.append("s");
        LogEvent { source: self.source(), message, timestamp: now }
    }
}

/// The line for a count that was left as it was when a vehicle tried to
/// change it.
pub open spec fn fault_text(fault: OccupancyError) -> Seq<char> {
    match fault {
        OccupancyError::Full => "Lane count is full; vehicle not counted"@,
        OccupancyError::Empty => "Lane count is zero; vehicle not counted off"@,
    }
}

/// The line for a journey without internal lanes although its entry lane
/// and its exit lane meet the grid at different intersections.
pub open spec fn unrouted_text(from: u32, to: u32) -> Seq<char> {
    "No internal route from intersection "@ + decimal(from as nat) + " to intersection "@
        + decimal(to as nat) + "; driving from entry lane to exit lane"@
}

/// The log line for a count that vehicle `car_id` could not change.
pub fn fault_log(car_id: u32, fault: OccupancyError, now: u64) -> (line: LogEvent)
    ensures
        line.source@ == car_source(car_id),
        line.message@ == fault_text(fault),
        line.timestamp == now,
{
    let mut source: String = String::from_str("Car-");
    append_decimal(&mut source, car_id as u64);
    let message: String = match fault {
        OccupancyError::Full => String::from_str("Lane count is full; vehicle not counted"),
        OccupancyError::Empty => String::from_str("Lane count is zero; vehicle not counted off"),
    };
    LogEvent { source, message, timestamp: now }
}

/// The log line for a vehicle whose journey has no internal lanes because
/// no route was found: there is one exactly where the route is empty and
/// the entry lane ends at another intersection than the exit lane starts.
pub fn unrouted_log(vehicle: &Vehicle, now: u64) -> (log: Option<LogEvent>)
    ensures
        log is Some <==> vehicle.route@.len() == 0 && vehicle.input_lane.end_intersection
            != vehicle.exit_lane.start_intersection,
        log matches Some(line) ==> line.source@ == car_source(vehicle.car_id) && line.message@
            == unrouted_text(
            vehicle.input_lane.end_intersection,
            vehicle.exit_lane.start_intersection,
        ) && line.timestamp == now,
{
    let from: u32 = vehicle.input_lane.end_intersection;
    let to: u32 = vehicle.exit_lane.start_intersection;
    if vehicle.route.len() == 0 && from != to {
        let mut message: String = String::from_str("No internal route from intersection ");
        append_decimal(&mut message, from as u64);
        message.append(" to intersection ");
        append_decimal(&mut message, to as u64);
        message.append("; driving from entry lane to exit lane");
        Some(LogEvent { source: vehicle.source(), message, timestamp: now })
    } else {
        None
    }
}

/// Milliseconds that a lane of `length` metres takes at `speed` millimetres
/// per second.
pub fn travel_time(length: u32, speed: u32) -> (ms: u64)
    requires
        speed > 0,
    ensures
        ms == travel_ms(length, speed),
{
    let metres: u64 = length as u64;
    assert(metres * 1_000_000 <= 0xffff_ffff * 1_000_000);
    (metres * 1_000_000) / (speed as u64)
}

/// The identifiers of the lanes of a route.
pub fn ids_of(route: &Vec<Lane>) -> (ids: Vec<u32>)
    ensures
        ids@ == route_ids(route@),
{
    let mut ids: Vec<u32> = Vec::new();
    let mut i: usize = 0;
    while i < route.len()
        invariant
            i <= route.len(),
            ids@ == route_ids(route@.take(i as int)),
        decreases route.len() - i,
    {
        ids.push(route[i].id);
        assert(route_ids(route@.take(i + 1)) =~= route_ids(route@.take(i as int)).push(
            route@[i as int].id,
        ));
        i += 1;
    }
    assert(route@.take(i as int) =~= route@);
    ids
}

/// A vehicle for a journey from `input_lane` to `exit_lane` over the table
/// `lanes`: its route is a shortest one from the end of the entry lane to
/// the start of the exit lane, and empty where there is none.
pub fn plan_journey(car_id: u32, speed: u32, input_lane: Lane, exit_lane: Lane, lanes: &Vec<Lane>) -> (v:
    Vehicle)
    requires
        speed > 0,
        table_valid(lanes@),
    ensures
        v.wf(),
        v.car_id == car_id,
        v.speed == speed,
        v.input_lane == input_lane,
        v.exit_lane == exit_lane,
        v.stage == Stage::Start,
        v.wait_ms == 0,
        v.drive_ms == 0,
        planned(
            lanes@,
            input_lane.end_intersection,
            exit_lane.start_intersection,
            Some(v.route@),
        ) || (v.route@.len() == 0 && planned(
            lanes@,
            input_lane.end_intersection,
            exit_lane.start_intersection,
            None,
        )),
{
    let route: Vec<Lane> = match find_lane_path(
        input_lane.end_intersection,
        exit_lane.start_intersection,
        lanes,
    ) {
        Some(route) => route,
        None => Vec::new(),
    };
    Vehicle::new(car_id, speed, input_lane, exit_lane, route)
}

} // verus!
