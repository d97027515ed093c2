//! What the signal controller writes to the log, and how it receives
//! recommendations.

use crate::events::{LogEvent, Recommendation};
use crate::signals::{apply_recommendation, LightColor, PhaseChange, SignalPhase};
use crate::text::{append_bracketed, append_decimal, bracketed, decimal};
use std::collections::HashMap;
use vstd::prelude::*;
use vstd::string::StringExecFns;

verus! {

/// The name under which the controller of `junction` writes to the log.
pub open spec fn junction_source(junction: u32) -> Seq<char> {
    "Junction-"@ + decimal(junction as nat)
}

/// The line for the start of a green phase.
pub open spec fn phase_text(group_index: usize, green: Seq<u32>, red: Seq<u32>) -> Seq<char> {
    "Phase "@ + decimal(group_index as nat) + " active: Green lanes "@ + bracketed(green)
        + ", Red lanes "@ + bracketed(red)
}

/// The name under which the signal of `lane_id` writes to the log.
pub open spec fn light_source(lane_id: u32) -> Seq<char> {
    "TrafficLight-"@ + decimal(lane_id as nat)
}

/// The line for a lane that was given green on recommendation.
pub open spec fn applied_text() -> Seq<char> {
    "Set to Green per recommendation"@
}

/// The line for a recommendation that names a lane without a signal.
pub open spec fn unknown_lane_text() -> Seq<char> {
    "Ignored recommendation for unknown lane"@
}

/// The line for a recommendation that could not be read.
pub open spec fn unreadable_text() -> Seq<char> {
    "Dropped malformed recommendation"@
}

/// The log line for a phase change of `junction` at `now`: one for the
/// start of a green phase, none for a clearance.
pub fn phase_log(junction: u32, change: &PhaseChange, now: u64) -> (log: Option<LogEvent>)
    ensures
        log is Some <==> change.phase == SignalPhase::Green,
        log matches Some(line) ==> line.source@ == junction_source(junction) && line.message@
            == phase_text(change.group_index, change.green_lanes@, change.red_lanes@)
            && line.timestamp == now,
{
    match change.phase {
        SignalPhase::Green => {
            let mut source: String = String::from_str("Junction-");
            append_decimal(&mut source, junction as u64);
            let mut message: String = String::from_str("Phase ");
            append_decimal(&mut message, change.group_index as u64);
            message.append(" active: Green lanes ");
            append_bracketed(&mut message, &change.green_lanes);
            message.append(", Red lanes ");
            append_bracketed(&mut message, &change.red_lanes);
            Some(LogEvent { source, message, timestamp: now })
        },
        _ => None,
    }
}

/// What receiving `message` at `now` does to the signals, and the line it
/// logs: a recommendation for a lane with a signal turns that signal green;
/// one for a lane without a signal, and a message that could not be read,
/// change nothing.
pub open spec fn received(
    before: Map<u32, LightColor>,
    after: Map<u32, LightColor>,
    message: Option<Recommendation>,
    now: u64,
    line: LogEvent,
) -> bool {
    &&& line.timestamp == now
    &&& match message {
        None => after == before && line.source@ == "TrafficLight"@ && line.message@
            == unreadable_text(),
        Some(rec) => line.source@ == light_source(rec.lane_id) && if before.contains_key(
            rec.lane_id,
        ) {
            after == before.insert(rec.lane_id, LightColor::Green) && line.message@
                == applied_text()
        } else {
            after == before && line.message@ == unknown_lane_text()
        },
    }
}

/// Receives one message from the recommendation channel: `None` stands for
/// a message that could not be read.
pub fn receive_recommendation(
    lights: &mut HashMap<u32, LightColor>,
    message: Option<Recommendation>,
    now: u64,
) -> (line: LogEvent)
    ensures
        received(old(lights)@, final(lights)@, message, now, line),
{
    match message {
        None => LogEvent {
            source: String::from_str("TrafficLight"),
            message: String::from_str("Dropped malformed recommendation"),
            timestamp: now,
        },
        Some(rec) => {
            let mut source: String = String::from_str("TrafficLight-");
            append_decimal(&mut source, rec.lane_id as u64);
            let known: bool = apply_recommendation(lights, &rec);
            let message: String = if known {
                String::from_str("Set to Green per recommendation")
            } else {
                String::from_str("Ignored recommendation for unknown lane")
            };
            LogEvent { source, message, timestamp: now }
        },
    }
}

} // verus!
