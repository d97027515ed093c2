//! The congestion analyser: it looks at each occupancy update by itself and
//! recommends green for a lane that holds too many vehicles.

use crate::events::{LogEvent, Recommendation, TrafficUpdate};
use crate::text::{append_decimal, decimal};
use vstd::prelude::*;
use vstd::string::StringExecFns;

verus! {

/// The number of vehicles from which a lane counts as congested.
pub const CONGESTION_THRESHOLD: u32 = 4;

/// The green time recommended for a congested lane, in seconds.
pub const RECOMMENDED_GREEN: u32 = 40;

/// What the analyser answers to one message.
#[derive(Debug, Clone, PartialEq, Eq)]
pub struct Advice {
    /// The recommendation to publish, if the lane is congested.
    pub recommendation: Option<Recommendation>,
    /// The line to log, if there is something to say.
    pub log: Option<LogEvent>,
}

/// The update reports a congested lane.
pub open spec fn congested(update: TrafficUpdate) -> bool {
    update.vehicle_count >= CONGESTION_THRESHOLD
}

/// The recommendation for the lane of `update`, made at `now`.
pub open spec fn recommendation_for(update: TrafficUpdate, now: u64) -> Recommendation {
    Recommendation { lane_id: update.lane_id, new_green_time: RECOMMENDED_GREEN, timestamp: now }
}

/// The log line that goes with a recommendation for `lane_id`.
pub open spec fn recommended_text(lane_id: u32) -> Seq<char> {
    "Published recommendation for lane "@ + decimal(lane_id as nat)
}

/// The name under which the analyser writes to the log.
pub open spec fn analyzer_source() -> Seq<char> {
    "FlowAnalyzer"@
}

/// The log line for a message that could not be read.
pub open spec fn dropped_text() -> Seq<char> {
    "Dropped malformed traffic update"@
}

/// What the analyser answers to `message` at `now`: to a message that could
/// not be read, a log line and nothing else; to an update of a congested
/// lane, a recommendation and a log line; to any other update, nothing.
pub open spec fn advice_for(message: Option<TrafficUpdate>, now: u64, advice: Advice) -> bool {
    match message {
        None => advice.recommendation is None && (advice.log matches Some(line) && line.source@
            == analyzer_source() && line.message@ == dropped_text() && line.timestamp == now),
        Some(update) => if congested(update) {
            &&& advice.recommendation == Some(recommendation_for(update, now))
            &&& advice.log matches Some(line) && line.source@ == analyzer_source() && line.message@
                == recommended_text(update.lane_id) && line.timestamp == now
        } else {
            advice.recommendation is None && advice.log is None
        },
    }
}

/// The recommendation that an update calls for, if it calls for one.
pub fn analyze(update: &TrafficUpdate, now: u64) -> (rec: Option<Recommendation>)
    ensures
        rec == (if congested(*update) {
            Some(recommendation_for(*update, now))
        } else {
            None
        }),
{
    if update.vehicle_count >= CONGESTION_THRESHOLD {
        Some(
            Recommendation {
                lane_id: update.lane_id,
                new_green_time: RECOMMENDED_GREEN,
                timestamp: now,
            },
        )
    } else {
        None
    }
}

/// Answers one message: `None` stands for a message that could not be read.
pub fn advise(message: Option<TrafficUpdate>, now: u64) -> (advice: Advice)
    ensures
        advice_for(message, now, advice),
{
    match message {
        None => Advice {
            recommendation: None,
            log: Some(
                LogEvent {
                    source: String::from_str("FlowAnalyzer"),
                    message: String::from_str("Dropped malformed traffic update"),
                    timestamp: now,
                },
            ),
        },
        Some(update) => {
            match analyze(&update, now) {
                Some(rec) => {
                    let mut text: String = String::from_str("Published recommendation for lane ");
                    append_decimal(&mut text, update.lane_id as u64);
                    Advice {
                        recommendation: Some(rec),
                        log: Some(
                            LogEvent {
                                source: String::from_str("FlowAnalyzer"),
                                message: text,
                                timestamp: now,
                            },
                        ),
                    }
                },
                None => Advice { recommendation: None, log: None },
            }
        },
    }
}

/// Answers a run of messages, each by itself and in order: a message that
/// could not be read does not keep the next from being answered.
pub fn advise_all(messages: &Vec<Option<TrafficUpdate>>, now: u64) -> (answers: Vec<Advice>)
    ensures
        answers@.len() == messages@.len(),
        forall|i: int|
            0 <= i < messages@.len() ==> advice_for(messages@[i], now, #[trigger] answers@[i]),
{
    let mut answers: Vec<Advice> = Vec::new();
    let mut i: usize = 0;
    while i < messages.len()
        invariant
            i <= messages.len(),
            answers@.len() == i,
            forall|k: int| 0 <= k < i ==> advice_for(messages@[k], now, #[trigger] answers@[k]),
        decreases messages.len() - i,
    {
        let advice: Advice = advise(messages[i], now);
        answers.push(advice);
        i += 1;
    }
    answers
}

} // verus!
