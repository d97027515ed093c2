//! The services at the message bus: what each does with the payloads it
//! receives, one payload after another.
//!
//! A payload that cannot be read never stops a service: it is answered with
//! a log line or skipped, and the next payload is handled as usual.

use crate::analyzer::{advice_for, advise, Advice};
use crate::events::LogEvent;
use crate::monitor::{log_line_of, monitor_line, unreadable_line, MonitorLine};
use crate::signal_log::{receive_recommendation, received};
use crate::signals::{record_light_status, LightColor};
use crate::wire::{
    decode_light_status, decode_log_event, decode_recommendation, decode_traffic_update,
    light_status_read, log_event_read, recommendation_read, traffic_update_read,
};
use std::collections::HashMap;
use vstd::prelude::*;

verus! {

/// What a list of payloads holds.
pub open spec fn payload_views(payloads: Seq<Vec<u8>>) -> Seq<Seq<u8>> {
    payloads.map_values(|payload: Vec<u8>| payload@)
}

/// The analyser's answer to one payload of the update channel.
pub fn advise_payload(payload: &[u8], now: u64) -> (advice: Advice)
    ensures
        advice_for(traffic_update_read(payload@), now, advice),
{
    advise(decode_traffic_update(payload), now)
}

/// Runs the analyser over the payloads of the update channel: one answer
/// per payload, in order.
pub fn run_flow_analyzer(payloads: &Vec<Vec<u8>>, now: u64) -> (answers: Vec<Advice>)
    ensures
        answers@.len() == payloads@.len(),
        forall|i: int|
            0 <= i < payloads@.len() ==> advice_for(
                traffic_update_read(payloads@[i]@),
                now,
                #[trigger] answers@[i],
            ),
{
    let mut answers: Vec<Advice> = Vec::new();
    let mut i: usize = 0;
    while i < payloads.len()
        invariant
            i <= payloads.len(),
            answers@.len() == i,
            forall|k: int|
                0 <= k < i ==> advice_for(
                    traffic_update_read(payloads@[k]@),
                    now,
                    #[trigger] answers@[k],
                ),
        decreases payloads.len() - i,
    {
        let advice: Advice = advise_payload(payloads[i].as_slice(), now);
        answers.push(advice);
        i += 1;
    }
    answers
}

/// What the monitor prints for the payload `bytes`.
pub open spec fn line_for_payload(bytes: Seq<u8>, line: MonitorLine) -> bool {
    match log_event_read(bytes) {
        Some((source, message, timestamp)) => line.text@ == log_line_of(
            source,
            message,
            timestamp,
        ) && !line.is_error,
        None => line.text@ == unreadable_line() && line.is_error,
    }
}

/// The monitor's line for one payload of the log channel.
pub fn monitor_payload(payload: &[u8]) -> (line: MonitorLine)
    ensures
        line_for_payload(payload@, line),
{
    let event: Option<LogEvent> = decode_log_event(payload);
    monitor_line(&event)
}

/// Runs the monitor over the payloads of the log channel: one line per
/// payload, in order.
pub fn run_monitoring(payloads: &Vec<Vec<u8>>) -> (lines: Vec<MonitorLine>)
    ensures
        lines@.len() == payloads@.len(),
        forall|i: int|
            0 <= i < payloads@.len() ==> line_for_payload(payloads@[i]@, #[trigger] lines@[i]),
{
    let mut lines: Vec<MonitorLine> = Vec::new();
    let mut i: usize = 0;
    while i < payloads.len()
        invariant
            i <= payloads.len(),
            lines@.len() == i,
            forall|k: int| 0 <= k < i ==> line_for_payload(payloads@[k]@, #[trigger] lines@[k]),
        decreases payloads.len() - i,
    {
        let line: MonitorLine = monitor_payload(payloads[i].as_slice());
        lines.push(line);
        i += 1;
    }
    lines
}

/// The signal controller's handling of one payload of the recommendation
/// channel.
pub fn receive_payload(lights: &mut HashMap<u32, LightColor>, payload: &[u8], now: u64) -> (line:
    LogEvent)
    ensures
        received(old(lights)@, final(lights)@, recommendation_read(payload@), now, line),
{
    receive_recommendation(lights, decode_recommendation(payload), now)
}

/// The signals observed after the statuses in `payloads` were recorded in
/// order; a payload that holds no status records nothing.
pub open spec fn observed_after(before: Map<u32, LightColor>, payloads: Seq<Seq<u8>>) -> Map<
    u32,
    LightColor,
>
    decreases payloads.len(),
{
    if payloads.len() == 0 {
        before
    } else {
        let earlier = observed_after(before, payloads.drop_last());
        match light_status_read(payloads.last()) {
            Some((lane_id, status)) => earlier.insert(
                lane_id,
                if status == "Green"@ {
                    LightColor::Green
                } else {
                    LightColor::Red
                },
            ),
            None => earlier,
        }
    }
}

/// Records the statuses announced on the status channel among the signals
/// observed, payload by payload.
pub fn listen_for_light_statuses(observed: &mut HashMap<u32, LightColor>, payloads: &Vec<Vec<u8>>)
    ensures
        final(observed)@ == observed_after(old(observed)@, payload_views(payloads@)),
{
    let ghost before = observed@;
    let ghost views = payload_views(payloads@);
    let mut i: usize = 0;
    assert(views.take(0) =~= Seq::<Seq<u8>>::empty());
    while i < payloads.len()
        invariant
            i <= payloads.len(),
            views == payload_views(payloads@),
            observed@ == observed_after(before, views.take(i as int)),
        decreases payloads.len() - i,
    {
        proof {
            assert(views.take(i + 1).drop_last() =~= views.take(i as int));
            assert(views.take(i + 1).last() == payloads@[i as int]@);
        }
        match decode_light_status(payloads[i].as_slice()) {
            Some(status) => {
                record_light_status(observed, &status);
            },
            None => {},
        }
        i += 1;
    }
    assert(views.take(i as int) =~= views);
}

} // verus!
