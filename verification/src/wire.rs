//! The events as JSON text on the message bus.
//!
//! Each event is one JSON object. Reading JSON text and quoting strings is
//! left to the `serde_json` crate; which members an event has, and what
//! they must hold, is decided here.

use crate::events::{LightStatus, LogEvent, Recommendation, TrafficUpdate};
use crate::text::{append_decimal, decimal};
use vstd::prelude::*;
use vstd::string::{StrSliceExecFns, StringExecFns};
use vstd::utf8::encode_utf8;

verus! {

/// A JSON document of the `serde_json` crate.
#[verifier::external_type_specification]
#[verifier::external_body]
pub struct ExJsonValue(serde_json::Value);

/// The error of the `serde_json` crate.
#[verifier::external_type_specification]
#[verifier::external_body]
pub struct ExJsonError(serde_json::Error);

/// The members of a JSON object that are unsigned integers of at most 64
/// bits, by name. A document that is no object has none.
pub uninterp spec fn json_numbers(document: serde_json::Value) -> Map<Seq<char>, u64>;

/// The members of a JSON object that are strings, by name. A document that
/// is no object has none.
pub uninterp spec fn json_texts(document: serde_json::Value) -> Map<Seq<char>, Seq<char>>;

/// What the bytes hold if they are JSON text: the number members and the
/// string members of the document.
pub uninterp spec fn json_read(bytes: Seq<u8>) -> Option<
    (Map<Seq<char>, u64>, Map<Seq<char>, Seq<char>>),
>;

/// The JSON string that stands for `text`, quotes and escapes included, or
/// nothing where `serde_json` writes none for it.
pub uninterp spec fn json_quoted(text: Seq<char>) -> Option<Seq<char>>;

/// Calls `serde_json::from_slice` for a `Value`. The call reads the bytes
/// as JSON text and depends on nothing else: what it returns is named
/// `json_read`, by the members of the document where there is one.
#[verifier::external_body]
fn read_document(bytes: &[u8]) -> (read: Result<serde_json::Value, serde_json::Error>)
    ensures
        match read {
            Ok(document) => json_read(bytes@) == Some(
                (json_numbers(document), json_texts(document)),
            ),
            Err(_) => json_read(bytes@) is None,
        },
{
    serde_json::from_slice::<serde_json::Value>(bytes)
}

/// Calls `Value::get` with a member name, and `Value::as_u64` and
/// `Value::as_str` on what it finds. `get` finds a member only in an object
/// that has one of that name; `as_u64` gives the number of an unsigned
/// integer of at most 64 bits, `as_str` the text of a string. The contract
/// says so over the members named `json_numbers` and `json_texts`.
#[verifier::external_body]
fn member(document: &serde_json::Value, key: &str) -> (found: (Option<u64>, Option<String>))
    ensures
        found.0 == member_u64(json_numbers(*document), key@),
        match found.1 {
            Some(text) => member_text(json_texts(*document), key@) == Some(text@),
            None => member_text(json_texts(*document), key@) is None,
        },
{
    let found = document.get(key);
    (found.and_then(serde_json::Value::as_u64), found.and_then(serde_json::Value::as_str).map(str::to_owned))
}

/// Calls `serde_json::to_string` on a string. The call writes the JSON
/// string that stands for the text, or fails, and depends on nothing but the
/// text: what it returns is named `json_quoted`. That it succeeds is not
/// claimed.
#[verifier::external_body]
fn quote_text(text: &str) -> (quoted: Result<String, serde_json::Error>)
    ensures
        match quoted {
            Ok(json) => json_quoted(text@) == Some(json@),
            Err(_) => json_quoted(text@) is None,
        },
{
    serde_json::to_string(text)
}

/// The member `key`, where it is a number of at most 32 bits.
pub open spec fn member_u32(numbers: Map<Seq<char>, u64>, key: Seq<char>) -> Option<u32> {
    if numbers.contains_key(key) && numbers[key] <= u32::MAX {
        Some(numbers[key] as u32)
    } else {
        None
    }
}

/// The member `key`, where it is a number.
pub open spec fn member_u64(numbers: Map<Seq<char>, u64>, key: Seq<char>) -> Option<u64> {
    if numbers.contains_key(key) {
        Some(numbers[key])
    } else {
        None
    }
}

/// The member `key`, where it is a string.
pub open spec fn member_text(texts: Map<Seq<char>, Seq<char>>, key: Seq<char>) -> Option<
    Seq<char>,
> {
    if texts.contains_key(key) {
        Some(texts[key])
    } else {
        None
    }
}

/// The occupancy update that the members make: `lane_id` and
/// `vehicle_count` of at most 32 bits, and `timestamp`.
pub open spec fn traffic_update_in(numbers: Map<Seq<char>, u64>) -> Option<TrafficUpdate> {
    match (
        member_u32(numbers, "lane_id"@),
        member_u32(numbers, "vehicle_count"@),
        member_u64(numbers, "timestamp"@),
    ) {
        (Some(lane_id), Some(vehicle_count), Some(timestamp)) => Some(
            TrafficUpdate { lane_id, vehicle_count, timestamp },
        ),
        _ => None,
    }
}

/// The recommendation that the members make: `lane_id` and
/// `new_green_time` of at most 32 bits, and `timestamp`.
pub open spec fn recommendation_in(numbers: Map<Seq<char>, u64>) -> Option<Recommendation> {
    match (
        member_u32(numbers, "lane_id"@),
        member_u32(numbers, "new_green_time"@),
        member_u64(numbers, "timestamp"@),
    ) {
        (Some(lane_id), Some(new_green_time), Some(timestamp)) => Some(
            Recommendation { lane_id, new_green_time, timestamp },
        ),
        _ => None,
    }
}

/// The source, message and time of the log event that the members make.
pub open spec fn log_event_in(
    numbers: Map<Seq<char>, u64>,
    texts: Map<Seq<char>, Seq<char>>,
) -> Option<(Seq<char>, Seq<char>, u64)> {
    match (
        member_text(texts, "source"@),
        member_text(texts, "message"@),
        member_u64(numbers, "timestamp"@),
    ) {
        (Some(source), Some(message), Some(timestamp)) => Some((source, message, timestamp)),
        _ => None,
    }
}

/// The lane and status text of the light status that the members make.
pub open spec fn light_status_in(
    numbers: Map<Seq<char>, u64>,
    texts: Map<Seq<char>, Seq<char>>,
) -> Option<(u32, Seq<char>)> {
    match (member_u32(numbers, "lane_id"@), member_text(texts, "status"@)) {
        (Some(lane_id), Some(status)) => Some((lane_id, status)),
        _ => None,
    }
}

/// A log event holds this source, message and time.
pub open spec fn log_event_holds(event: LogEvent, parts: (Seq<char>, Seq<char>, u64)) -> bool {
    event.source@ == parts.0 && event.message@ == parts.1 && event.timestamp == parts.2
}

/// A light status holds this lane and status text.
pub open spec fn light_status_holds(status: LightStatus, parts: (u32, Seq<char>)) -> bool {
    status.lane_id == parts.0 && status.status@ == parts.1
}

/// The member `key` of the document as a number.
fn number_member(document: &serde_json::Value, key: &str) -> (found: Option<u64>)
    ensures
        found == member_u64(json_numbers(*document), key@),
{
    member(document, key).0
}

/// The member `key` of the document as a number of at most 32 bits.
fn narrow_member(document: &serde_json::Value, key: &str) -> (found: Option<u32>)
    ensures
        found == member_u32(json_numbers(*document), key@),
{
    match number_member(document, key) {
        Some(number) => if number <= 0xffff_ffff {
            Some(number as u32)
        } else {
            None
        },
        None => None,
    }
}

/// The member `key` of the document as text.
fn text_member(document: &serde_json::Value, key: &str) -> (found: Option<String>)
    ensures
        match found {
            Some(text) => member_text(json_texts(*document), key@) == Some(text@),
            None => member_text(json_texts(*document), key@) is None,
        },
{
    member(document, key).1
}

/// The occupancy update in a JSON document, if it holds one.
pub fn traffic_update_of(document: &serde_json::Value) -> (update: Option<TrafficUpdate>)
    ensures
        update == traffic_update_in(json_numbers(*document)),
{
    let lane_id: Option<u32> = narrow_member(document, "lane_id");
    let vehicle_count: Option<u32> = narrow_member(document, "vehicle_count");
    let timestamp: Option<u64> = number_member(document, "timestamp");
    match (lane_id, vehicle_count, timestamp) {
        (Some(lane_id), Some(vehicle_count), Some(timestamp)) => Some(
            TrafficUpdate { lane_id, vehicle_count, timestamp },
        ),
        _ => None,
    }
}

/// The recommendation in a JSON document, if it holds one.
pub fn recommendation_of(document: &serde_json::Value) -> (rec: Option<Recommendation>)
    ensures
        rec == recommendation_in(json_numbers(*document)),
{
    let lane_id: Option<u32> = narrow_member(document, "lane_id");
    let new_green_time: Option<u32> = narrow_member(document, "new_green_time");
    let timestamp: Option<u64> = number_member(document, "timestamp");
    match (lane_id, new_green_time, timestamp) {
        (Some(lane_id), Some(new_green_time), Some(timestamp)) => Some(
            Recommendation { lane_id, new_green_time, timestamp },
        ),
        _ => None,
    }
}

/// The log event in a JSON document, if it holds one.
pub fn log_event_of(document: &serde_json::Value) -> (event: Option<LogEvent>)
    ensures
        match event {
            Some(e) => log_event_in(json_numbers(*document), json_texts(*document)) matches Some(
                parts,
            ) && log_event_holds(e, parts),
            None => log_event_in(json_numbers(*document), json_texts(*document)) is None,
        },
{
    let source: Option<String> = text_member(document, "source");
    let message: Option<String> = text_member(document, "message");
    let timestamp: Option<u64> = number_member(document, "timestamp");
    match (source, message, timestamp) {
        (Some(source), Some(message), Some(timestamp)) => Some(
            LogEvent { source, message, timestamp },
        ),
        _ => None,
    }
}

/// The light status in a JSON document, if it holds one.
pub fn light_status_of(document: &serde_json::Value) -> (status: Option<LightStatus>)
    ensures
        match status {
            Some(s) => light_status_in(json_numbers(*document), json_texts(*document)) matches Some(
                parts,
            ) && light_status_holds(s, parts),
            None => light_status_in(json_numbers(*document), json_texts(*document)) is None,
        },
{
    let lane_id: Option<u32> = narrow_member(document, "lane_id");
    let status: Option<String> = text_member(document, "status");
    match (lane_id, status) {
        (Some(lane_id), Some(status)) => Some(LightStatus { lane_id, status }),
        _ => None,
    }
}

/// The occupancy update that the bytes hold, if they hold one.
pub open spec fn traffic_update_read(bytes: Seq<u8>) -> Option<TrafficUpdate> {
    match json_read(bytes) {
        Some((numbers, _)) => traffic_update_in(numbers),
        None => None,
    }
}

/// The recommendation that the bytes hold, if they hold one.
pub open spec fn recommendation_read(bytes: Seq<u8>) -> Option<Recommendation> {
    match json_read(bytes) {
        Some((numbers, _)) => recommendation_in(numbers),
        None => None,
    }
}

/// The parts of the log event that the bytes hold, if they hold one.
pub open spec fn log_event_read(bytes: Seq<u8>) -> Option<(Seq<char>, Seq<char>, u64)> {
    match json_read(bytes) {
        Some((numbers, texts)) => log_event_in(numbers, texts),
        None => None,
    }
}

/// The parts of the light status that the bytes hold, if they hold one.
pub open spec fn light_status_read(bytes: Seq<u8>) -> Option<(u32, Seq<char>)> {
    match json_read(bytes) {
        Some((numbers, texts)) => light_status_in(numbers, texts),
        None => None,
    }
}

/// Reads an occupancy update from a payload. There is none where the bytes
/// are no JSON text, or the text is no object with the three members.
pub fn decode_traffic_update(bytes: &[u8]) -> (update: Option<TrafficUpdate>)
    ensures
        update == traffic_update_read(bytes@),
{
    match read_document(bytes) {
        Ok(document) => traffic_update_of(&document),
        Err(_) => None,
    }
}

/// Reads a recommendation from a payload.
pub fn decode_recommendation(bytes: &[u8]) -> (rec: Option<Recommendation>)
    ensures
        rec == recommendation_read(bytes@),
{
    match read_document(bytes) {
        Ok(document) => recommendation_of(&document),
        Err(_) => None,
    }
}

/// Reads a log event from a payload.
pub fn decode_log_event(bytes: &[u8]) -> (event: Option<LogEvent>)
    ensures
        match event {
            Some(e) => log_event_read(bytes@) matches Some(parts) && log_event_holds(e, parts),
            None => log_event_read(bytes@) is None,
        },
{
    match read_document(bytes) {
        Ok(document) => log_event_of(&document),
        Err(_) => None,
    }
}

/// Reads a light status from a payload.
pub fn decode_light_status(bytes: &[u8]) -> (status: Option<LightStatus>)
    ensures
        match status {
            Some(s) => light_status_read(bytes@) matches Some(parts) && light_status_holds(
                s,
                parts,
            ),
            None => light_status_read(bytes@) is None,
        },
{
    match read_document(bytes) {
        Ok(document) => light_status_of(&document),
        Err(_) => None,
    }
}

/// The JSON text of an occupancy update.
pub open spec fn traffic_update_json(update: TrafficUpdate) -> Seq<char> {
    "{\"lane_id\":"@ + decimal(update.lane_id as nat) + ",\"vehicle_count\":"@ + decimal(
        update.vehicle_count as nat,
    ) + ",\"timestamp\":"@ + decimal(update.timestamp as nat) + "}"@
}

/// The JSON text of a recommendation.
pub open spec fn recommendation_json(rec: Recommendation) -> Seq<char> {
    "{\"lane_id\":"@ + decimal(rec.lane_id as nat) + ",\"new_green_time\":"@ + decimal(
        rec.new_green_time as nat,
    ) + ",\"timestamp\":"@ + decimal(rec.timestamp as nat) + "}"@
}

/// The JSON text of a log event whose source and message are already
/// quoted.
pub open spec fn log_event_json(source: Seq<char>, message: Seq<char>, timestamp: u64) -> Seq<
    char,
> {
    "{\"source\":"@ + source + ",\"message\":"@ + message + ",\"timestamp\":"@ + decimal(
        timestamp as nat,
    ) + "}"@
}

/// The JSON text of a light status whose status is already quoted.
pub open spec fn light_status_json(lane_id: u32, status: Seq<char>) -> Seq<char> {
    "{\"lane_id\":"@ + decimal(lane_id as nat) + ",\"status\":"@ + status + "}"@
}

/// Writes an occupancy update as a payload.
pub fn encode_traffic_update(update: &TrafficUpdate) -> (bytes: Vec<u8>)
    ensures
        bytes@ == encode_utf8(traffic_update_json(*update)),
{
    let mut text: String = String::from_str("{\"lane_id\":");
    append_decimal(&mut text, update.lane_id as u64);
    text.append(",\"vehicle_count\":");
    append_decimal(&mut text, update.vehicle_count as u64);
    text.append(",\"timestamp\":");
    append_decimal(&mut text, update.timestamp);
    text.append("}");
    text.as_str().as_bytes_vec()
}

/// Writes a recommendation as a payload.
pub fn encode_recommendation(rec: &Recommendation) -> (bytes: Vec<u8>)
    ensures
        bytes@ == encode_utf8(recommendation_json(*rec)),
{
    let mut text: String = String::from_str("{\"lane_id\":");
    append_decimal(&mut text, rec.lane_id as u64);
    text.append(",\"new_green_time\":");
    append_decimal(&mut text, rec.new_green_time as u64);
    text.append(",\"timestamp\":");
    append_decimal(&mut text, rec.timestamp);
    text.append("}");
    text.as_str().as_bytes_vec()
}

/// The payload of a log event from its quoted source and message.
pub fn log_event_payload(source: &str, message: &str, timestamp: u64) -> (bytes: Vec<u8>)
    ensures
        bytes@ == encode_utf8(log_event_json(source@, message@, timestamp)),
{
    let mut text: String = String::from_str("{\"source\":");
    text.append(source);
    text.append(",\"message\":");
    text.append(message);
    text.append(",\"timestamp\":");
    append_decimal(&mut text, timestamp);
    text.append("}");
    text.as_str().as_bytes_vec()
}

/// The payload of a light status from its lane and its quoted status.
pub fn light_status_payload(lane_id: u32, status: &str) -> (bytes: Vec<u8>)
    ensures
        bytes@ == encode_utf8(light_status_json(lane_id, status@)),
{
    let mut text: String = String::from_str("{\"lane_id\":");
    append_decimal(&mut text, lane_id as u64);
    text.append(",\"status\":");
    text.append(status);
    text.append("}");
    text.as_str().as_bytes_vec()
}

/// The JSON text of a log event, where its source and its message can be
/// quoted.
pub open spec fn log_event_written(event: LogEvent) -> Option<Seq<char>> {
    match (json_quoted(event.source@), json_quoted(event.message@)) {
        (Some(source), Some(message)) => Some(log_event_json(source, message, event.timestamp)),
        _ => None,
    }
}

/// The JSON text of a light status, where its status can be quoted.
pub open spec fn light_status_written(status: LightStatus) -> Option<Seq<char>> {
    match json_quoted(status.status@) {
        Some(quoted) => Some(light_status_json(status.lane_id, quoted)),
        None => None,
    }
}

/// Writes a log event as a payload: the JSON object with the quoted source,
/// the quoted message and the time. There is none exactly where the source
/// or the message cannot be quoted.
pub fn encode_log_event(event: &LogEvent) -> (bytes: Option<Vec<u8>>)
    ensures
        match log_event_written(*event) {
            Some(text) => bytes matches Some(b) && b@ == encode_utf8(text),
            None => bytes is None,
        },
{
    match (quote_text(event.source.as_str()), quote_text(event.message.as_str())) {
        (Ok(source), Ok(message)) => Some(
            log_event_payload(source.as_str(), message.as_str(), event.timestamp),
        ),
        _ => None,
    }
}

/// Writes a light status as a payload: the JSON object with the lane and
/// the quoted status. There is none exactly where the status cannot be
/// quoted.
pub fn encode_light_status(status: &LightStatus) -> (bytes: Option<Vec<u8>>)
    ensures
        match light_status_written(*status) {
            Some(text) => bytes matches Some(b) && b@ == encode_utf8(text),
            None => bytes is None,
        },
{
    match quote_text(status.status.as_str()) {
        Ok(quoted) => Some(light_status_payload(status.lane_id, quoted.as_str())),
        Err(_) => None,
    }
}

} // verus!
