//! The events that the services exchange.
//!
//! Timestamps are whole seconds since the Unix epoch, taken by the sender.
//! They inform the reader and order nothing.

use vstd::prelude::*;

verus! {

/// The number of vehicles on a lane after one has entered or left it.
#[derive(Debug, Clone, Copy, PartialEq, Eq, Structural)]
pub struct TrafficUpdate {
    pub lane_id: u32,
    pub vehicle_count: u32,
    pub timestamp: u64,
}

/// A request to give a lane green, with the green time proposed for it in
/// seconds.
#[derive(Debug, Clone, Copy, PartialEq, Eq, Structural)]
pub struct Recommendation {
    pub lane_id: u32,
    pub new_green_time: u32,
    pub timestamp: u64,
}

/// A line for the log, with the service or actor that wrote it.
#[derive(Debug, Clone, PartialEq, Eq)]
pub struct LogEvent {
    pub source: String,
    pub message: String,
    pub timestamp: u64,
}

/// The colour that a lane's signal shows, as the text `Green` or `Red`.
#[derive(Debug, Clone, PartialEq, Eq)]
pub struct LightStatus {
    pub lane_id: u32,
    pub status: String,
}

} // verus!
