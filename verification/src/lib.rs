//! A model of a signalised 4×4 street grid: the lane table, shortest-route
//! planning over internal lanes, grouping of approaches into signal phases,
//! the per-junction phase cycle, vehicle journeys with lane occupancy, and the
//! congestion analyser that listens to occupancy updates.
//!
//! Lengths are whole metres, speeds whole millimetres per second, a
//! vehicle's times whole milliseconds, a signal's times whole seconds and
//! angles whole millidegrees; every public function carries a contract over
//! these integer models.

pub mod lanes;
pub mod routing;
pub mod angles;
pub mod grouping;
pub mod grouping_laws;
pub mod events;
pub mod text;
pub mod signals;
pub mod signal_laws;
pub mod chance;
pub mod clock;
pub mod occupancy;
pub mod vehicle;
pub mod vehicle_laws;
pub mod fleet;
pub mod analyzer;
pub mod monitor;
pub mod signal_log;
pub mod wire;
pub mod services;
pub mod bus;
