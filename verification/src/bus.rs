//! The channels of the message bus. Every channel hands each message to
//! every subscriber.

use vstd::prelude::*;

verus! {

/// A channel of the message bus.
#[derive(Debug, Clone, Copy, PartialEq, Eq, Structural)]
pub enum Exchange {
    /// Occupancy updates, from the simulation to the analyser.
    Updates,
    /// Recommendations, from the analyser to the signal controller.
    Recommendations,
    /// Log events, from every service to the monitor.
    Logs,
    /// Signal statuses, from the signal controller to the simulation.
    LightStatus,
}

/// The name of a channel on the bus.
pub open spec fn exchange_text(exchange: Exchange) -> Seq<char> {
    match exchange {
        Exchange::Updates => "simulation.updates"@,
        Exchange::Recommendations => "recommendations"@,
        Exchange::Logs => "logs"@,
        Exchange::LightStatus => "light_status"@,
    }
}

/// The name of a channel on the bus.
pub fn exchange_name(exchange: Exchange) -> (name: &'static str)
    ensures
        name@ == exchange_text(exchange),
{
    match exchange {
        Exchange::Updates => "simulation.updates",
        Exchange::Recommendations => "recommendations",
        Exchange::Logs => "logs",
        Exchange::LightStatus => "light_status",
    }
}

} // verus!
