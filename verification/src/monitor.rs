//! The system monitor: one printed line per log event.

use crate::events::LogEvent;
use crate::text::{append_decimal, decimal};
use vstd::prelude::*;
use vstd::string::StringExecFns;

verus! {

/// The line printed for a log event with this source, message and time.
pub open spec fn log_line_of(source: Seq<char>, message: Seq<char>, timestamp: u64) -> Seq<char> {
    "[Time: "@ + decimal(timestamp as nat) + "] "@ + source + ": "@ + message
}

/// The line printed for a log event.
pub open spec fn log_line(event: LogEvent) -> Seq<char> {
    log_line_of(event.source@, event.message@, event.timestamp)
}

/// The line printed for a message that could not be read.
pub open spec fn unreadable_line() -> Seq<char> {
    "Failed to deserialize log event"@
}

/// What the monitor prints for one message.
#[derive(Debug, Clone, PartialEq, Eq)]
pub struct MonitorLine {
    pub text: String,
    /// The line reports a message that could not be read.
    pub is_error: bool,
}

/// What the monitor prints for `message`.
pub open spec fn line_for(message: Option<LogEvent>, line: MonitorLine) -> bool {
    match message {
        Some(event) => line.text@ == log_line(event) && !line.is_error,
        None => line.text@ == unreadable_line() && line.is_error,
    }
}

/// The line for a log event: its time, its source and its message.
pub fn format_log_line(event: &LogEvent) -> (text: String)
    ensures
        text@ == log_line(*event),
{
    let mut text: String = String::from_str("[Time: ");
    append_decimal(&mut text, event.timestamp);
    text.append("] ");
    text.append(event.source.as_str());
    text.append(": ");
    text.append(event.message.as_str());
    text
}

/// The line for one message: `None` stands for a message that could not be
/// read, which gets an error line.
pub fn monitor_line(message: &Option<LogEvent>) -> (line: MonitorLine)
    ensures
        line_for(*message, line),
{
    match message {
        Some(event) => MonitorLine { text: format_log_line(event), is_error: false },
        None => MonitorLine {
            text: String::from_str("Failed to deserialize log event"),
            is_error: true,
        },
    }
}

/// The lines for a run of messages, in order.
pub fn monitor_lines(messages: &Vec<Option<LogEvent>>) -> (lines: Vec<MonitorLine>)
    ensures
        lines@.len() == messages@.len(),
        forall|i: int| 0 <= i < messages@.len() ==> line_for(messages@[i], #[trigger] lines@[i]),
{
    let mut lines: Vec<MonitorLine> = Vec::new();
    let mut i: usize = 0;
    while i < messages.len()
        invariant
            i <= messages.len(),
            lines@.len() == i,
            forall|k: int| 0 <= k < i ==> line_for(messages@[k], #[trigger] lines@[k]),
        decreases messages.len() - i,
    {
        let line: MonitorLine = monitor_line(&messages[i]);
        lines.push(line);
        i += 1;
    }
    lines
}

} // verus!
