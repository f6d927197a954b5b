//! Events sent to the front end.
use vstd::prelude::*;

verus! {

#[verifier::external_type_specification]
#[verifier::external_body]
pub struct ExJsonValue(serde_json::Value);

/// Terminal event types for frontend communication
pub enum TerminalEvent {
    /// Terminal output data
    Output { id: String, data: Vec<u8> },
    /// Terminal state changed
    StateChanged { id: String, state: serde_json::Value },
    /// Terminal closed
    Closed { id: String },
    /// Notification (e.g., bell, long-running command finished)
    Notification { id: String, message: String },
}

/// The name under which an event of this kind is emitted.
pub open spec fn event_name_of(e: TerminalEvent) -> Seq<char> {
    match e {
        TerminalEvent::Output { .. } => "terminal-output"@,
        TerminalEvent::StateChanged { .. } => "terminal-state-changed"@,
        TerminalEvent::Closed { .. } => "terminal-closed"@,
        TerminalEvent::Notification { .. } => "terminal-notification"@,
    }
}

impl TerminalEvent {
    /// Get the event name for Tauri
    pub fn event_name(&self) -> (name: &'static str)
        ensures
            name@ == event_name_of(*self),
    {
        match self {
            TerminalEvent::Output { .. } => "terminal-output",
            TerminalEvent::StateChanged { .. } => "terminal-state-changed",
            TerminalEvent::Closed { .. } => "terminal-closed",
            TerminalEvent::Notification { .. } => "terminal-notification",
        }
    }
}

} // verus!
