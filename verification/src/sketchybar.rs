//! Sketchybar event trigger abstraction.

use vstd::prelude::*;

use crate::text::to_string;

verus! {

/// A single key=value pair passed as an event argument to
/// `sketchybar --trigger EVENT k1=v1 k2=v2 ...`. Lua items receive these as
/// `event.k1` etc.
#[derive(Debug, Clone, PartialEq, Eq)]
pub struct EventArg {
    pub key: String,
    pub value: String,
}

impl EventArg {
    pub fn new(key: &str, value: &str) -> (a: Self)
        ensures
            a.key@ == key@,
            a.value@ == value@,
    {
        EventArg { key: to_string(key), value: to_string(value) }
    }
}

/// Why a notification could not be delivered.
#[derive(Debug, Clone, PartialEq, Eq)]
pub struct NotifyError {
    pub message: String,
}

/// Receives state changes as named events with arguments.
pub trait Notifier {
    fn notify(&self, event: &str, args: &[EventArg]) -> Result<(), NotifyError>;
}

/// Runs `sketchybar --trigger`; the daemon's binary spawns the process.
pub struct SketchybarNotifier;

/// Notifies nobody.
pub struct NullNotifier;

impl Notifier for NullNotifier {
    fn notify(&self, event: &str, args: &[EventArg]) -> (r: Result<(), NotifyError>)
        ensures
            r is Ok,
    {
        Ok(())
    }
}

} // verus!
