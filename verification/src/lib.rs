//! Deferred, time-ordered invocation scheduling.
//!
//! Independent producers hand `(due time, arguments)` records to a [`Caller`];
//! a per-operation scheduling engine keeps the accepted records in a pending
//! set, always executes an entry with the earliest due time once that time has
//! been reached, and otherwise reports how long to wait for the next one. The
//! asynchronous plumbing around the engine (the channel receive, the timer and
//! the lock acquisition) is the host's concern; every scheduling decision is
//! made here.

pub mod caller;
pub mod channel;
pub mod clock;
pub mod dispatcher;
pub mod engine;
pub mod summoner;

pub use caller::Caller;
pub use dispatcher::Dispatcher;
pub use engine::{Action, Engine, Event, PendingCall};
pub use summoner::Summoner;

use vstd::prelude::*;

verus! {

/// Supported operation return types.
///
/// An operation run by the scheduling engine may return `()`, `Option<()>`
/// (both always successes) or `Result<(), String>`, whose `Err` carries a
/// diagnostic message. The loop treats every outcome alike: it hands the
/// diagnostic, if any, to the host's sink and goes on with the next due entry.
pub trait ReturnType: Sized {
    /// The diagnostic message of a failure outcome, if this value is one.
    spec fn failure(self) -> Option<String>;

    /// Extract the diagnostic of a failure outcome for the host to report.
    fn log(self) -> (diag: Option<String>)
        ensures
            diag == self.failure(),
    ;
}

impl ReturnType for () {
    open spec fn failure(self) -> Option<String> {
        None
    }

    fn log(self) -> (diag: Option<String>) {
        None
    }
}

impl ReturnType for Option<()> {
    open spec fn failure(self) -> Option<String> {
        None
    }

    fn log(self) -> (diag: Option<String>) {
        None
    }
}

impl ReturnType for Result<(), String> {
    open spec fn failure(self) -> Option<String> {
        match self {
            Ok(_) => None,
            Err(message) => Some(message),
        }
    }

    fn log(self) -> (diag: Option<String>) {
        match self {
            Ok(_) => None,
            Err(message) => Some(message),
        }
    }
}

} // verus!
