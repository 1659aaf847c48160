use vstd::prelude::*;

use crate::error::ControllerError;
use crate::resource::Timestamp;

verus! {

/// Wait, in seconds, before a reconcile that failed is run again.
pub const ERROR_REQUEUE_SECS: u64 = 360;

/// Calls `chrono::Utc::now` and gives its seconds since the Unix epoch and the nanoseconds
/// past that second.
///
/// Nothing is stated of the result: it is the clock's reading.
#[verifier::external_body]
fn now() -> Timestamp {
    let now = chrono::Utc::now();
    Timestamp { secs: now.timestamp(), nanos: now.timestamp_subsec_nanos() }
}

/// When the controller runs a reconcile again; `None` waits for the next change.
#[derive(Clone, Copy, Debug, PartialEq, Eq)]
pub struct RequeueAction {
    pub requeue_after_secs: Option<u64>,
}

/// What the controller answers to a reconcile that failed: run it again after six minutes.
pub fn error_policy(error: &ControllerError) -> (r: RequeueAction)
    ensures
        r.requeue_after_secs == Some(ERROR_REQUEUE_SECS),
{
    RequeueAction { requeue_after_secs: Some(ERROR_REQUEUE_SECS) }
}

/// Who reports the controller's events.
#[derive(Debug, PartialEq, Eq)]
pub struct Reporter {
    pub controller: String,
    pub instance: Option<String>,
}

/// The controller's in-memory state: when it last handled an event and who reports its
/// events.
#[derive(Debug, PartialEq, Eq)]
pub struct State {
    pub last_event: Timestamp,
    pub reporter: Reporter,
}

impl State {
    /// The state at start: now, reported as `arcanum`.
    pub fn new() -> (r: State)
        ensures
            r.reporter.controller@ == "arcanum"@,
            r.reporter.instance is None,
    {
        State {
            last_event: now(),
            reporter: Reporter { controller: "arcanum".to_owned(), instance: None },
        }
    }

    /// Records that an event is being handled now; the reporter stays. The time is the
    /// clock's reading, of which nothing is known; [`State::record_event_at`] does the rest.
    pub fn note_event(&mut self)
        ensures
            final(self).reporter == old(self).reporter,
    {
        let at = now();
        self.record_event_at(at);
    }

    /// Records that an event was handled at `at`; the reporter stays.
    pub fn record_event_at(&mut self, at: Timestamp)
        ensures
            final(self).last_event == at,
            final(self).reporter == old(self).reporter,
    {
        self.last_event = at;
    }
}

} // verus!
