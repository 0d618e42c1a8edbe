//! The log lines pushed to connected admin pages.
use vstd::prelude::*;

verus! {

/// One log line: when, what kind, the request it is about, and a message.
#[derive(Debug)]
pub struct LogMessage {
    pub timestamp: String,
    /// The kind of event (`system`, `upload`, `request`, ...); `type` in JSON.
    pub kind: String,
    pub status: u16,
    pub method: String,
    pub path: String,
    pub project_id: String,
    pub message: String,
}

/// A log line stamped with `timestamp`.
pub fn make_log(
    timestamp: String,
    kind: &str,
    status: u16,
    method: &str,
    path: &str,
    project_id: &str,
    message: &str,
) -> (r: LogMessage)
    ensures
        r.timestamp == timestamp,
        r.kind@ == kind@,
        r.status == status,
        r.method@ == method@,
        r.path@ == path@,
        r.project_id@ == project_id@,
        r.message@ == message@,
{
    LogMessage {
        timestamp,
        kind: crate::text::owned(kind),
        status,
        method: crate::text::owned(method),
        path: crate::text::owned(path),
        project_id: crate::text::owned(project_id),
        message: crate::text::owned(message),
    }
}

} // verus!
