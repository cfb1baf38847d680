//! File operations and the sync events that carry them between devices.
use vstd::prelude::*;

use crate::config::{copy_opt_string, new_uuid_string};

verus! {

/// What happened to a file.
#[derive(Debug, Clone, Copy, PartialEq, Eq, Structural)]
pub enum FileOperation {
    Create,
    Update,
    Delete,
    Rename,
}

/// A file operation published to, or received from, the coordination API.
/// `timestamp` is an RFC 3339 time.
#[derive(Debug)]
pub struct SyncEvent {
    pub event_id: String,
    pub graph_id: String,
    pub device_id: String,
    pub path: String,
    pub old_path: Option<String>,
    pub operation: FileOperation,
    pub sha256: Option<String>,
    pub size: u64,
    pub revision: u64,
    pub timestamp: String,
}

/// A change detected in the local folder, before it becomes an event.
#[derive(Debug)]
pub struct PendingLocalChange {
    pub path: String,
    pub old_path: Option<String>,
    pub operation: FileOperation,
    pub sha256: Option<String>,
    pub size: u64,
    pub revision: u64,
}

/// An RFC 3339 time in UTC as chrono writes it: a `<year>-MM-DD` date, `T`,
/// `HH:MM:SS`, an optional fraction of a second, and the offset `+00:00`.
pub open spec fn is_utc_timestamp_text(t: Seq<char>) -> bool {
    exists|d: int|
        {
            &&& 10 <= d
            &&& d + 15 <= t.len()
            &&& crate::conflict::is_date_text(#[trigger] t.take(d))
            &&& t[d] == 'T'
            &&& crate::conflict::is_digit(t[d + 1])
            &&& crate::conflict::is_digit(t[d + 2])
            &&& t[d + 3] == ':'
            &&& crate::conflict::is_digit(t[d + 4])
            &&& crate::conflict::is_digit(t[d + 5])
            &&& t[d + 6] == ':'
            &&& crate::conflict::is_digit(t[d + 7])
            &&& crate::conflict::is_digit(t[d + 8])
            &&& t.skip(t.len() - 6) == "+00:00"@
        }
}

/// The current time: the system clock (`std::time::SystemTime::now`) turned
/// into a `chrono::DateTime<Utc>` through its `From<SystemTime>`, which also
/// takes clock readings before 1970, and written with `to_rfc3339`. Trusted:
/// the text has the RFC 3339 form chrono writes for a UTC time. Which time it
/// is depends on the clock and is not stated.
/// (The conversion fails only for a clock reading beyond chrono's range of
/// about 262,000 years either side of year 0.)
#[verifier::external_body]
pub(crate) fn utc_now_rfc3339() -> (r: String)
    ensures
        is_utc_timestamp_text(r@),
{
    chrono::DateTime::<chrono::Utc>::from(std::time::SystemTime::now()).to_rfc3339()
}

/// `e` carries the given change of the given device in the given graph.
pub open spec fn carries_change(
    e: SyncEvent,
    graph_id: Seq<char>,
    device_id: Seq<char>,
    change: PendingLocalChange,
) -> bool {
    &&& e.graph_id@ == graph_id
    &&& e.device_id@ == device_id
    &&& e.path == change.path
    &&& e.old_path == change.old_path
    &&& e.operation == change.operation
    &&& e.sha256 == change.sha256
    &&& e.size == change.size
    &&& e.revision == change.revision
}

impl SyncEvent {
    /// The event for a change of this device, with the given identifier and time.
    pub fn with_identity(
        graph_id: &str,
        device_id: &str,
        change: PendingLocalChange,
        event_id: String,
        timestamp: String,
    ) -> (r: SyncEvent)
        ensures
            carries_change(r, graph_id@, device_id@, change),
            r.event_id == event_id,
            r.timestamp == timestamp,
    {
        SyncEvent {
            event_id,
            graph_id: graph_id.to_owned(),
            device_id: device_id.to_owned(),
            path: change.path,
            old_path: change.old_path,
            operation: change.operation,
            sha256: change.sha256,
            size: change.size,
            revision: change.revision,
            timestamp,
        }
    }

    /// The event for a change of this device: a fresh random identifier and the
    /// current time.
    pub fn from_local(graph_id: &str, device_id: &str, change: PendingLocalChange) -> (r: SyncEvent)
        ensures
            carries_change(r, graph_id@, device_id@, change),
            r.event_id@.len() == 36,
            is_utc_timestamp_text(r.timestamp@),
    {
        let id = new_uuid_string();
        let now = utc_now_rfc3339();
        SyncEvent::with_identity(graph_id, device_id, change, id, now)
    }

    /// A copy of this event.
    pub fn copy(&self) -> (r: SyncEvent)
        ensures
            r == *self,
    {
        SyncEvent {
            event_id: self.event_id.clone(),
            graph_id: self.graph_id.clone(),
            device_id: self.device_id.clone(),
            path: self.path.clone(),
            old_path: copy_opt_string(&self.old_path),
            operation: self.operation,
            sha256: copy_opt_string(&self.sha256),
            size: self.size,
            revision: self.revision,
            timestamp: self.timestamp.clone(),
        }
    }
}

} // verus!
