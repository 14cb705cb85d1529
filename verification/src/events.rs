//! The shapes of raw watch notifications and of the normalized changes
//! the reconciler derives from them.

use vstd::prelude::*;

verus! {

/// Whether a created or removed item was reported as a file, a
/// directory, or something the watch subsystem could not classify.
#[derive(Clone, Copy, Debug, PartialEq, Eq, Structural)]
pub enum SubKind {
    File,
    Folder,
    Other,
}

/// The kind of a raw watch notification.
#[derive(Clone, Copy, Debug, PartialEq, Eq, Structural)]
pub enum EventKind {
    Create(SubKind),
    Modify,
    Remove(SubKind),
    Other,
}

/// A raw notification from the watch subsystem: a kind and one or more
/// native paths in textual form. Only the first path is acted on.
pub struct RawNotification {
    pub kind: EventKind,
    pub paths: Vec<Vec<u8>>,
}

impl RawNotification {
    /// A notification carries at least one path.
    pub open spec fn wf(&self) -> bool {
        self.paths@.len() > 0
    }
}

/// What a stat of the notified path showed at processing time. A
/// modification time is carried as an opaque tick count.
#[derive(Clone, Copy, Debug, PartialEq, Eq, Structural)]
pub enum PathStatus {
    /// The path no longer exists.
    Missing,
    /// The path is a directory, last modified at the given time.
    Directory(u64),
    /// The path is a regular file, last modified at the given time.
    File(u64),
}

/// The canonical action of a normalized change.
#[derive(Clone, Copy, Debug, PartialEq, Eq, Structural)]
pub enum Action {
    Added,
    Modified,
    Removed,
}

/// A normalized change: one mirror operation owed on one path.
pub struct NormalizedChange {
    pub path: Vec<u8>,
    pub action: Action,
}

/// The action of a normalized change, if one was produced.
pub open spec fn action_of(r: Option<NormalizedChange>) -> Option<Action> {
    match r {
        Some(c) => Some(c.action),
        None => None,
    }
}

/// The modification time a stat reported (zero for a missing path).
pub open spec fn status_time(status: PathStatus) -> u64 {
    match status {
        PathStatus::Missing => 0,
        PathStatus::Directory(t) => t,
        PathStatus::File(t) => t,
    }
}

} // verus!
