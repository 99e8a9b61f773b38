//! Classification of filesystem change notifications into tailing actions.
use vstd::prelude::*;

verus! {

/// The kinds of change notification the watcher distinguishes.
#[derive(Clone, Copy, Debug, PartialEq, Eq, Structural)]
pub enum FsEventKind {
    /// A file was created in the watched scope.
    Created,
    /// A file's content changed.
    DataModified,
    /// A file was renamed into the watched scope.
    RenamedIn,
    /// A file was removed.
    Removed,
    /// Anything else.
    Other,
}

/// What the tailing engine must do in response to an event.
#[derive(Clone, Copy, Debug, PartialEq, Eq, Structural)]
pub enum EventAction {
    /// Read the file from offset 0.
    ReadFromScratch,
    /// Read from the stored offset.
    ReadIncremental,
    /// Drop the stored offset and line counter; no notification.
    Evict,
    /// Do nothing.
    Ignore,
}

/// The action for an event kind: creation and rename-into-scope start a
/// fresh read, content modification continues from the stored offset,
/// removal evicts the bookkeeping, anything else is ignored.
pub fn classify_event(kind: FsEventKind) -> (action: EventAction)
    ensures
        action == match kind {
            FsEventKind::Created => EventAction::ReadFromScratch,
            FsEventKind::DataModified => EventAction::ReadIncremental,
            FsEventKind::RenamedIn => EventAction::ReadFromScratch,
            FsEventKind::Removed => EventAction::Evict,
            FsEventKind::Other => EventAction::Ignore,
        },
{
    match kind {
        FsEventKind::Created => EventAction::ReadFromScratch,
        FsEventKind::DataModified => EventAction::ReadIncremental,
        FsEventKind::RenamedIn => EventAction::ReadFromScratch,
        FsEventKind::Removed => EventAction::Evict,
        FsEventKind::Other => EventAction::Ignore,
    }
}

/// Whether an event for `path` concerns this job: a single-file job filters
/// on its own file, a directory job takes every path in scope.
pub fn event_applies(watch_file: &Option<u64>, path: u64) -> (r: bool)
    ensures
        r == match watch_file {
            Some(f) => path == f,
            None => true,
        },
{
    match watch_file {
        Some(f) => path == *f,
        None => true,
    }
}

} // verus!
