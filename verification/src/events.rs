//! Events sent to the UI, stamped with the time they were made.

use vstd::prelude::*;
use crate::clock::now_unix_nanos;
use crate::jobs::JobManagerEvent as ManagerJobEvent;
use crate::operation_state::OperationManagerEvent;

verus! {

/// A file operation event with its time, in nanoseconds since the epoch.
#[derive(Debug)]
pub struct FileOperationManagerEvent {
    pub inner: OperationManagerEvent,
    pub timestamp: i128,
}

impl FileOperationManagerEvent {
    /// Stamps an event with the current time.
    pub fn new(event: OperationManagerEvent) -> (e: Self)
        ensures
            e.inner == event,
    {
        FileOperationManagerEvent { inner: event, timestamp: now_unix_nanos() }
    }
}

/// A job manager event with its time, in nanoseconds since the epoch.
#[derive(Debug)]
pub struct JobManagerEvent {
    pub inner: ManagerJobEvent,
    pub timestamp: i128,
}

impl JobManagerEvent {
    /// Stamps an event with the current time.
    pub fn new(event: ManagerJobEvent) -> (e: Self)
        ensures
            e.inner == event,
    {
        JobManagerEvent { inner: event, timestamp: now_unix_nanos() }
    }
}

/// The kind of an application event.
#[non_exhaustive]
#[derive(Debug, Clone, Copy, PartialEq, Eq, Structural)]
pub enum AppEventKind {
    Initialized,
    Shutdown,
    Error,
}

/// An application event.
#[non_exhaustive]
#[derive(Debug, Clone)]
pub struct AppEvent {
    pub kind: AppEventKind,
    pub message: String,
    pub timestamp: i128,
}

impl Default for AppEvent {
    fn default() -> (e: Self)
        ensures
            e.kind == AppEventKind::Initialized,
            e.message@ == "Muusik event channel initialized"@,
    {
        AppEvent {
            kind: AppEventKind::Initialized,
            message: String::from_str("Muusik event channel initialized"),
            timestamp: now_unix_nanos(),
        }
    }
}

} // verus!
