//! Book-keeping of queued file operations: their state by id, how the
//! events of a running operation change it, and the events the manager
//! passes on.

use vstd::prelude::*;
use std::collections::BTreeMap;
use std::sync::Arc;
use std::sync::atomic::{AtomicBool, Ordering};
use crate::clock::now_unix_nanos;
use crate::fs::{Operation, OperationError, OperationEvent, operation_error_message};

verus! {

broadcast use vstd::laws_cmp::group_laws_cmp, vstd::std_specs::btree::group_btree_axioms;

/// Whether a queued operation has started.
#[derive(Debug, Clone, Copy, PartialEq, Eq, Structural)]
pub enum OperationStatus {
    Pending,
    InProgress,
}

impl Default for OperationStatus {
    fn default() -> (s: Self)
        ensures
            s == OperationStatus::Pending,
    {
        OperationStatus::Pending
    }
}

/// The state of a queued operation: its paths, its status and the flag
/// that stops it.
#[derive(Debug, Clone)]
pub enum OperationState {
    Move { paths: Vec<(String, String)>, status: OperationStatus, stop_flag: Arc<AtomicBool> },
    Copy { paths: Vec<(String, String)>, status: OperationStatus, stop_flag: Arc<AtomicBool> },
    Delete { paths: Vec<String>, status: OperationStatus, stop_flag: Arc<AtomicBool> },
}

/// A copy of a list of path pairs.
fn clone_pairs(v: &Vec<(String, String)>) -> (r: Vec<(String, String)>)
    ensures
        r@ == v@,
{
    let mut r: Vec<(String, String)> = Vec::new();
    let mut i: usize = 0;
    while i < v.len()
        invariant
            i <= v@.len(),
            r@ == v@.take(i as int),
        decreases v.len() - i,
    {
        r.push((v[i].0.clone(), v[i].1.clone()));
        i = i + 1;
        assert(r@ =~= v@.take(i as int));
    }
    assert(v@.take(v@.len() as int) =~= v@);
    r
}

/// A copy of a list of paths.
fn clone_paths(v: &Vec<String>) -> (r: Vec<String>)
    ensures
        r@ == v@,
{
    let mut r: Vec<String> = Vec::new();
    let mut i: usize = 0;
    while i < v.len()
        invariant
            i <= v@.len(),
            r@ == v@.take(i as int),
        decreases v.len() - i,
    {
        r.push(v[i].clone());
        i = i + 1;
        assert(r@ =~= v@.take(i as int));
    }
    assert(v@.take(v@.len() as int) =~= v@);
    r
}

impl OperationState {
    /// The status.
    pub open spec fn status_spec(self) -> OperationStatus {
        match self {
            OperationState::Move { status, .. } => status,
            OperationState::Copy { status, .. } => status,
            OperationState::Delete { status, .. } => status,
        }
    }

    /// The stop flag.
    pub open spec fn flag_spec(self) -> Arc<AtomicBool> {
        match self {
            OperationState::Move { stop_flag, .. } => stop_flag,
            OperationState::Copy { stop_flag, .. } => stop_flag,
            OperationState::Delete { stop_flag, .. } => stop_flag,
        }
    }

    /// The same state with another status.
    pub open spec fn with_status(self, s: OperationStatus) -> OperationState {
        match self {
            OperationState::Move { paths, stop_flag, .. } => OperationState::Move { paths, status: s, stop_flag },
            OperationState::Copy { paths, stop_flag, .. } => OperationState::Copy { paths, status: s, stop_flag },
            OperationState::Delete { paths, stop_flag, .. } => OperationState::Delete { paths, status: s, stop_flag },
        }
    }

    /// The state is of the same kind as `op` and has its paths.
    pub open spec fn mirrors(self, op: Operation) -> bool {
        match (self, op) {
            (OperationState::Move { paths: a, .. }, Operation::Move { paths: b, .. }) => a@ == b@,
            (OperationState::Copy { paths: a, .. }, Operation::Copy { paths: b, .. }) => a@ == b@,
            (OperationState::Delete { paths: a, .. }, Operation::Delete { paths: b }) => a@ == b@,
            _ => false,
        }
    }

    /// The status of the operation.
    pub fn status(&self) -> (r: &OperationStatus)
        ensures
            *r == self.status_spec(),
    {
        match self {
            OperationState::Move { status, .. } => status,
            OperationState::Copy { status, .. } => status,
            OperationState::Delete { status, .. } => status,
        }
    }

    /// The flag that stops the operation.
    pub fn stop_flag(&self) -> (r: &Arc<AtomicBool>)
        ensures
            *r == self.flag_spec(),
    {
        match self {
            OperationState::Move { stop_flag, .. } => stop_flag,
            OperationState::Copy { stop_flag, .. } => stop_flag,
            OperationState::Delete { stop_flag, .. } => stop_flag,
        }
    }

    /// Changes the status and nothing else.
    pub fn set_status(&mut self, status: OperationStatus)
        ensures
            *final(self) == old(self).with_status(status),
    {
        match self {
            OperationState::Move { status: previous, .. } => *previous = status,
            OperationState::Copy { status: previous, .. } => *previous = status,
            OperationState::Delete { status: previous, .. } => *previous = status,
        }
    }

    /// Raises or lowers the stop flag. The flag is shared with the running
    /// operation; what it holds afterwards is not tracked here.
    pub fn set_stop_flag(&self, stop: bool) {
        let flag = self.stop_flag();
        flag.store(stop, Ordering::SeqCst);
    }

    /// The pending state of a queued operation, with a lowered stop flag.
    pub fn from_operation(op: &Operation) -> (s: OperationState)
        ensures
            s.mirrors(*op),
            s.status_spec() == OperationStatus::Pending,
    {
        match op {
            Operation::Move { paths, .. } => OperationState::Move {
                paths: clone_pairs(paths),
                status: OperationStatus::Pending,
                stop_flag: Arc::new(AtomicBool::new(false)),
            },
            Operation::Copy { paths, .. } => OperationState::Copy {
                paths: clone_pairs(paths),
                status: OperationStatus::Pending,
                stop_flag: Arc::new(AtomicBool::new(false)),
            },
            Operation::Delete { paths } => OperationState::Delete {
                paths: clone_paths(paths),
                status: OperationStatus::Pending,
                stop_flag: Arc::new(AtomicBool::new(false)),
            },
        }
    }
}

/// Errors of the operation manager.
#[derive(Debug, Clone, PartialEq, Eq)]
pub enum OperationManagerError {
    /// The queue refused the operation; its message.
    FailedToQueueOperation(String),
    NotFound,
}

/// What the operation manager reports about the operation with id `source`.
#[derive(Debug, Clone, PartialEq, Eq)]
pub enum OperationManagerEvent {
    Failed { source: i128, error: String },
    Started { source: i128 },
    Completed { source: i128 },
    Cancelled { source: i128 },
    Moved { source: i128, from: String, to: String },
    Renamed { source: i128, from: String, to: String },
    Copied { source: i128, from: String, to: String },
    Deleted { source: i128, path: String },
    Progress { source: i128, copied_bytes: u64, total_bytes: u64, file_index: usize, file_count: usize },
}

/// The operation an event is about.
pub open spec fn source_spec(e: OperationManagerEvent) -> i128 {
    match e {
        OperationManagerEvent::Failed { source, .. } => source,
        OperationManagerEvent::Started { source } => source,
        OperationManagerEvent::Completed { source } => source,
        OperationManagerEvent::Cancelled { source } => source,
        OperationManagerEvent::Moved { source, .. } => source,
        OperationManagerEvent::Renamed { source, .. } => source,
        OperationManagerEvent::Copied { source, .. } => source,
        OperationManagerEvent::Deleted { source, .. } => source,
        OperationManagerEvent::Progress { source, .. } => source,
    }
}

impl OperationManagerEvent {
    /// The id of the operation the event is about.
    pub fn source(&self) -> (r: i128)
        ensures
            r == source_spec(*self),
    {
        match self {
            OperationManagerEvent::Failed { source, .. } => *source,
            OperationManagerEvent::Started { source } => *source,
            OperationManagerEvent::Completed { source } => *source,
            OperationManagerEvent::Cancelled { source } => *source,
            OperationManagerEvent::Progress { source, .. } => *source,
            OperationManagerEvent::Moved { source, .. } => *source,
            OperationManagerEvent::Renamed { source, .. } => *source,
            OperationManagerEvent::Copied { source, .. } => *source,
            OperationManagerEvent::Deleted { source, .. } => *source,
        }
    }
}

/// The manager event for an event of operation `id`.
pub open spec fn manager_event_spec(id: i128, e: OperationEvent) -> OperationManagerEvent {
    match e {
        OperationEvent::Started => OperationManagerEvent::Started { source: id },
        OperationEvent::Completed => OperationManagerEvent::Completed { source: id },
        OperationEvent::Cancelled => OperationManagerEvent::Cancelled { source: id },
        OperationEvent::Progress { file_index, file_count, copied_bytes, total_bytes } =>
            OperationManagerEvent::Progress { source: id, copied_bytes, total_bytes, file_index, file_count },
        OperationEvent::Renamed { from, to } => OperationManagerEvent::Renamed { source: id, from, to },
        OperationEvent::Moved { from, to } => OperationManagerEvent::Moved { source: id, from, to },
        OperationEvent::Copied { from, to } => OperationManagerEvent::Copied { source: id, from, to },
        OperationEvent::Deleted { path } => OperationManagerEvent::Deleted { source: id, path },
    }
}

/// Passes an event of operation `id` on as a manager event.
pub fn manager_event(id: i128, e: OperationEvent) -> (r: OperationManagerEvent)
    ensures
        r == manager_event_spec(id, e),
        source_spec(r) == id,
{
    match e {
        OperationEvent::Started => OperationManagerEvent::Started { source: id },
        OperationEvent::Completed => OperationManagerEvent::Completed { source: id },
        OperationEvent::Cancelled => OperationManagerEvent::Cancelled { source: id },
        OperationEvent::Progress { file_index, file_count, copied_bytes, total_bytes } =>
            OperationManagerEvent::Progress { source: id, copied_bytes, total_bytes, file_index, file_count },
        OperationEvent::Renamed { from, to } => OperationManagerEvent::Renamed { source: id, from, to },
        OperationEvent::Moved { from, to } => OperationManagerEvent::Moved { source: id, from, to },
        OperationEvent::Copied { from, to } => OperationManagerEvent::Copied { source: id, from, to },
        OperationEvent::Deleted { path } => OperationManagerEvent::Deleted { source: id, path },
    }
}

/// The event reporting that operation `id` failed with `e`.
pub fn failure_event(id: i128, e: &OperationError) -> (r: OperationManagerEvent)
    ensures
        r matches OperationManagerEvent::Failed { source, error } && source == id
            && error@ == operation_error_message(*e),
{
    OperationManagerEvent::Failed { source: id, error: e.message() }
}

/// The queued operations by id.
#[derive(Debug)]
pub struct OperationTable {
    states: BTreeMap<i128, OperationState>,
}

impl View for OperationTable {
    type V = Map<i128, OperationState>;

    closed spec fn view(&self) -> Map<i128, OperationState> {
        self.states@
    }
}

impl OperationTable {
    /// No operation queued.
    pub fn new() -> (t: Self)
        ensures
            t@ == Map::<i128, OperationState>::empty(),
    {
        OperationTable { states: BTreeMap::new() }
    }

    /// The state of operation `id`.
    pub fn get(&self, id: i128) -> (r: Option<&OperationState>)
        ensures
            match r {
                Some(s) => self@.contains_key(id) && self@[id] == *s,
                None => !self@.contains_key(id),
            },
    {
        self.states.get(&id)
    }

    /// Records the pending state of `op` under `id`, in place of what was
    /// there, and hands back its stop flag.
    pub fn queue_with_id(&mut self, id: i128, op: &Operation) -> (flag: Arc<AtomicBool>)
        ensures
            final(self)@.contains_key(id),
            final(self)@ == old(self)@.insert(id, final(self)@[id]),
            final(self)@[id].mirrors(*op),
            final(self)@[id].status_spec() == OperationStatus::Pending,
            final(self)@[id].flag_spec() == flag,
    {
        let state = OperationState::from_operation(op);
        let flag = state.stop_flag().clone();
        self.states.insert(id, state);
        flag
    }

    /// Records the pending state of `op` under an id taken from the clock
    /// (nanoseconds since the epoch); hands back the id and the stop flag.
    pub fn queue_operation(&mut self, op: &Operation) -> (r: (i128, Arc<AtomicBool>))
        ensures
            final(self)@ == old(self)@.insert(r.0, final(self)@[r.0]),
            final(self)@[r.0].mirrors(*op),
            final(self)@[r.0].status_spec() == OperationStatus::Pending,
            final(self)@[r.0].flag_spec() == r.1,
    {
        let id = now_unix_nanos();
        let flag = self.queue_with_id(id, op);
        (id, flag)
    }

    /// Raises the stop flag of operation `id`; `NotFound` when no such
    /// operation is queued.
    pub fn stop_operation(&self, id: i128) -> (r: Result<(), OperationManagerError>)
        ensures
            r == (if self@.contains_key(id) {
                Ok::<(), OperationManagerError>(())
            } else {
                Err(OperationManagerError::NotFound)
            }),
    {
        match self.states.get(&id) {
            Some(state) => {
                state.set_stop_flag(true);
                Ok(())
            },
            None => Err(OperationManagerError::NotFound),
        }
    }

    /// Takes an event of operation `id` into account: a started operation
    /// is in progress, a completed or cancelled one is forgotten.
    pub fn apply(&mut self, id: i128, event: &OperationEvent)
        ensures
            final(self)@ == applied(old(self)@, id, *event),
    {
        match event {
            OperationEvent::Started => {
                match self.states.remove(&id) {
                    Some(mut state) => {
                        state.set_status(OperationStatus::InProgress);
                        self.states.insert(id, state);
                    },
                    None => {},
                }
            },
            OperationEvent::Completed | OperationEvent::Cancelled => {
                self.states.remove(&id);
            },
            _ => {},
        }
    }
}

/// The queued operations after an event of operation `id`: a started one
/// is in progress, a completed or cancelled one is forgotten.
pub open spec fn applied(m: Map<i128, OperationState>, id: i128, e: OperationEvent) -> Map<i128, OperationState> {
    match e {
        OperationEvent::Started => if m.contains_key(id) {
            m.insert(id, m[id].with_status(OperationStatus::InProgress))
        } else {
            m
        },
        OperationEvent::Completed | OperationEvent::Cancelled => m.remove(id),
        _ => m,
    }
}

/// The queued operations after the events of a run of operation `id`, in
/// order.
pub open spec fn applied_all(m: Map<i128, OperationState>, id: i128, events: Seq<OperationEvent>) -> Map<i128, OperationState>
    decreases events.len(),
{
    if events.len() == 0 {
        m
    } else {
        applied(applied_all(m, id, events.drop_last()), id, events.last())
    }
}

/// The manager events a run of operation `id` is passed on as.
pub open spec fn forwarded(id: i128, events: Seq<OperationEvent>) -> Seq<OperationManagerEvent> {
    events.map_values(|e: OperationEvent| manager_event_spec(id, e))
}

/// Every event of a run is passed on once, in order, as a manager event
/// about that run's operation.
pub proof fn law_forwarded_events_carry_their_source(id: i128, events: Seq<OperationEvent>)
    ensures
        forwarded(id, events).len() == events.len(),
        forall|i: int| 0 <= i < events.len() ==> {
            &&& #[trigger] forwarded(id, events)[i] == manager_event_spec(id, events[i])
            &&& source_spec(forwarded(id, events)[i]) == id
        },
{
}

/// The events of one run touch no other queued operation, and a run that
/// ends by completing or by being cancelled leaves no state behind.
pub proof fn law_run_leaves_others_alone(m: Map<i128, OperationState>, id: i128, events: Seq<OperationEvent>)
    ensures
        forall|k: i128| k != id ==> (#[trigger] applied_all(m, id, events).contains_key(k) == m.contains_key(k)),
        forall|k: i128| k != id && m.contains_key(k) ==> #[trigger] applied_all(m, id, events)[k] == m[k],
        events.len() > 0 && (events.last() is Completed || events.last() is Cancelled)
            ==> !applied_all(m, id, events).contains_key(id),
    decreases events.len(),
{
    if events.len() > 0 {
        law_run_leaves_others_alone(m, id, events.drop_last());
        let p = applied_all(m, id, events.drop_last());
        let q = applied_all(m, id, events);
        assert(q == applied(p, id, events.last()));
        assert forall|k: i128| k != id implies (#[trigger] q.contains_key(k) == m.contains_key(k)) by {
            assert(p.contains_key(k) == m.contains_key(k));
        }
        assert forall|k: i128| k != id && m.contains_key(k) implies #[trigger] q[k] == m[k] by {
            assert(p.contains_key(k) && p[k] == m[k]);
        }
    }
}

} // verus!
