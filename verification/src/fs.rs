//! File operations (move, copy, delete) as a step machine: the machine
//! decides, the caller touches the file system. Each step takes the answer
//! to the previous request and hands back the events to report and the
//! next request.

use vstd::prelude::*;
use std::sync::atomic::{AtomicBool, Ordering};
use crate::paths::{path_file_name, path_join, path_parent, spec_path_file_name, spec_path_join, spec_path_parent};
use crate::text::str_concat;

verus! {

/// Why a file operation failed.
#[derive(Debug, Clone, PartialEq, Eq)]
pub enum OperationError {
    /// An I/O call failed with this message.
    Io(String),
    FileNotFound(String),
    FileAlreadyExists(String),
}

/// The message of an operation error.
pub open spec fn operation_error_message(e: OperationError) -> Seq<char> {
    match e {
        OperationError::Io(m) => "Failed to perform IO operation: "@ + m@,
        OperationError::FileNotFound(p) => "File doesn't exist: "@ + p@,
        OperationError::FileAlreadyExists(p) => "File already exists: "@ + p@,
    }
}

impl OperationError {
    /// The human readable message of the error.
    pub fn message(&self) -> (r: String)
        ensures
            r@ == operation_error_message(*self),
    {
        match self {
            OperationError::Io(m) => str_concat("Failed to perform IO operation: ", m.as_str()),
            OperationError::FileNotFound(p) => str_concat("File doesn't exist: ", p.as_str()),
            OperationError::FileAlreadyExists(p) => str_concat("File already exists: ", p.as_str()),
        }
    }
}

/// What a running operation reports.
#[derive(Debug, Clone, PartialEq, Eq)]
pub enum OperationEvent {
    Started,
    Completed,
    Cancelled,
    Progress { file_index: usize, file_count: usize, copied_bytes: u64, total_bytes: u64 },
    Renamed { from: String, to: String },
    Moved { from: String, to: String },
    Copied { from: String, to: String },
    Deleted { path: String },
}

impl Default for OperationEvent {
    fn default() -> (e: Self)
        ensures
            e == OperationEvent::Started,
    {
        OperationEvent::Started
    }
}

/// A file operation. `paths` of a move or copy pairs each source with its
/// destination, which may be a directory to put the source in.
#[derive(Debug, Clone)]
pub enum Operation {
    Move { paths: Vec<(String, String)>, overwrite: bool, delete_empty_directories_after: bool },
    Copy { paths: Vec<(String, String)>, overwrite: bool },
    Delete { paths: Vec<String> },
}

impl Operation {
    /// How many files the operation works on.
    pub open spec fn count(self) -> nat {
        match self {
            Operation::Move { paths, .. } => paths@.len(),
            Operation::Copy { paths, .. } => paths@.len(),
            Operation::Delete { paths } => paths@.len(),
        }
    }

    /// The `i`-th source (for a delete, the `i`-th path).
    pub open spec fn source(self, i: int) -> String {
        match self {
            Operation::Move { paths, .. } => paths@[i].0,
            Operation::Copy { paths, .. } => paths@[i].0,
            Operation::Delete { paths } => paths@[i],
        }
    }

    /// The `i`-th destination of a move or copy.
    pub open spec fn dest(self, i: int) -> String {
        match self {
            Operation::Move { paths, .. } => paths@[i].1,
            Operation::Copy { paths, .. } => paths@[i].1,
            Operation::Delete { paths } => paths@[i],
        }
    }

    /// Whether an existing target may be replaced.
    pub open spec fn overwrites(self) -> bool {
        match self {
            Operation::Move { overwrite, .. } => overwrite,
            Operation::Copy { overwrite, .. } => overwrite,
            Operation::Delete { .. } => false,
        }
    }

    /// Whether a move removes the directories it leaves empty.
    pub open spec fn cleans_up(self) -> bool {
        match self {
            Operation::Move { delete_empty_directories_after, .. } => delete_empty_directories_after,
            _ => false,
        }
    }

    /// Where the `i`-th source goes: into the destination when that is a
    /// directory, else to the destination itself.
    pub open spec fn target(self, i: int, dest_is_dir: bool) -> Seq<char> {
        if dest_is_dir {
            spec_path_join(self.dest(i)@, spec_path_file_name(self.source(i)@)->0)
        } else {
            self.dest(i)@
        }
    }

    fn len(&self) -> (n: usize)
        ensures
            n == self.count(),
    {
        match self {
            Operation::Move { paths, .. } => paths.len(),
            Operation::Copy { paths, .. } => paths.len(),
            Operation::Delete { paths } => paths.len(),
        }
    }

    fn source_at(&self, i: usize) -> (r: &String)
        requires
            i < self.count(),
        ensures
            *r == self.source(i as int),
    {
        match self {
            Operation::Move { paths, .. } => &paths[i].0,
            Operation::Copy { paths, .. } => &paths[i].0,
            Operation::Delete { paths } => &paths[i],
        }
    }

    fn dest_at(&self, i: usize) -> (r: &String)
        requires
            i < self.count(),
        ensures
            *r == self.dest(i as int),
    {
        match self {
            Operation::Move { paths, .. } => &paths[i].1,
            Operation::Copy { paths, .. } => &paths[i].1,
            Operation::Delete { paths } => &paths[i],
        }
    }

    fn overwrite_flag(&self) -> (b: bool)
        ensures
            b == self.overwrites(),
    {
        match self {
            Operation::Move { overwrite, .. } => *overwrite,
            Operation::Copy { overwrite, .. } => *overwrite,
            Operation::Delete { .. } => false,
        }
    }

    fn cleanup_flag(&self) -> (b: bool)
        ensures
            b == self.cleans_up(),
    {
        match self {
            Operation::Move { delete_empty_directories_after, .. } => *delete_empty_directories_after,
            _ => false,
        }
    }

    /// Reads the stop flag of a running operation. The flag is shared with
    /// whoever may stop the operation, so its value is not known here.
    pub fn is_stopped(stop_flag: &AtomicBool) -> (b: bool) {
        stop_flag.load(Ordering::SeqCst)
    }

    /// Starts executing the operation: the first request, or, with nothing to do,
    /// the report that it completed.
    pub fn execute(self) -> (r: (OperationRun, FsStep))
        ensures
            r.0.wf(),
            r.0.operation == self,
            r.0.index == 0,
            self.count() == 0 ==> r.0.phase == RunPhase::Finished(Ok(()))
                && r.1.events@ == seq![OperationEvent::Completed] && r.1.request == FsRequest::Finish(Ok(())),
            self.count() > 0 ==> r.0.phase == RunPhase::Stop && r.1.events@.len() == 0
                && r.1.request == FsRequest::StopFlag,
    {
        if self.len() == 0 {
            let mut events = Vec::new();
            events.push(OperationEvent::Completed);
            (OperationRun { operation: self, index: 0, phase: RunPhase::Finished(Ok(())) },
             FsStep { events, request: FsRequest::Finish(Ok(())) })
        } else {
            (OperationRun { operation: self, index: 0, phase: RunPhase::Stop },
             FsStep { events: Vec::new(), request: FsRequest::StopFlag })
        }
    }
}

/// What the machine asks of the file system.
#[derive(Debug, PartialEq, Eq)]
pub enum FsRequest {
    /// Read the stop flag; answer `Flag`.
    StopFlag,
    /// Whether the path exists; answer `Flag`.
    Exists(String),
    /// Whether the path is a directory; answer `Flag`.
    IsDir(String),
    /// Rename `from` to `to`; answer `Renamed`.
    Rename { from: String, to: String },
    /// Move a file across devices by copying it with progress reports,
    /// then removing the source unless stopped; answer `Done`.
    MoveFile { from: String, to: String, overwrite: bool, file_index: usize, file_count: usize },
    /// Copy a file with progress reports; answer `Done`.
    CopyFile { from: String, to: String, overwrite: bool, file_index: usize, file_count: usize },
    /// Remove a file; answer `Done`.
    RemoveFile(String),
    /// Remove an empty directory; answer `Done`.
    RemoveDir(String),
    /// Count the entries of a directory; answer `Count`.
    CountEntries(String),
    /// The operation is over with this result.
    Finish(Result<(), OperationError>),
}

/// How a rename went.
#[derive(Debug, Clone, PartialEq, Eq)]
pub enum RenameOutcome {
    Done,
    /// Source and target are on different devices.
    CrossesDevices,
    /// Another failure, with its message.
    Failed(String),
}

/// The answer to a request.
#[derive(Debug, PartialEq, Eq)]
pub enum FsReply {
    Flag(bool),
    Renamed(RenameOutcome),
    Done(Result<(), OperationError>),
    /// The number of entries, or the message of a failed read.
    Count(Result<usize, String>),
}

/// Events to report, then the next request.
#[derive(Debug)]
pub struct FsStep {
    pub events: Vec<OperationEvent>,
    pub request: FsRequest,
}

/// Where a run stands on its current file.
#[derive(Debug, PartialEq, Eq)]
pub enum RunPhase {
    /// Waiting for the stop flag before the current file.
    Stop,
    /// Waiting to learn whether the source of a move exists.
    SourceExists,
    /// Waiting to learn whether the destination (for a delete, the path)
    /// is a directory.
    TargetIsDir,
    /// Waiting to learn whether the target of a move exists.
    TargetExists(String),
    /// Waiting for the rename to the target.
    Rename(String),
    /// Waiting for the cross-device move to the target.
    MoveAcross(String),
    /// Waiting for the copy to the target.
    Copy(String),
    /// Waiting for the removal; whether the path is a directory.
    Remove(bool),
    /// Waiting to learn whether the moved source is a directory.
    SourceIsDir,
    /// Waiting for the number of entries of the moved source.
    SourceCount,
    /// Waiting for the removal of the emptied source directory.
    RemoveSource,
    /// Waiting for the number of entries of the source's parent.
    ParentCount(String),
    /// Waiting for the removal of the emptied parent.
    RemoveParent(String),
    /// Over, with this result.
    Finished(Result<(), OperationError>),
}

/// A running operation: the operation, the index of its current file and
/// the phase on that file.
#[derive(Debug)]
pub struct OperationRun {
    pub operation: Operation,
    pub index: usize,
    pub phase: RunPhase,
}

/// The request a run waits on the answer of.
pub open spec fn pending(run: OperationRun) -> FsRequest {
    let op = run.operation;
    let i = run.index as int;
    match run.phase {
        RunPhase::Stop => FsRequest::StopFlag,
        RunPhase::SourceExists => FsRequest::Exists(op.source(i)),
        RunPhase::TargetIsDir => FsRequest::IsDir(op.dest(i)),
        RunPhase::TargetExists(t) => FsRequest::Exists(t),
        RunPhase::Rename(t) => FsRequest::Rename { from: op.source(i), to: t },
        RunPhase::MoveAcross(t) => FsRequest::MoveFile {
            from: op.source(i), to: t, overwrite: op.overwrites(), file_index: run.index, file_count: op.count() as usize,
        },
        RunPhase::Copy(t) => FsRequest::CopyFile {
            from: op.source(i), to: t, overwrite: op.overwrites(), file_index: run.index, file_count: op.count() as usize,
        },
        RunPhase::Remove(d) => if d { FsRequest::RemoveDir(op.source(i)) } else { FsRequest::RemoveFile(op.source(i)) },
        RunPhase::SourceIsDir => FsRequest::IsDir(op.source(i)),
        RunPhase::SourceCount => FsRequest::CountEntries(op.source(i)),
        RunPhase::RemoveSource => FsRequest::RemoveDir(op.source(i)),
        RunPhase::ParentCount(p) => FsRequest::CountEntries(p),
        RunPhase::RemoveParent(p) => FsRequest::RemoveDir(p),
        RunPhase::Finished(r) => FsRequest::Finish(r),
    }
}

/// `new` is `old` in another phase, with nothing to report and `req` next.
pub open spec fn goes_to(old: OperationRun, new: OperationRun, phase: RunPhase, events: Seq<OperationEvent>, req: FsRequest) -> bool {
    &&& new == OperationRun { phase, ..old }
    &&& events == Seq::<OperationEvent>::empty()
    &&& req == pending(new)
}

/// The run ends on `e`.
pub open spec fn fails_with(old: OperationRun, new: OperationRun, e: OperationError, events: Seq<OperationEvent>, req: FsRequest) -> bool {
    &&& new == OperationRun { phase: RunPhase::Finished(Err(e)), ..old }
    &&& events == Seq::<OperationEvent>::empty()
    &&& req == FsRequest::Finish(Err(e))
}

/// After reporting `done`, the run goes on with the next file, or, past the
/// last one, reports completion and ends well.
pub open spec fn advances(old: OperationRun, new: OperationRun, done: Seq<OperationEvent>, events: Seq<OperationEvent>, req: FsRequest) -> bool {
    let next = old.index + 1;
    if next < old.operation.count() {
        &&& new == OperationRun { index: next as usize, phase: RunPhase::Stop, ..old }
        &&& events == done
        &&& req == FsRequest::StopFlag
    } else {
        &&& new == OperationRun { index: next as usize, phase: RunPhase::Finished(Ok(())), ..old }
        &&& events == done.push(OperationEvent::Completed)
        &&& req == FsRequest::Finish(Ok(()))
    }
}

/// After the `i`-th source has been moved and `done` reported: a move that
/// cleans up asks whether the source is a directory, else the run advances.
pub open spec fn after_move(old: OperationRun, new: OperationRun, done: Seq<OperationEvent>, events: Seq<OperationEvent>, req: FsRequest) -> bool {
    if old.operation.cleans_up() {
        &&& new == OperationRun { phase: RunPhase::SourceIsDir, ..old }
        &&& events == done
        &&& req == pending(new)
    } else {
        advances(old, new, done, events, req)
    }
}

/// The clean-up turns to the parent of the source when it has one.
pub open spec fn to_parent(old: OperationRun, new: OperationRun, events: Seq<OperationEvent>, req: FsRequest) -> bool {
    match spec_path_parent(old.operation.source(old.index as int)@) {
        Some(pv) => {
            &&& new.phase matches RunPhase::ParentCount(p) && p@ == pv
            &&& new == OperationRun { phase: new.phase, ..old }
            &&& events == Seq::<OperationEvent>::empty()
            &&& req == pending(new)
        },
        None => advances(old, new, Seq::empty(), events, req),
    }
}

/// Whether `reply` answers the request the run waits on.
pub open spec fn answers(phase: RunPhase, reply: FsReply) -> bool {
    match phase {
        RunPhase::Stop | RunPhase::SourceExists | RunPhase::TargetIsDir | RunPhase::TargetExists(_)
        | RunPhase::SourceIsDir => reply is Flag,
        RunPhase::Rename(_) => reply is Renamed,
        RunPhase::MoveAcross(_) | RunPhase::Copy(_) | RunPhase::Remove(_) | RunPhase::RemoveSource
        | RunPhase::RemoveParent(_) => reply is Done,
        RunPhase::SourceCount | RunPhase::ParentCount(_) => reply is Count,
        RunPhase::Finished(_) => false,
    }
}

/// One step of a run: from `old` and the answer `reply` to `new`, the
/// events to report and the next request. A reply that does not answer
/// the pending request changes nothing and asks again.
pub open spec fn next_step(old: OperationRun, reply: FsReply, new: OperationRun, events: Seq<OperationEvent>, req: FsRequest) -> bool {
    let op = old.operation;
    let i = old.index as int;
    if !answers(old.phase, reply) {
        new == old && events == Seq::<OperationEvent>::empty() && req == pending(old)
    } else {
        match old.phase {
            RunPhase::Stop => if matches!(reply, FsReply::Flag(true)) {
                &&& new == OperationRun { phase: RunPhase::Finished(Ok(())), ..old }
                &&& events == seq![OperationEvent::Cancelled, OperationEvent::Completed]
                &&& req == FsRequest::Finish(Ok(()))
            } else {
                match op {
                    Operation::Move { .. } => goes_to(old, new, RunPhase::SourceExists, events, req),
                    _ => goes_to(old, new, RunPhase::TargetIsDir, events, req),
                }
            },
            RunPhase::SourceExists => if matches!(reply, FsReply::Flag(true)) {
                goes_to(old, new, RunPhase::TargetIsDir, events, req)
            } else {
                fails_with(old, new, OperationError::FileNotFound(op.source(i)), events, req)
            },
            RunPhase::TargetIsDir => {
                let d = matches!(reply, FsReply::Flag(true));
                match op {
                    Operation::Move { .. } => {
                        &&& new.phase matches RunPhase::TargetExists(t) && t@ == op.target(i, d)
                        &&& new == OperationRun { phase: new.phase, ..old }
                        &&& events == Seq::<OperationEvent>::empty()
                        &&& req == pending(new)
                    },
                    Operation::Copy { .. } => {
                        &&& new.phase matches RunPhase::Copy(t) && t@ == op.target(i, d)
                        &&& new == OperationRun { phase: new.phase, ..old }
                        &&& events == Seq::<OperationEvent>::empty()
                        &&& req == pending(new)
                    },
                    Operation::Delete { .. } => goes_to(old, new, RunPhase::Remove(d), events, req),
                }
            },
            RunPhase::TargetExists(t) => if reply == FsReply::Flag(true) && !op.overwrites() {
                fails_with(old, new, OperationError::FileAlreadyExists(t), events, req)
            } else {
                goes_to(old, new, RunPhase::Rename(t), events, req)
            },
            RunPhase::Rename(t) => match reply {
                FsReply::Renamed(RenameOutcome::Done) =>
                    after_move(old, new, seq![OperationEvent::Renamed { from: op.source(i), to: t }], events, req),
                FsReply::Renamed(RenameOutcome::CrossesDevices) => goes_to(old, new, RunPhase::MoveAcross(t), events, req),
                FsReply::Renamed(RenameOutcome::Failed(m)) => fails_with(old, new, OperationError::Io(m), events, req),
                _ => false,
            },
            RunPhase::MoveAcross(t) => match reply {
                FsReply::Done(Ok(())) =>
                    after_move(old, new, seq![OperationEvent::Moved { from: op.source(i), to: t }], events, req),
                FsReply::Done(Err(e)) => fails_with(old, new, e, events, req),
                _ => false,
            },
            RunPhase::Copy(_) => match reply {
                FsReply::Done(Ok(())) => advances(old, new, Seq::empty(), events, req),
                FsReply::Done(Err(e)) => fails_with(old, new, e, events, req),
                _ => false,
            },
            RunPhase::Remove(_) => match reply {
                FsReply::Done(Ok(())) => advances(old, new, seq![OperationEvent::Deleted { path: op.source(i) }], events, req),
                FsReply::Done(Err(e)) => fails_with(old, new, e, events, req),
                _ => false,
            },
            RunPhase::SourceIsDir => if matches!(reply, FsReply::Flag(true)) {
                goes_to(old, new, RunPhase::SourceCount, events, req)
            } else {
                to_parent(old, new, events, req)
            },
            RunPhase::SourceCount => match reply {
                FsReply::Count(Ok(n)) => if n == 0 {
                    goes_to(old, new, RunPhase::RemoveSource, events, req)
                } else {
                    to_parent(old, new, events, req)
                },
                FsReply::Count(Err(m)) => fails_with(old, new, OperationError::Io(m), events, req),
                _ => false,
            },
            RunPhase::RemoveSource | RunPhase::RemoveParent(_) => match reply {
                FsReply::Done(Ok(())) => advances(old, new, Seq::empty(), events, req),
                FsReply::Done(Err(e)) => fails_with(old, new, e, events, req),
                _ => false,
            },
            RunPhase::ParentCount(p) => match reply {
                FsReply::Count(Ok(n)) => if n == 0 {
                    goes_to(old, new, RunPhase::RemoveParent(p), events, req)
                } else {
                    advances(old, new, Seq::empty(), events, req)
                },
                FsReply::Count(Err(m)) => fails_with(old, new, OperationError::Io(m), events, req),
                _ => false,
            },
            RunPhase::Finished(_) => false,
        }
    }
}

impl OperationRun {
    /// A run that is not over is on one of the operation's files.
    pub open spec fn wf(self) -> bool {
        &&& self.operation.count() <= usize::MAX
        &&& !(self.phase is Finished) ==> self.index < self.operation.count()
    }

    /// Whether the step on `reply` can be taken: a move or copy into a
    /// directory needs the source to have a file name.
    pub open spec fn accepts_spec(self, reply: FsReply) -> bool {
        !(self.phase == RunPhase::TargetIsDir && reply == FsReply::Flag(true) && !(self.operation is Delete)
            && spec_path_file_name(self.operation.source(self.index as int)@) is None)
    }

    /// Checks `accepts_spec`.
    pub fn accepts(&self, reply: &FsReply) -> (b: bool)
        requires
            self.wf(),
        ensures
            b == self.accepts_spec(*reply),
    {
        match (&self.phase, reply) {
            (RunPhase::TargetIsDir, FsReply::Flag(true)) => {
                if self.operation.len() <= self.index {
                    return true;
                }
                match &self.operation {
                    Operation::Delete { .. } => true,
                    _ => path_file_name(self.operation.source_at(self.index).as_str()).is_some(),
                }
            },
            _ => true,
        }
    }

    /// The request this run waits on the answer of.
    pub fn pending_request(&self) -> (r: FsRequest)
        requires
            self.wf(),
        ensures
            r == pending(*self),
    {
        let op = &self.operation;
        match &self.phase {
            RunPhase::Stop => FsRequest::StopFlag,
            RunPhase::SourceExists => FsRequest::Exists(op.source_at(self.index).clone()),
            RunPhase::TargetIsDir => FsRequest::IsDir(op.dest_at(self.index).clone()),
            RunPhase::TargetExists(t) => FsRequest::Exists(t.clone()),
            RunPhase::Rename(t) => FsRequest::Rename { from: op.source_at(self.index).clone(), to: t.clone() },
            RunPhase::MoveAcross(t) => FsRequest::MoveFile {
                from: op.source_at(self.index).clone(), to: t.clone(), overwrite: op.overwrite_flag(),
                file_index: self.index, file_count: op.len(),
            },
            RunPhase::Copy(t) => FsRequest::CopyFile {
                from: op.source_at(self.index).clone(), to: t.clone(), overwrite: op.overwrite_flag(),
                file_index: self.index, file_count: op.len(),
            },
            RunPhase::Remove(d) => if *d {
                FsRequest::RemoveDir(op.source_at(self.index).clone())
            } else {
                FsRequest::RemoveFile(op.source_at(self.index).clone())
            },
            RunPhase::SourceIsDir => FsRequest::IsDir(op.source_at(self.index).clone()),
            RunPhase::SourceCount => FsRequest::CountEntries(op.source_at(self.index).clone()),
            RunPhase::RemoveSource => FsRequest::RemoveDir(op.source_at(self.index).clone()),
            RunPhase::ParentCount(p) => FsRequest::CountEntries(p.clone()),
            RunPhase::RemoveParent(p) => FsRequest::RemoveDir(p.clone()),
            RunPhase::Finished(r) => FsRequest::Finish(clone_result(r)),
        }
    }

    /// Moves to `phase` and asks what it waits on.
    fn go(&mut self, phase: RunPhase) -> (s: FsStep)
        requires
            old(self).wf(),
            !(old(self).phase is Finished),
            !(phase is Finished),
        ensures
            goes_to(*old(self), *final(self), phase, s.events@, s.request),
            final(self).wf(),
    {
        self.phase = phase;
        let request = self.pending_request();
        FsStep { events: Vec::new(), request }
    }

    /// Ends the run on `e`.
    fn fail(&mut self, e: OperationError) -> (s: FsStep)
        requires
            old(self).wf(),
        ensures
            fails_with(*old(self), *final(self), e, s.events@, s.request),
            final(self).wf(),
    {
        self.phase = RunPhase::Finished(Err(clone_error(&e)));
        FsStep { events: Vec::new(), request: FsRequest::Finish(Err(e)) }
    }

    /// Reports `done` and goes on with the next file.
    fn advance(&mut self, done: Vec<OperationEvent>) -> (s: FsStep)
        requires
            old(self).wf(),
            !(old(self).phase is Finished),
        ensures
            advances(*old(self), *final(self), done@, s.events@, s.request),
            final(self).wf(),
    {
        let mut events = done;
        let n = self.operation.len();
        self.index = self.index + 1;
        if self.index < n {
            self.phase = RunPhase::Stop;
            FsStep { events, request: FsRequest::StopFlag }
        } else {
            self.phase = RunPhase::Finished(Ok(()));
            events.push(OperationEvent::Completed);
            FsStep { events, request: FsRequest::Finish(Ok(())) }
        }
    }

    /// Reports `done` for a moved source and goes on.
    fn moved(&mut self, done: Vec<OperationEvent>) -> (s: FsStep)
        requires
            old(self).wf(),
            !(old(self).phase is Finished),
        ensures
            after_move(*old(self), *final(self), done@, s.events@, s.request),
            final(self).wf(),
    {
        if self.operation.cleanup_flag() {
            self.phase = RunPhase::SourceIsDir;
            let request = self.pending_request();
            FsStep { events: done, request }
        } else {
            self.advance(done)
        }
    }

    /// Turns the clean-up to the parent of the source.
    fn parent(&mut self) -> (s: FsStep)
        requires
            old(self).wf(),
            !(old(self).phase is Finished),
        ensures
            to_parent(*old(self), *final(self), s.events@, s.request),
            final(self).wf(),
    {
        match path_parent(self.operation.source_at(self.index).as_str()) {
            Some(p) => self.go(RunPhase::ParentCount(p)),
            None => self.advance(Vec::new()),
        }
    }

    /// Takes the answer to the pending request and decides what comes next.
    pub fn step(&mut self, reply: FsReply) -> (s: FsStep)
        requires
            old(self).wf(),
            old(self).accepts_spec(reply),
        ensures
            final(self).wf(),
            next_step(*old(self), reply, *final(self), s.events@, s.request),
    {
        let ghost start = *self;
        if !answers_exec(&self.phase, &reply) {
            let request = self.pending_request();
            return FsStep { events: Vec::new(), request };
        }
        let i = self.index;
        match self.phase.clone_phase() {
            RunPhase::Stop => {
                if matches!(reply, FsReply::Flag(true)) {
                    self.phase = RunPhase::Finished(Ok(()));
                    let mut events = Vec::new();
                    events.push(OperationEvent::Cancelled);
                    events.push(OperationEvent::Completed);
                    assert(events@ =~= seq![OperationEvent::Cancelled, OperationEvent::Completed]);
                    FsStep { events, request: FsRequest::Finish(Ok(())) }
                } else {
                    if matches!(self.operation, Operation::Move { .. }) {
                        self.go(RunPhase::SourceExists)
                    } else {
                        self.go(RunPhase::TargetIsDir)
                    }
                }
            },
            RunPhase::SourceExists => {
                if matches!(reply, FsReply::Flag(true)) {
                    self.go(RunPhase::TargetIsDir)
                } else {
                    let from = self.operation.source_at(i).clone();
                    self.fail(OperationError::FileNotFound(from))
                }
            },
            RunPhase::TargetIsDir => {
                let d = matches!(reply, FsReply::Flag(true));
                let dest = self.operation.dest_at(i);
                let target = if d {
                    let name = match path_file_name(self.operation.source_at(i).as_str()) {
                        Some(n) => n,
                        None => String::new(),
                    };
                    path_join(dest.as_str(), name.as_str())
                } else {
                    dest.clone()
                };
                if matches!(self.operation, Operation::Move { .. }) {
                    self.go(RunPhase::TargetExists(target))
                } else if matches!(self.operation, Operation::Copy { .. }) {
                    self.go(RunPhase::Copy(target))
                } else {
                    self.go(RunPhase::Remove(d))
                }
            },
            RunPhase::TargetExists(t) => {
                if matches!(reply, FsReply::Flag(true)) && !self.operation.overwrite_flag() {
                    self.fail(OperationError::FileAlreadyExists(t))
                } else {
                    self.go(RunPhase::Rename(t))
                }
            },
            RunPhase::Rename(t) => match reply {
                FsReply::Renamed(RenameOutcome::Done) => {
                    let mut done = Vec::new();
                    done.push(OperationEvent::Renamed { from: self.operation.source_at(i).clone(), to: t });
                    self.moved(done)
                },
                FsReply::Renamed(RenameOutcome::CrossesDevices) => self.go(RunPhase::MoveAcross(t)),
                FsReply::Renamed(RenameOutcome::Failed(m)) => self.fail(OperationError::Io(m)),
                _ => {
                    proof { assert(false); }
                    self.fail(OperationError::Io(String::new()))
                },
            },
            RunPhase::MoveAcross(t) => match reply {
                FsReply::Done(Ok(())) => {
                    let mut done = Vec::new();
                    done.push(OperationEvent::Moved { from: self.operation.source_at(i).clone(), to: t });
                    self.moved(done)
                },
                FsReply::Done(Err(e)) => self.fail(e),
                _ => {
                    proof { assert(false); }
                    self.fail(OperationError::Io(String::new()))
                },
            },
            RunPhase::Copy(_) => match reply {
                FsReply::Done(Ok(())) => self.advance(Vec::new()),
                FsReply::Done(Err(e)) => self.fail(e),
                _ => {
                    proof { assert(false); }
                    self.fail(OperationError::Io(String::new()))
                },
            },
            RunPhase::Remove(_) => match reply {
                FsReply::Done(Ok(())) => {
                    let mut done = Vec::new();
                    done.push(OperationEvent::Deleted { path: self.operation.source_at(i).clone() });
                    self.advance(done)
                },
                FsReply::Done(Err(e)) => self.fail(e),
                _ => {
                    proof { assert(false); }
                    self.fail(OperationError::Io(String::new()))
                },
            },
            RunPhase::SourceIsDir => {
                if matches!(reply, FsReply::Flag(true)) {
                    self.go(RunPhase::SourceCount)
                } else {
                    self.parent()
                }
            },
            RunPhase::SourceCount => match reply {
                FsReply::Count(Ok(n)) => if n == 0 {
                    self.go(RunPhase::RemoveSource)
                } else {
                    self.parent()
                },
                FsReply::Count(Err(m)) => self.fail(OperationError::Io(m)),
                _ => {
                    proof { assert(false); }
                    self.fail(OperationError::Io(String::new()))
                },
            },
            RunPhase::RemoveSource | RunPhase::RemoveParent(_) => match reply {
                FsReply::Done(Ok(())) => self.advance(Vec::new()),
                FsReply::Done(Err(e)) => self.fail(e),
                _ => {
                    proof { assert(false); }
                    self.fail(OperationError::Io(String::new()))
                },
            },
            RunPhase::ParentCount(p) => match reply {
                FsReply::Count(Ok(n)) => if n == 0 {
                    self.go(RunPhase::RemoveParent(p))
                } else {
                    self.advance(Vec::new())
                },
                FsReply::Count(Err(m)) => self.fail(OperationError::Io(m)),
                _ => {
                    proof { assert(false); }
                    self.fail(OperationError::Io(String::new()))
                },
            },
            RunPhase::Finished(_) => {
                proof { assert(false); }
                self.fail(OperationError::Io(String::new()))
            },
        }
    }
}

impl RunPhase {
    /// A copy of the phase.
    fn clone_phase(&self) -> (r: RunPhase)
        ensures
            r == *self,
    {
        match self {
            RunPhase::Stop => RunPhase::Stop,
            RunPhase::SourceExists => RunPhase::SourceExists,
            RunPhase::TargetIsDir => RunPhase::TargetIsDir,
            RunPhase::TargetExists(t) => RunPhase::TargetExists(t.clone()),
            RunPhase::Rename(t) => RunPhase::Rename(t.clone()),
            RunPhase::MoveAcross(t) => RunPhase::MoveAcross(t.clone()),
            RunPhase::Copy(t) => RunPhase::Copy(t.clone()),
            RunPhase::Remove(d) => RunPhase::Remove(*d),
            RunPhase::SourceIsDir => RunPhase::SourceIsDir,
            RunPhase::SourceCount => RunPhase::SourceCount,
            RunPhase::RemoveSource => RunPhase::RemoveSource,
            RunPhase::ParentCount(p) => RunPhase::ParentCount(p.clone()),
            RunPhase::RemoveParent(p) => RunPhase::RemoveParent(p.clone()),
            RunPhase::Finished(r) => RunPhase::Finished(clone_result(r)),
        }
    }
}

/// Checks `answers`.
fn answers_exec(phase: &RunPhase, reply: &FsReply) -> (b: bool)
    ensures
        b == answers(*phase, *reply),
{
    match phase {
        RunPhase::Stop | RunPhase::SourceExists | RunPhase::TargetIsDir | RunPhase::TargetExists(_)
        | RunPhase::SourceIsDir => matches!(reply, FsReply::Flag(_)),
        RunPhase::Rename(_) => matches!(reply, FsReply::Renamed(_)),
        RunPhase::MoveAcross(_) | RunPhase::Copy(_) | RunPhase::Remove(_) | RunPhase::RemoveSource
        | RunPhase::RemoveParent(_) => matches!(reply, FsReply::Done(_)),
        RunPhase::SourceCount | RunPhase::ParentCount(_) => matches!(reply, FsReply::Count(_)),
        RunPhase::Finished(_) => false,
    }
}

/// A copy of an operation error.
fn clone_error(e: &OperationError) -> (r: OperationError)
    ensures
        r == *e,
{
    match e {
        OperationError::Io(m) => OperationError::Io(m.clone()),
        OperationError::FileNotFound(p) => OperationError::FileNotFound(p.clone()),
        OperationError::FileAlreadyExists(p) => OperationError::FileAlreadyExists(p.clone()),
    }
}

/// A copy of an operation result.
fn clone_result(r: &Result<(), OperationError>) -> (c: Result<(), OperationError>)
    ensures
        c == *r,
{
    match r {
        Ok(u) => Ok(*u),
        Err(e) => Err(clone_error(e)),
    }
}

/// A stop flag found set before a file cancels the run: it reports
/// `Cancelled`, then `Completed`, and ends well.
pub proof fn law_stop_cancels(run: OperationRun, new: OperationRun, events: Seq<OperationEvent>, req: FsRequest)
    requires
        run.wf(),
        run.phase == RunPhase::Stop,
        next_step(run, FsReply::Flag(true), new, events, req),
    ensures
        events == seq![OperationEvent::Cancelled, OperationEvent::Completed],
        req == FsRequest::Finish(Ok(())),
        new.phase == RunPhase::Finished(Ok(())),
{
}

/// A run reports `Completed` exactly on the step that ends it well, and
/// never on a step that ends it with an error.
pub proof fn law_completed_iff_success(run: OperationRun, reply: FsReply, new: OperationRun, events: Seq<OperationEvent>, req: FsRequest)
    requires
        run.wf(),
        !(run.phase is Finished),
        next_step(run, reply, new, events, req),
    ensures
        (new.phase == RunPhase::Finished(Ok(()))) <==> (events.len() > 0 && events.last() == OperationEvent::Completed),
        (new.phase == RunPhase::Finished(Ok(()))) <==> (req == FsRequest::Finish(Ok(()))),
        new.phase matches RunPhase::Finished(Err(_)) ==> !events.contains(OperationEvent::Completed),
{
    if new.phase matches RunPhase::Finished(Err(_)) {
        assert(events.len() == 0);
    }
}

/// A rename onto a path is first asked for only after the path was found
/// not to exist, or when the operation may overwrite.
pub proof fn law_no_clobber(run: OperationRun, reply: FsReply, new: OperationRun, events: Seq<OperationEvent>, req: FsRequest)
    requires
        run.wf(),
        next_step(run, reply, new, events, req),
        new.phase matches RunPhase::Rename(_),
        !(run.phase matches RunPhase::Rename(_)),
    ensures
        run.phase == RunPhase::TargetExists(new.phase->Rename_0),
        reply == FsReply::Flag(false) || run.operation.overwrites(),
{
}

/// A step keeps the operation, stays on the current file or moves to the
/// next one, and a finished run stays as it is.
pub proof fn law_progress(run: OperationRun, reply: FsReply, new: OperationRun, events: Seq<OperationEvent>, req: FsRequest)
    requires
        run.wf(),
        next_step(run, reply, new, events, req),
    ensures
        new.wf(),
        new.operation == run.operation,
        new.index == run.index || new.index == run.index + 1,
        run.phase is Finished ==> new == run && events.len() == 0 && req == pending(run),
{
}

/// `runs` is a run of an operation: each state follows from the one before
/// by the answer in `replies`, reporting `events` and asking `reqs` next.
pub open spec fn fs_trace(runs: Seq<OperationRun>, replies: Seq<FsReply>, events: Seq<Seq<OperationEvent>>, reqs: Seq<FsRequest>) -> bool {
    &&& runs.len() == replies.len() + 1
    &&& events.len() == replies.len()
    &&& reqs.len() == replies.len()
    &&& forall|i: int| 0 <= i < replies.len() ==> next_step(runs[i], #[trigger] replies[i], runs[i + 1], events[i], reqs[i])
}

/// The paths reported done, `d`, followed by the one `e` reports moved,
/// renamed or deleted, if any.
pub open spec fn add_done(d: Seq<String>, e: OperationEvent) -> Seq<String> {
    match e {
        OperationEvent::Renamed { from, .. } => d.push(from),
        OperationEvent::Moved { from, .. } => d.push(from),
        OperationEvent::Deleted { path } => d.push(path),
        _ => d,
    }
}

/// The paths reported done, `d`, followed by those `evs` report, in order.
pub open spec fn extend_done(d: Seq<String>, evs: Seq<OperationEvent>) -> Seq<String>
    decreases evs.len(),
{
    if evs.len() == 0 {
        d
    } else {
        add_done(extend_done(d, evs.drop_last()), evs.last())
    }
}

/// The paths reported done along a run, step after step.
pub open spec fn run_done_paths(events: Seq<Seq<OperationEvent>>) -> Seq<String>
    decreases events.len(),
{
    if events.len() == 0 {
        Seq::empty()
    } else {
        extend_done(run_done_paths(events.drop_last()), events.last())
    }
}

/// Reporting one more event extends what was reported by what it reports.
proof fn lemma_extend_done()
    ensures
        forall|d: Seq<String>, evs: Seq<OperationEvent>, e: OperationEvent|
            #[trigger] extend_done(d, evs.push(e)) == add_done(extend_done(d, evs), e),
        forall|d: Seq<String>| #[trigger] extend_done(d, Seq::<OperationEvent>::empty()) == d,
{
    assert forall|d: Seq<String>, evs: Seq<OperationEvent>, e: OperationEvent|
        #[trigger] extend_done(d, evs.push(e)) == add_done(extend_done(d, evs), e) by {
        assert(evs.push(e).drop_last() =~= evs);
    }
}

/// Whether some step of a run reported `e`.
pub open spec fn run_reports(events: Seq<Seq<OperationEvent>>, e: OperationEvent) -> bool {
    exists|i: int| 0 <= i < events.len() && #[trigger] events[i].contains(e)
}

/// The sources of an operation (for a delete, its paths), in order.
pub open spec fn sources(op: Operation) -> Seq<String> {
    Seq::new(op.count(), |i: int| op.source(i))
}

/// What a run of a move or a delete has reported done when it stands in
/// `s`: the sources before the current one, and the current one too once
/// it is moved; all of them when it ended well without being cancelled.
pub open spec fn reported_so_far(op: Operation, s: OperationRun, done: Seq<String>, cancelled: bool) -> bool {
    &&& s.operation == op
    &&& s.wf()
    &&& !(s.phase is Copy)
    &&& match s.phase {
        RunPhase::SourceIsDir | RunPhase::SourceCount | RunPhase::RemoveSource | RunPhase::ParentCount(_)
        | RunPhase::RemoveParent(_) => done == sources(op).take(s.index + 1),
        RunPhase::Finished(Ok(())) => cancelled || done == sources(op),
        RunPhase::Finished(Err(_)) => true,
        _ => done == sources(op).take(s.index as int),
    }
}

/// Along a run of a move or a delete from its first file, what was
/// reported done is what the state says.
proof fn lemma_fs_trace(runs: Seq<OperationRun>, replies: Seq<FsReply>, events: Seq<Seq<OperationEvent>>, reqs: Seq<FsRequest>, k: int)
    requires
        fs_trace(runs, replies, events, reqs),
        runs[0].wf(),
        runs[0].phase == RunPhase::Stop,
        runs[0].index == 0,
        !(runs[0].operation is Copy),
        0 <= k <= replies.len(),
    ensures
        reported_so_far(runs[0].operation, runs[k], run_done_paths(events.take(k)),
            run_reports(events.take(k), OperationEvent::Cancelled)),
    decreases k,
{
    let op = runs[0].operation;
    if k == 0 {
        assert(events.take(0).len() == 0);
        assert(sources(op).take(0) =~= Seq::<String>::empty());
    } else {
        let i = k - 1;
        lemma_fs_trace(runs, replies, events, reqs, i);
        lemma_extend_done();
        let old = runs[i];
        let new = runs[k];
        let ev = events[i];
        assert(next_step(old, replies[i], new, ev, reqs[i]));
        assert(events.take(k).drop_last() =~= events.take(i));
        assert(events.take(k).last() == ev);
        let before = run_done_paths(events.take(i));
        assert(run_done_paths(events.take(k)) == extend_done(before, ev));
        if run_reports(events.take(i), OperationEvent::Cancelled) {
            let w = choose|w: int| 0 <= w < events.take(i).len() && #[trigger] events.take(i)[w].contains(OperationEvent::Cancelled);
            assert(events.take(k)[w] == events.take(i)[w]);
        }
        if ev.len() > 0 && ev[0] == OperationEvent::Cancelled {
            assert(events.take(k)[i].contains(OperationEvent::Cancelled));
        }
        let n = old.index as int;
        if !(old.phase is Finished) {
            assert(sources(op).take(n).push(op.source(n)) =~= sources(op).take(n + 1));
            if n + 1 == op.count() {
                assert(sources(op).take(n + 1) =~= sources(op));
            }
        }
    }
}

/// A move or a delete that ends well without being cancelled reported each
/// of its paths as moved or deleted exactly once, in the order of the
/// operation.
pub proof fn law_each_path_reported_once(runs: Seq<OperationRun>, replies: Seq<FsReply>, events: Seq<Seq<OperationEvent>>, reqs: Seq<FsRequest>)
    requires
        fs_trace(runs, replies, events, reqs),
        runs[0].wf(),
        runs[0].phase == RunPhase::Stop,
        runs[0].index == 0,
        !(runs[0].operation is Copy),
        runs.last().phase == RunPhase::Finished(Ok(())),
        !run_reports(events, OperationEvent::Cancelled),
    ensures
        run_done_paths(events) == sources(runs[0].operation),
{
    lemma_fs_trace(runs, replies, events, reqs, replies.len() as int);
    assert(events.take(replies.len() as int) =~= events);
}

/// How a file copy begins.
#[derive(Debug, PartialEq, Eq)]
pub enum CopyStart {
    /// The operation was stopped: nothing is copied and nothing fails.
    Skip,
    /// The copy fails with this error.
    Fail(OperationError),
    /// The copy goes ahead.
    Proceed,
}

/// How a file copy begins, from the stop flag and what the file system
/// says of both paths. A missing source fails as not found; an existing
/// destination fails unless it may be overwritten.
pub fn copy_start(stopped: bool, from: String, from_exists: bool, to: String, to_exists: bool, overwrite: bool) -> (r: CopyStart)
    ensures
        r == (if stopped {
            CopyStart::Skip
        } else if !from_exists {
            CopyStart::Fail(OperationError::FileNotFound(from))
        } else if to_exists && !overwrite {
            CopyStart::Fail(OperationError::FileAlreadyExists(to))
        } else {
            CopyStart::Proceed
        }),
{
    if stopped {
        CopyStart::Skip
    } else if !from_exists {
        CopyStart::Fail(OperationError::FileNotFound(from))
    } else if to_exists && !overwrite {
        CopyStart::Fail(OperationError::FileAlreadyExists(to))
    } else {
        CopyStart::Proceed
    }
}

/// The events for a chunk copied: `Cancelled` first when the operation
/// was stopped, then the progress of the current file.
pub fn handle_progress(copied_bytes: u64, total_bytes: u64, file_index: usize, file_count: usize, stopped: bool)
    -> (r: Vec<OperationEvent>)
    ensures
        r@ == (if stopped {
            seq![OperationEvent::Cancelled, OperationEvent::Progress { file_index, file_count, copied_bytes, total_bytes }]
        } else {
            seq![OperationEvent::Progress { file_index, file_count, copied_bytes, total_bytes }]
        }),
{
    let mut events = Vec::new();
    if stopped {
        events.push(OperationEvent::Cancelled);
    }
    events.push(OperationEvent::Progress { file_index, file_count, copied_bytes, total_bytes });
    proof {
        if stopped {
            assert(events@ =~= seq![OperationEvent::Cancelled, OperationEvent::Progress { file_index, file_count, copied_bytes, total_bytes }]);
        } else {
            assert(events@ =~= seq![OperationEvent::Progress { file_index, file_count, copied_bytes, total_bytes }]);
        }
    }
    events
}

/// A copy that was stopped before the whole file was written leaves no
/// partial destination behind.
pub fn discard_partial_copy(stopped: bool, written_bytes: u64, file_size: u64) -> (r: bool)
    ensures
        r == (stopped && written_bytes != file_size),
{
    stopped && written_bytes != file_size
}

} // verus!
