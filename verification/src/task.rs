//! Background tasks: their status, the events they report, and the
//! registry that starts and stops them by id.

use vstd::prelude::*;
use crate::clock::now_unix_nanos;
use crate::strmap::{StrMap, str_eq};
use crate::text::str_concat;

verus! {

/// The status of a task. As a number: 0 idle, 1 running, 2 stopped; any
/// other number reads as idle.
#[derive(Debug, Clone, Copy, PartialEq, Eq, Structural)]
pub enum TaskStatus {
    Idle,
    Running,
    Stopped,
}

/// The status a number stands for.
pub open spec fn status_of(v: u8) -> TaskStatus {
    if v == 1 {
        TaskStatus::Running
    } else if v == 2 {
        TaskStatus::Stopped
    } else {
        TaskStatus::Idle
    }
}

/// The number of a status.
pub open spec fn number_of(s: TaskStatus) -> u8 {
    match s {
        TaskStatus::Idle => 0,
        TaskStatus::Running => 1,
        TaskStatus::Stopped => 2,
    }
}

impl Default for TaskStatus {
    fn default() -> (s: Self)
        ensures
            s == TaskStatus::Idle,
    {
        TaskStatus::Idle
    }
}

impl From<u8> for TaskStatus {
    fn from(v: u8) -> (s: Self) {
        if v == 1 {
            TaskStatus::Running
        } else if v == 2 {
            TaskStatus::Stopped
        } else {
            TaskStatus::Idle
        }
    }
}

impl vstd::std_specs::convert::FromSpecImpl<u8> for TaskStatus {
    open spec fn obeys_from_spec() -> bool {
        true
    }

    open spec fn from_spec(v: u8) -> TaskStatus {
        status_of(v)
    }
}

impl From<TaskStatus> for u8 {
    fn from(s: TaskStatus) -> (v: u8) {
        match s {
            TaskStatus::Idle => 0,
            TaskStatus::Running => 1,
            TaskStatus::Stopped => 2,
        }
    }
}

impl vstd::std_specs::convert::FromSpecImpl<TaskStatus> for u8 {
    open spec fn obeys_from_spec() -> bool {
        true
    }

    open spec fn from_spec(s: TaskStatus) -> u8 {
        number_of(s)
    }
}

impl TaskStatus {
    /// The status a number stands for.
    pub fn from_number(v: u8) -> (s: TaskStatus)
        ensures
            s == status_of(v),
    {
        TaskStatus::from(v)
    }

    /// The number of the status.
    pub fn number(self) -> (v: u8)
        ensures
            v == number_of(self),
    {
        u8::from(self)
    }

    /// Whether the number stands for an idle task.
    pub fn is_idle(value: u8) -> (b: bool)
        ensures
            b == (status_of(value) == TaskStatus::Idle),
    {
        TaskStatus::from(value) == TaskStatus::Idle
    }

    /// Whether the number stands for a running task.
    pub fn is_running(value: u8) -> (b: bool)
        ensures
            b == (status_of(value) == TaskStatus::Running),
    {
        TaskStatus::from(value) == TaskStatus::Running
    }

    /// Whether the number stands for a stopped task.
    pub fn is_stopped(value: u8) -> (b: bool)
        ensures
            b == (status_of(value) == TaskStatus::Stopped),
    {
        TaskStatus::from(value) == TaskStatus::Stopped
    }
}

/// Reading back the number of a status gives the status.
pub proof fn law_status_number_round_trip(s: TaskStatus)
    ensures
        status_of(number_of(s)) == s,
{
}

/// Why a task could not change state.
#[derive(Debug, Clone, PartialEq, Eq)]
pub enum TaskError {
    Running,
    Stop,
    Failed(String),
}

/// The message of a task error.
pub open spec fn task_error_message(e: TaskError) -> Seq<char> {
    match e {
        TaskError::Running => "Task is already running"@,
        TaskError::Stop => "Task is already stopped or is idle"@,
        TaskError::Failed(m) => "Task failed: "@ + m@,
    }
}

impl TaskError {
    /// The human readable message of the error.
    pub fn message(&self) -> (r: String)
        ensures
            r@ == task_error_message(*self),
    {
        match self {
            TaskError::Running => String::from_str("Task is already running"),
            TaskError::Stop => String::from_str("Task is already stopped or is idle"),
            TaskError::Failed(m) => str_concat("Task failed: ", m.as_str()),
        }
    }
}

/// What a task is, for the UI.
#[derive(Debug, Clone)]
pub struct TaskInfo {
    pub id: String,
    pub name: String,
    pub description: String,
    pub steps: u8,
}

impl TaskInfo {
    /// A task description.
    pub fn new(id: &str, name: &str, description: &str, steps: u8) -> (i: TaskInfo)
        ensures
            i.id@ == id@,
            i.name@ == name@,
            i.description@ == description@,
            i.steps == steps,
    {
        TaskInfo { id: String::from_str(id), name: String::from_str(name), description: String::from_str(description), steps }
    }

    /// A copy of the description.
    pub fn duplicate(&self) -> (i: TaskInfo)
        ensures
            i == *self,
    {
        TaskInfo { id: self.id.clone(), name: self.name.clone(), description: self.description.clone(), steps: self.steps }
    }
}

impl Default for TaskInfo {
    fn default() -> (i: Self)
        ensures
            i.id@.len() == 0,
            i.name@.len() == 0,
            i.description@.len() == 0,
            i.steps == 1,
    {
        TaskInfo { id: String::new(), name: String::new(), description: String::new(), steps: 1 }
    }
}

/// The kind of a task event.
#[derive(Debug, Clone, Copy, PartialEq, Eq, Structural)]
pub enum TaskEventType {
    Initial,
    Info,
    Error,
    Warning,
    Progress,
    Complete,
    Start,
    Stop,
}

impl Default for TaskEventType {
    fn default() -> (t: Self)
        ensures
            t == TaskEventType::Initial,
    {
        TaskEventType::Initial
    }
}

/// An event of a task; `timestamp` is when it was made, in nanoseconds
/// since the Unix epoch.
#[derive(Debug, Clone)]
pub struct TaskEvent {
    pub kind: TaskEventType,
    pub message: String,
    pub current: Option<u64>,
    pub total: Option<u64>,
    pub step: Option<u8>,
    pub timestamp: i128,
}

impl Default for TaskEvent {
    fn default() -> (e: Self)
        ensures
            e.kind == TaskEventType::Initial,
            e.message@.len() == 0,
            e.current is None && e.total is None && e.step is None,
    {
        TaskEvent {
            kind: TaskEventType::Initial,
            message: String::new(),
            current: None,
            total: None,
            step: None,
            timestamp: now_unix_nanos(),
        }
    }
}

impl TaskEvent {
    /// An event of kind `kind`, stamped with the current time.
    pub fn new(kind: TaskEventType, message: String, current: Option<u64>, total: Option<u64>, step: Option<u8>) -> (e: Self)
        ensures
            e.kind == kind,
            e.message == message,
            e.current == current,
            e.total == total,
            e.step == step,
    {
        TaskEvent { kind, message, current, total, step, timestamp: now_unix_nanos() }
    }

    /// An event of kind `kind` with a message and no counts.
    fn plain(kind: TaskEventType, message: &str) -> (e: Self)
        ensures
            e.kind == kind,
            e.message@ == message@,
            e.current is None && e.total is None && e.step is None,
    {
        TaskEvent::new(kind, String::from_str(message), None, None, None)
    }

    /// An informative event.
    pub fn info(message: &str) -> (e: Self)
        ensures
            e.kind == TaskEventType::Info,
            e.message@ == message@,
            e.current is None && e.total is None && e.step is None,
    {
        TaskEvent::plain(TaskEventType::Info, message)
    }

    /// An error event.
    pub fn error(message: &str) -> (e: Self)
        ensures
            e.kind == TaskEventType::Error,
            e.message@ == message@,
            e.current is None && e.total is None && e.step is None,
    {
        TaskEvent::plain(TaskEventType::Error, message)
    }

    /// A warning event.
    pub fn warning(message: &str) -> (e: Self)
        ensures
            e.kind == TaskEventType::Warning,
            e.message@ == message@,
            e.current is None && e.total is None && e.step is None,
    {
        TaskEvent::plain(TaskEventType::Warning, message)
    }

    /// The event of a task that completed.
    pub fn complete(message: &str) -> (e: Self)
        ensures
            e.kind == TaskEventType::Complete,
            e.message@ == message@,
            e.current is None && e.total is None && e.step is None,
    {
        TaskEvent::plain(TaskEventType::Complete, message)
    }

    /// A progress event: `current` of `total` done in `step`.
    pub fn progress(message: &str, current: u64, total: u64, step: Option<u8>) -> (e: Self)
        ensures
            e.kind == TaskEventType::Progress,
            e.message@ == message@,
            e.current == Some(current),
            e.total == Some(total),
            e.step == step,
    {
        TaskEvent::new(TaskEventType::Progress, String::from_str(message), Some(current), Some(total), step)
    }

    /// The event of a task that started.
    pub fn start(message: &str) -> (e: Self)
        ensures
            e.kind == TaskEventType::Start,
            e.message@ == message@,
            e.current is None && e.total is None && e.step is None,
    {
        TaskEvent::plain(TaskEventType::Start, message)
    }

    /// The event of a task that stopped.
    pub fn stop(message: &str) -> (e: Self)
        ensures
            e.kind == TaskEventType::Stop,
            e.message@ == message@,
            e.current is None && e.total is None && e.step is None,
    {
        TaskEvent::plain(TaskEventType::Stop, message)
    }

    /// The first event of the channel of task `name`.
    pub fn initial(name: &str) -> (e: Self)
        ensures
            e.kind == TaskEventType::Initial,
            e.message@ == "Initialized \""@ + name@ + "\" event channel"@,
            e.current is None && e.total is None && e.step is None,
    {
        let message = str_concat("Initialized \"", name).concat("\" event channel");
        TaskEvent::new(TaskEventType::Initial, message, None, None, None)
    }
}

/// How a run of a task ended: it did all its work, it found nothing to do
/// and gave up, or it noticed that it was asked to stop.
#[derive(Debug, Clone, Copy, PartialEq, Eq, Structural)]
pub enum RunEnd {
    Completed,
    Cancelled,
    Stopped,
}

/// What a task keeps of itself: its description, its status and when its
/// last run started, completed or was cancelled (nanoseconds since the
/// Unix epoch).
#[derive(Debug)]
pub struct TaskRecord {
    pub info: TaskInfo,
    pub status: TaskStatus,
    pub started_at: Option<i128>,
    pub completed_at: Option<i128>,
    pub cancelled_at: Option<i128>,
}

impl TaskRecord {
    /// An idle task that never ran.
    pub fn new(info: TaskInfo) -> (r: Self)
        ensures
            r.info == info,
            r.status == TaskStatus::Idle,
            r.started_at is None && r.completed_at is None && r.cancelled_at is None,
    {
        TaskRecord { info, status: TaskStatus::Idle, started_at: None, completed_at: None, cancelled_at: None }
    }

    /// Starts a run: refused with `Running` while one runs; otherwise the
    /// task runs from now on.
    pub fn start(&mut self) -> (r: Result<(), TaskError>)
        ensures
            old(self).status == TaskStatus::Running <==> r == Err::<(), TaskError>(TaskError::Running),
            old(self).status != TaskStatus::Running <==> r is Ok,
            r is Ok ==> {
                &&& final(self).status == TaskStatus::Running
                &&& final(self).started_at is Some
                &&& final(self).completed_at == old(self).completed_at
                &&& final(self).cancelled_at == old(self).cancelled_at
                &&& final(self).info == old(self).info
            },
            r is Err ==> *final(self) == *old(self),
    {
        if self.status == TaskStatus::Running {
            return Err(TaskError::Running);
        }
        self.status = TaskStatus::Running;
        self.started_at = Some(now_unix_nanos());
        Ok(())
    }

    /// Asks a running task to stop: refused with `Stop` when none runs;
    /// otherwise the task is stopped and its run ends when it notices.
    pub fn stop(&mut self) -> (r: Result<(), TaskError>)
        ensures
            old(self).status != TaskStatus::Running <==> r == Err::<(), TaskError>(TaskError::Stop),
            old(self).status == TaskStatus::Running <==> r is Ok,
            r is Ok ==> *final(self) == (TaskRecord { status: TaskStatus::Stopped, ..*old(self) }),
            r is Err ==> *final(self) == *old(self),
    {
        if self.status != TaskStatus::Running {
            return Err(TaskError::Stop);
        }
        self.status = TaskStatus::Stopped;
        Ok(())
    }

    /// Ends the current run: the task is idle again; a completed run stamps
    /// `completed_at`, a cancelled one `cancelled_at`, a stopped one neither.
    pub fn end_run(&mut self, end: RunEnd)
        ensures
            final(self).status == TaskStatus::Idle,
            final(self).info == old(self).info,
            final(self).started_at == old(self).started_at,
            end == RunEnd::Completed ==> final(self).completed_at is Some && final(self).cancelled_at == old(self).cancelled_at,
            end == RunEnd::Cancelled ==> final(self).cancelled_at is Some && final(self).completed_at == old(self).completed_at,
            end == RunEnd::Stopped ==> final(self).completed_at == old(self).completed_at && final(self).cancelled_at == old(self).cancelled_at,
    {
        self.status = TaskStatus::Idle;
        match end {
            RunEnd::Completed => { self.completed_at = Some(now_unix_nanos()); },
            RunEnd::Cancelled => { self.cancelled_at = Some(now_unix_nanos()); },
            RunEnd::Stopped => {},
        }
    }
}

/// A background task that the registry can start and stop.
pub trait Task {
    /// The description of the task.
    spec fn spec_info(&self) -> TaskInfo;

    /// The status of the task.
    spec fn spec_status(&self) -> TaskStatus;

    /// The description of the task.
    fn info(&self) -> (r: &TaskInfo)
        ensures
            *r == self.spec_info();

    /// Starts the task: refused with `Running` while it runs, and then
    /// nothing changes; otherwise it runs.
    fn start(&mut self) -> (r: Result<(), TaskError>)
        ensures
            old(self).spec_status() == TaskStatus::Running <==> r == Err::<(), TaskError>(TaskError::Running),
            old(self).spec_status() != TaskStatus::Running <==> r is Ok,
            r is Ok ==> final(self).spec_status() == TaskStatus::Running,
            r is Err ==> final(self).spec_status() == old(self).spec_status(),
            final(self).spec_info() == old(self).spec_info();

    /// Stops the task: refused with `Stop` when it does not run, and then
    /// nothing changes; otherwise it is stopped.
    fn stop(&mut self) -> (r: Result<(), TaskError>)
        ensures
            old(self).spec_status() != TaskStatus::Running <==> r == Err::<(), TaskError>(TaskError::Stop),
            old(self).spec_status() == TaskStatus::Running <==> r is Ok,
            r is Ok ==> final(self).spec_status() == TaskStatus::Stopped,
            r is Err ==> final(self).spec_status() == old(self).spec_status(),
            final(self).spec_info() == old(self).spec_info();

    /// The status of the task.
    fn status(&self) -> (r: TaskStatus)
        ensures
            r == self.spec_status();

    /// Ends the current run of the task, which is idle again.
    fn end_run(&mut self, end: RunEnd)
        ensures
            final(self).spec_status() == TaskStatus::Idle,
            final(self).spec_info() == old(self).spec_info();

    /// The id of the task, by which the registry knows it.
    fn id(&self) -> (r: String)
        ensures
            r@ == self.spec_info().id@,
    {
        self.info().id.clone()
    }

    /// The name of the task.
    fn name(&self) -> (r: String)
        ensures
            r@ == self.spec_info().name@,
    {
        self.info().name.clone()
    }
}

/// Why the registry refused a request.
#[derive(Debug, Clone, PartialEq, Eq)]
pub enum RegistryError {
    NotFound,
    AlreadyExists,
    StateError(TaskError),
}

impl RegistryError {
    /// The HTTP status code of the error: 404 for an unknown task, 400 when
    /// the task refused to change state, 500 otherwise.
    pub fn status_code(&self) -> (r: u16)
        ensures
            r == match *self {
                RegistryError::NotFound => 404u16,
                RegistryError::StateError(_) => 400u16,
                RegistryError::AlreadyExists => 500u16,
            },
    {
        match self {
            RegistryError::NotFound => 404,
            RegistryError::StateError(_) => 400,
            RegistryError::AlreadyExists => 500,
        }
    }

    /// The human readable message of the error.
    pub fn message(&self) -> (r: String)
        ensures
            r@ == match *self {
                RegistryError::NotFound => "Task not found"@,
                RegistryError::AlreadyExists => "Task already exists"@,
                RegistryError::StateError(e) => "Could not set task state: "@ + task_error_message(e),
            },
    {
        match self {
            RegistryError::NotFound => String::from_str("Task not found"),
            RegistryError::AlreadyExists => String::from_str("Task already exists"),
            RegistryError::StateError(e) => str_concat("Could not set task state: ", e.message().as_str()),
        }
    }
}

/// The registered tasks, by id.
pub struct Registry<T> {
    tasks: StrMap<T>,
}

impl<T: Task> Registry<T> {
    /// The task registered under `id`.
    pub closed spec fn task(&self, id: Seq<char>) -> Option<T> {
        self.tasks.lookup(id)
    }

    pub closed spec fn wf(&self) -> bool {
        self.tasks.wf()
    }

    /// The registered ids, in order.
    pub closed spec fn ids(&self) -> Seq<Seq<char>> {
        self.tasks.key_seq()
    }

    /// The description of the `k`-th registered task in id order.
    pub closed spec fn info_at(&self, k: int) -> TaskInfo {
        self.tasks.entries_spec()[k].1.spec_info()
    }

    /// Whether a registered task is named `name`.
    pub open spec fn has_name(&self, name: Seq<char>) -> bool {
        exists|id: Seq<char>| #[trigger] self.task(id) is Some && self.task(id)->0.spec_info().name@ == name
    }

    /// No two registered tasks share a name.
    pub open spec fn names_unique(&self) -> bool {
        forall|a: Seq<char>, b: Seq<char>|
            #[trigger] self.task(a) is Some && #[trigger] self.task(b) is Some && a != b
                ==> self.task(a)->0.spec_info().name@ != self.task(b)->0.spec_info().name@
    }

    /// No task registered.
    pub fn new() -> (r: Self)
        ensures
            r.wf(),
            forall|id: Seq<char>| #[trigger] r.task(id) is None,
    {
        Registry { tasks: StrMap::new() }
    }

    /// Registers `task` under its id, unless a task of the same name is
    /// registered. A task of another name registered under the same id is
    /// replaced. Names stay unique.
    pub fn register(&mut self, task: T) -> (r: Result<(), RegistryError>)
        requires
            old(self).wf(),
        ensures
            final(self).wf(),
            old(self).has_name(task.spec_info().name@) ==> {
                &&& r == Err::<(), RegistryError>(RegistryError::AlreadyExists)
                &&& forall|q: Seq<char>| #[trigger] final(self).task(q) == old(self).task(q)
            },
            !old(self).has_name(task.spec_info().name@) ==> {
                &&& r == Ok::<(), RegistryError>(())
                &&& final(self).task(task.spec_info().id@) == Some(task)
                &&& forall|q: Seq<char>| q != task.spec_info().id@ ==> #[trigger] final(self).task(q) == old(self).task(q)
            },
            old(self).names_unique() ==> final(self).names_unique(),
    {
        let name = task.name();
        let entries = self.tasks.entries();
        let mut i: usize = 0;
        while i < entries.len()
            invariant
                i <= entries@.len(),
                entries@ == self.tasks.entries_spec(),
                self.tasks.wf(),
                name@ == task.spec_info().name@,
                forall|j: int| 0 <= j < i ==> (#[trigger] entries@[j]).1.spec_info().name@ != name@,
            decreases entries.len() - i,
        {
            let other = entries[i].1.info();
            if str_eq(other.name.as_str(), name.as_str()) {
                proof {
                    crate::strmap::lemma_lookup_at(self.tasks.entries_spec(), i as int);
                    assert(self.task(entries@[i as int].0@) is Some);
                    assert(self.task(entries@[i as int].0@)->0.spec_info().name@ == task.spec_info().name@);
                }
                return Err(RegistryError::AlreadyExists);
            }
            i = i + 1;
        }
        proof {
            if self.has_name(name@) {
                let id = choose|id: Seq<char>| #[trigger] self.task(id) is Some && self.task(id)->0.spec_info().name@ == name@;
                let s = self.tasks.entries_spec();
                let k = choose|k: int| 0 <= k < s.len() && #[trigger] s[k].0@ == id;
                crate::strmap::lemma_lookup_at(s, k);
                assert(entries@[k].1.spec_info().name@ != name@);
            }
        }
        let id = task.id();
        let ghost new_task = task;
        self.tasks.insert(id, task);
        proof {
            let nid = new_task.spec_info().id@;
            let nname = new_task.spec_info().name@;
            assert(self.task(nid) == Some(new_task));
            if old(self).names_unique() {
                assert forall|a: Seq<char>, b: Seq<char>|
                    #[trigger] self.task(a) is Some && #[trigger] self.task(b) is Some && a != b
                        implies self.task(a)->0.spec_info().name@ != self.task(b)->0.spec_info().name@ by {
                    if a == nid {
                        assert(old(self).task(b) is Some);
                        if old(self).task(b)->0.spec_info().name@ == nname {
                            assert(old(self).has_name(nname));
                        }
                    } else if b == nid {
                        assert(old(self).task(a) is Some);
                        if old(self).task(a)->0.spec_info().name@ == nname {
                            assert(old(self).has_name(nname));
                        }
                    } else {
                        assert(old(self).task(a) is Some && old(self).task(b) is Some);
                    }
                }
            }
        }
        Ok(())
    }

    /// The ids of the registered tasks, in order.
    pub fn list(&self) -> (r: Vec<String>)
        requires
            self.wf(),
        ensures
            r@.map_values(|s: String| s@) == self.ids(),
            forall|k: int| 0 <= k < r@.len() ==> #[trigger] self.task(r@[k]@) is Some,
    {
        let entries = self.tasks.entries();
        let mut r: Vec<String> = Vec::new();
        let mut i: usize = 0;
        while i < entries.len()
            invariant
                i <= entries@.len(),
                entries@ == self.tasks.entries_spec(),
                self.tasks.wf(),
                r@.len() == i,
                forall|k: int| 0 <= k < i ==> r@[k]@ == entries@[k].0@,
            decreases entries.len() - i,
        {
            r.push(entries[i].0.clone());
            i = i + 1;
        }
        proof {
            assert forall|k: int| 0 <= k < r@.len() implies #[trigger] self.task(r@[k]@) is Some by {
                crate::strmap::lemma_lookup_at(self.tasks.entries_spec(), k);
            }
            assert(r@.map_values(|s: String| s@) =~= self.ids());
        }
        r
    }

    /// The descriptions of the registered tasks, in id order.
    pub fn list_tasks(&self) -> (r: Vec<TaskInfo>)
        requires
            self.wf(),
        ensures
            r@.len() == self.ids().len(),
            forall|k: int| 0 <= k < r@.len() ==> #[trigger] r@[k] == self.info_at(k),
    {
        let entries = self.tasks.entries();
        let mut r: Vec<TaskInfo> = Vec::new();
        let mut i: usize = 0;
        while i < entries.len()
            invariant
                i <= entries@.len(),
                entries@ == self.tasks.entries_spec(),
                r@.len() == i,
                forall|k: int| 0 <= k < i ==> #[trigger] r@[k] == entries@[k].1.spec_info(),
            decreases entries.len() - i,
        {
            r.push(entries[i].1.info().duplicate());
            i = i + 1;
        }
        r
    }

    /// Starts the task registered under `id`; `NotFound` when there is none,
    /// `StateError(Running)` when it already runs.
    pub fn start_task(&mut self, id: &str) -> (r: Result<(), RegistryError>)
        requires
            old(self).wf(),
        ensures
            final(self).wf(),
            old(self).task(id@) is None <==> r == Err::<(), RegistryError>(RegistryError::NotFound),
            r matches Err(e) ==> e is NotFound || e is StateError,
            old(self).task(id@) matches Some(t) ==> {
                &&& t.spec_status() == TaskStatus::Running
                    <==> r == Err::<(), RegistryError>(RegistryError::StateError(TaskError::Running))
                &&& t.spec_status() != TaskStatus::Running <==> r is Ok
                &&& final(self).task(id@) matches Some(u) && u.spec_info() == t.spec_info()
                    && u.spec_status() == (if r is Ok { TaskStatus::Running } else { t.spec_status() })
            },
            forall|q: Seq<char>| #[trigger] final(self).task(q) is Some <==> old(self).task(q) is Some,
            forall|q: Seq<char>| q != id@ ==> #[trigger] final(self).task(q) == old(self).task(q),
    {
        match self.tasks.remove(id) {
            Some(mut task) => {
                let result = task.start();
                self.tasks.insert(String::from_str(id), task);
                match result {
                    Ok(()) => Ok(()),
                    Err(e) => Err(RegistryError::StateError(e)),
                }
            },
            None => Err(RegistryError::NotFound),
        }
    }

    /// Stops the task registered under `id`; `NotFound` when there is none,
    /// `StateError(Stop)` when it does not run.
    pub fn stop_task(&mut self, id: &str) -> (r: Result<(), RegistryError>)
        requires
            old(self).wf(),
        ensures
            final(self).wf(),
            old(self).task(id@) is None <==> r == Err::<(), RegistryError>(RegistryError::NotFound),
            r matches Err(e) ==> e is NotFound || e is StateError,
            old(self).task(id@) matches Some(t) ==> {
                &&& t.spec_status() != TaskStatus::Running
                    <==> r == Err::<(), RegistryError>(RegistryError::StateError(TaskError::Stop))
                &&& t.spec_status() == TaskStatus::Running <==> r is Ok
                &&& final(self).task(id@) matches Some(u) && u.spec_info() == t.spec_info()
                    && u.spec_status() == (if r is Ok { TaskStatus::Stopped } else { t.spec_status() })
            },
            forall|q: Seq<char>| #[trigger] final(self).task(q) is Some <==> old(self).task(q) is Some,
            forall|q: Seq<char>| q != id@ ==> #[trigger] final(self).task(q) == old(self).task(q),
    {
        match self.tasks.remove(id) {
            Some(mut task) => {
                let result = task.stop();
                self.tasks.insert(String::from_str(id), task);
                match result {
                    Ok(()) => Ok(()),
                    Err(e) => Err(RegistryError::StateError(e)),
                }
            },
            None => Err(RegistryError::NotFound),
        }
    }

    /// The task registered under `id`, if there is one.
    pub fn get(&self, id: &str) -> (r: Option<&T>)
        requires
            self.wf(),
        ensures
            match r {
                Some(t) => self.task(id@) == Some(*t),
                None => self.task(id@) is None,
            },
    {
        self.tasks.get(id)
    }

    /// The status of the task registered under `id`, if there is one.
    pub fn status_of(&self, id: &str) -> (r: Option<TaskStatus>)
        requires
            self.wf(),
        ensures
            r == match self.task(id@) {
                Some(t) => Some(t.spec_status()),
                None => None,
            },
    {
        match self.tasks.get(id) {
            Some(t) => Some(t.status()),
            None => None,
        }
    }

    /// Ends the current run of the task registered under `id`, which is
    /// idle again; `NotFound` when there is none.
    pub fn end_run(&mut self, id: &str, end: RunEnd) -> (r: Result<(), RegistryError>)
        requires
            old(self).wf(),
        ensures
            final(self).wf(),
            old(self).task(id@) is None <==> r == Err::<(), RegistryError>(RegistryError::NotFound),
            old(self).task(id@) is Some <==> r is Ok,
            old(self).task(id@) matches Some(t) ==> final(self).task(id@) matches Some(u)
                && u.spec_info() == t.spec_info() && u.spec_status() == TaskStatus::Idle,
            forall|q: Seq<char>| #[trigger] final(self).task(q) is Some <==> old(self).task(q) is Some,
            forall|q: Seq<char>| q != id@ ==> #[trigger] final(self).task(q) == old(self).task(q),
    {
        match self.tasks.remove(id) {
            Some(mut task) => {
                task.end_run(end);
                self.tasks.insert(String::from_str(id), task);
                Ok(())
            },
            None => Err(RegistryError::NotFound),
        }
    }
}

} // verus!
