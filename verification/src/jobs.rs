//! Jobs: the registry of what can run, and the book the job manager keeps
//! of queued and running jobs, their states and their execution reports.

use vstd::prelude::*;
use std::collections::BTreeMap;
use vstd::std_specs::iter::IteratorSpec;
use tokio_util::sync::CancellationToken;
use crate::clock::now_unix_nanos;
use crate::ids::new_uuid_value;
use crate::strmap::{StrMap, str_eq};

verus! {

broadcast use vstd::laws_cmp::group_laws_cmp, vstd::std_specs::btree::group_btree_axioms;

#[verifier::external_type_specification]
#[verifier::external_body]
pub struct ExCancellationToken(CancellationToken);

/// `CancellationToken::new`: a token that is not cancelled.
#[verifier::external_body]
fn new_token() -> (t: CancellationToken)
{
    CancellationToken::new()
}

/// `CancellationToken::child_token`: a token cancelled with its parent.
#[verifier::external_body]
fn child_token(t: &CancellationToken) -> (c: CancellationToken)
{
    t.child_token()
}

/// `CancellationToken::cancel`: cancels the token and its children.
#[verifier::external_body]
fn cancel_token(t: &CancellationToken)
{
    t.cancel()
}

/// `CancellationToken::clone`: another handle on the same token.
#[verifier::external_body]
fn clone_token(t: &CancellationToken) -> (c: CancellationToken)
{
    t.clone()
}

/// What a running job reports.
#[derive(Debug, Clone, PartialEq, Eq)]
pub enum JobEvent {
    StepCompleted { step: u8, value: Option<String> },
    Warning { message: String },
    Progress { current: u64, total: u64, step: u8 },
}

/// What a job is, for the UI: its name, description and named steps.
#[derive(Debug, Clone)]
pub struct JobInfo {
    pub name: String,
    pub description: String,
    pub steps: BTreeMap<u8, String>,
}

impl JobInfo {
    /// A job description.
    pub fn new(name: String, description: String, steps: BTreeMap<u8, String>) -> (i: JobInfo)
        ensures
            i.name == name,
            i.description == description,
            i.steps@ == steps@,
    {
        JobInfo { name, description, steps }
    }
}

/// Why a job could not be registered or found.
#[derive(Debug, Clone, Copy, PartialEq, Eq, Structural)]
pub enum JobRegistryError {
    AlreadyExists,
    NotFound,
}

/// A job that can be run: its description and the handle that runs it.
#[derive(Debug, Clone)]
pub struct Job<H> {
    info: JobInfo,
    handle: H,
}

impl<H> Job<H> {
    /// The description of the job.
    pub closed spec fn info_spec(self) -> JobInfo {
        self.info
    }

    /// The handle of the job.
    pub closed spec fn handle_spec(self) -> H {
        self.handle
    }

    /// A job described by `info` and run by `handle`.
    pub fn new(info: JobInfo, handle: H) -> (j: Self)
        ensures
            j.info_spec() == info,
            j.handle_spec() == handle,
    {
        Job { info, handle }
    }

    /// The description of the job.
    pub fn info(&self) -> (r: &JobInfo)
        ensures
            *r == self.info_spec(),
    {
        &self.info
    }

    /// The handle that runs the job.
    pub fn handle(&self) -> (r: &H)
        ensures
            *r == self.handle_spec(),
    {
        &self.handle
    }
}

/// The jobs that can be queued, by id.
#[derive(Debug)]
pub struct JobRegistry<H> {
    jobs: StrMap<Job<H>>,
}

impl<H> JobRegistry<H> {
    /// The job registered under `id`.
    pub closed spec fn job(&self, id: Seq<char>) -> Option<Job<H>> {
        self.jobs.lookup(id)
    }

    /// The registered ids, in order.
    pub closed spec fn ids(&self) -> Seq<Seq<char>> {
        self.jobs.key_seq()
    }

    pub closed spec fn wf(&self) -> bool {
        self.jobs.wf()
    }

    /// No job registered.
    pub fn new() -> (r: Self)
        ensures
            r.wf(),
            forall|id: Seq<char>| #[trigger] r.job(id) is None,
            r.ids().len() == 0,
    {
        JobRegistry { jobs: StrMap::new() }
    }

    /// The registered jobs, in id order.
    pub fn jobs(&self) -> (r: &StrMap<Job<H>>)
        ensures
            forall|id: Seq<char>| #[trigger] r.lookup(id) == self.job(id),
            r.key_seq() == self.ids(),
            self.wf() ==> r.wf(),
    {
        &self.jobs
    }

    /// Registers `job` under `id`; an id can only be registered once.
    pub fn register_job(&mut self, id: String, job: Job<H>) -> (r: Result<(), JobRegistryError>)
        requires
            old(self).wf(),
        ensures
            final(self).wf(),
            old(self).job(id@) is Some ==> r == Err::<(), JobRegistryError>(JobRegistryError::AlreadyExists)
                && final(self).job(id@) == old(self).job(id@),
            old(self).job(id@) is None ==> r == Ok::<(), JobRegistryError>(()) && final(self).job(id@) == Some(job),
            forall|q: Seq<char>| q != id@ ==> #[trigger] final(self).job(q) == old(self).job(q),
    {
        if self.jobs.contains_key(id.as_str()) {
            return Err(JobRegistryError::AlreadyExists);
        }
        self.jobs.insert(id, job);
        Ok(())
    }

    /// Whether a job is registered under `id`.
    pub fn contains(&self, id: &str) -> (b: bool)
        requires
            self.wf(),
        ensures
            b == self.job(id@) is Some,
    {
        self.jobs.contains_key(id)
    }

    /// The job registered under `id`.
    pub fn get(&self, id: &str) -> (r: Option<&Job<H>>)
        requires
            self.wf(),
        ensures
            match r {
                Some(j) => self.job(id@) == Some(*j),
                None => self.job(id@) is None,
            },
    {
        self.jobs.get(id)
    }

    /// The registered ids, in order.
    pub fn job_ids(&self) -> (r: Vec<String>)
        requires
            self.wf(),
        ensures
            r@.map_values(|s: String| s@) == self.ids(),
    {
        let entries = self.jobs.entries();
        let mut r: Vec<String> = Vec::new();
        let mut i: usize = 0;
        while i < entries.len()
            invariant
                i <= entries@.len(),
                entries@ == self.jobs.entries_spec(),
                r@.map_values(|s: String| s@) == entries@.take(i as int).map_values(|e: (String, Job<H>)| e.0@),
            decreases entries.len() - i,
        {
            let ghost old_r = r@;
            r.push(entries[i].0.clone());
            proof {
                assert(r@ =~= old_r.push(entries@[i as int].0));
                assert(entries@.take(i + 1) =~= entries@.take(i as int).push(entries@[i as int]));
                assert(r@.map_values(|s: String| s@) =~= old_r.map_values(|s: String| s@).push(entries@[i as int].0@));
                assert(entries@.take(i + 1).map_values(|e: (String, Job<H>)| e.0@)
                    =~= entries@.take(i as int).map_values(|e: (String, Job<H>)| e.0@).push(entries@[i as int].0@));
            }
            i = i + 1;
        }
        assert(entries@.take(entries@.len() as int) =~= entries@);
        r
    }
}

/// Whether a queued job has started.
#[derive(Debug, Clone, Copy, PartialEq, Eq, Structural)]
pub enum JobStatus {
    Pending,
    InProgress,
}

/// The state of a queued or running job: the job, its status, the step it
/// is on, the values of the steps it completed, and its cancellation token.
#[derive(Debug)]
pub struct JobState {
    pub job_id: String,
    pub status: JobStatus,
    pub current_step: u8,
    pub values: BTreeMap<u8, String>,
    pub token: CancellationToken,
}

impl JobState {
    /// A pending job on its first step, with no values yet.
    pub fn new(job_id: String) -> (s: JobState)
        ensures
            s.job_id == job_id,
            s.status == JobStatus::Pending,
            s.current_step == 1,
            s.values@ == Map::<u8, String>::empty(),
    {
        JobState { job_id, status: JobStatus::Pending, current_step: 1, values: BTreeMap::new(), token: new_token() }
    }

    /// The same state, with another handle on the same token.
    pub fn duplicate(&self) -> (s: JobState)
        ensures
            s.job_id == self.job_id,
            s.status == self.status,
            s.current_step == self.current_step,
            s.values@ == self.values@,
    {
        JobState {
            job_id: self.job_id.clone(),
            status: self.status,
            current_step: self.current_step,
            values: self.values.clone(),
            token: clone_token(&self.token),
        }
    }
}

/// When a job last ran and how it ended; times are Unix timestamps in
/// nanoseconds.
#[derive(Debug, Clone, Copy, PartialEq, Eq, Structural)]
pub struct JobExecutionReport {
    pub started_at: Option<i128>,
    pub completed_at: Option<i128>,
    pub cancelled_at: Option<i128>,
    pub completed_successfully: bool,
}

impl Default for JobExecutionReport {
    fn default() -> (r: Self)
        ensures
            r == (JobExecutionReport { started_at: None, completed_at: None, cancelled_at: None, completed_successfully: false }),
    {
        JobExecutionReport { started_at: None, completed_at: None, cancelled_at: None, completed_successfully: false }
    }
}

/// What the job manager reports; `source` is the id of a job state.
#[derive(Debug)]
pub enum JobManagerEvent {
    Started { source: u128 },
    Completed { source: u128, report: JobExecutionReport },
    Cancelled { source: u128 },
    Warning { source: u128, message: String },
    Failed { source: u128, message: String },
    StepCompleted { source: u128, step: u8, value: Option<String> },
    Progress { source: u128, current: u64, total: u64, step: u8 },
    StateAdded { source: u128, state: JobState },
    StateUpdated { source: u128, state: JobState },
    StateRemoved { source: u128 },
    OrderUpdated { queue: Vec<u128> },
}

/// Why the job manager refused a request.
#[derive(Debug, Clone, Copy, PartialEq, Eq, Structural)]
pub enum JobManagerError {
    Registry(JobRegistryError),
    AlreadyQueued,
    StateNotFound,
    ReportNotFound,
}

/// A job waiting in the queue.
#[derive(Debug)]
pub struct QueuedJob {
    pub job_id: String,
    pub unique: bool,
    pub cancel_token: CancellationToken,
}

/// `s` without any occurrence of `x`.
pub open spec fn remove_all(s: Seq<u128>, x: u128) -> Seq<u128>
    decreases s.len(),
{
    if s.len() == 0 {
        s
    } else {
        let rest = remove_all(s.drop_last(), x);
        if s.last() == x { rest } else { rest.push(s.last()) }
    }
}

/// Taking out an element that is not there changes nothing.
proof fn lemma_remove_absent(s: Seq<u128>, x: u128)
    requires
        !s.contains(x),
    ensures
        remove_all(s, x) == s,
    decreases s.len(),
{
    if s.len() > 0 {
        assert(!s.drop_last().contains(x)) by {
            if s.drop_last().contains(x) {
                let k = choose|k: int| 0 <= k < s.drop_last().len() && s.drop_last()[k] == x;
                assert(s[k] == x);
            }
        }
        lemma_remove_absent(s.drop_last(), x);
        assert(s.drop_last().push(s.last()) =~= s);
    }
}

/// Taking `x` out of `x` followed by `s`, or of `s` followed by `x`, gives
/// `s` when `x` is not in it.
proof fn lemma_remove_added(s: Seq<u128>, x: u128)
    requires
        !s.contains(x),
    ensures
        remove_all(seq![x] + s, x) == s,
        remove_all(s.push(x), x) == s,
    decreases s.len(),
{
    lemma_remove_absent(s, x);
    assert(s.push(x).drop_last() =~= s);
    if s.len() == 0 {
        assert(seq![x] + s =~= seq![x]);
        assert(seq![x].drop_last() =~= Seq::<u128>::empty());
        assert(remove_all(Seq::<u128>::empty(), x) == Seq::<u128>::empty());
        assert(seq![x].last() == x);
        assert(remove_all(seq![x], x) == remove_all(Seq::<u128>::empty(), x));
    } else {
        let p = s.drop_last();
        assert(!p.contains(x)) by {
            if p.contains(x) {
                let k = choose|k: int| 0 <= k < p.len() && p[k] == x;
                assert(s[k] == x);
            }
        }
        lemma_remove_added(p, x);
        assert((seq![x] + s).drop_last() =~= seq![x] + p);
        assert((seq![x] + s).last() == s.last());
        assert(s.last() != x) by {
            assert(s[s.len() - 1] == s.last());
        }
        assert(p.push(s.last()) =~= s);
    }
}

/// What the book holds, as values: states and queue entries by id, and the
/// order of the queue.
pub struct BookView {
    pub states: Map<u128, JobState>,
    pub order: Seq<u128>,
    pub items: Map<u128, QueuedJob>,
}

/// The book after a job was queued as `id` in state `state` with entry
/// `item`: first for a high-priority job, last otherwise.
pub open spec fn queued(v: BookView, id: u128, high_priority: bool, state: JobState, item: QueuedJob) -> BookView {
    BookView {
        states: v.states.insert(id, state),
        order: if high_priority { seq![id] + v.order } else { v.order.push(id) },
        items: v.items.insert(id, item),
    }
}

/// The book after the pending job `id` was cancelled: its state and queue
/// entry are gone.
pub open spec fn withdrawn(v: BookView, id: u128) -> BookView {
    BookView { states: v.states.remove(id), order: remove_all(v.order, id), items: v.items.remove(id) }
}

/// Whether a unique entry for `job_id` waits in the queue.
pub open spec fn unique_queued(items: Map<u128, QueuedJob>, job_id: Seq<char>) -> bool {
    exists|k: u128| items.contains_key(k) && #[trigger] items[k].unique && items[k].job_id@ == job_id
}

/// The book a job manager keeps.
#[derive(Debug)]
pub struct JobBook {
    states: BTreeMap<u128, JobState>,
    order: Vec<u128>,
    items: BTreeMap<u128, QueuedJob>,
    reports: StrMap<JobExecutionReport>,
}

/// A job queued as unique blocks a second unique queue of the same job
/// while its entry waits: the queue then holds a unique entry for it.
pub proof fn law_unique_entry_blocks_requeue(before: BookView, id: u128, high_priority: bool, state: JobState,
    item: QueuedJob, job_id: Seq<char>)
    requires
        item.unique,
        item.job_id@ == job_id,
    ensures
        unique_queued(queued(before, id, high_priority, state, item).items, job_id),
{
    let after = queued(before, id, high_priority, state, item);
    assert(after.items.contains_key(id) && after.items[id].unique && after.items[id].job_id@ == job_id);
}

impl JobBook {
    /// The states, queue order and queue entries.
    pub closed spec fn view(&self) -> BookView {
        BookView { states: self.states@, order: self.order@, items: self.items@ }
    }

    /// The report of job `job_id`.
    pub closed spec fn report(&self, job_id: Seq<char>) -> Option<JobExecutionReport> {
        self.reports.lookup(job_id)
    }

    /// Every queue entry has a state and a place in the queue order.
    pub closed spec fn wf(&self) -> bool {
        &&& self.reports.wf()
        &&& forall|k: u128| #[trigger] self.items@.contains_key(k) ==> self.states@.contains_key(k)
        &&& forall|k: u128| #[trigger] self.items@.contains_key(k) ==> self.order@.contains(k)
    }

    /// An empty book with an empty report for each registered job.
    pub fn new<H>(registry: &JobRegistry<H>) -> (b: JobBook)
        requires
            registry.wf(),
        ensures
            b.wf(),
            b.view().states == Map::<u128, JobState>::empty(),
            b.view().order.len() == 0,
            b.view().items == Map::<u128, QueuedJob>::empty(),
            forall|id: Seq<char>| #[trigger] b.report(id) == (if registry.job(id) is Some {
                Some(JobExecutionReport::default_spec())
            } else {
                None
            }),
    {
        let ids = registry.job_ids();
        let mut reports: StrMap<JobExecutionReport> = StrMap::new();
        let mut i: usize = 0;
        proof {
            registry.lemma_ids_keys();
        }
        while i < ids.len()
            invariant
                i <= ids@.len(),
                reports.wf(),
                ids@.map_values(|s: String| s@) == registry.ids(),
                forall|id: Seq<char>| #[trigger] registry.job(id) is Some <==> registry.ids().contains(id),
                forall|id: Seq<char>| #[trigger] reports.lookup(id) == (if ids@.take(i as int).map_values(|s: String| s@).contains(id) {
                    Some(JobExecutionReport::default_spec())
                } else {
                    None
                }),
            decreases ids.len() - i,
        {
            let ghost before = ids@.take(i as int).map_values(|s: String| s@);
            reports.insert(ids[i].clone(), JobExecutionReport::default());
            i = i + 1;
            proof {
                let after = ids@.take(i as int).map_values(|s: String| s@);
                assert(after =~= before.push(ids@[i - 1]@));
                assert forall|id: Seq<char>| #[trigger] reports.lookup(id) == (if after.contains(id) {
                    Some(JobExecutionReport::default_spec())
                } else {
                    None
                }) by {
                    if id == ids@[i - 1]@ {
                        assert(after[i - 1] == id);
                    } else if before.contains(id) {
                        let k = choose|k: int| 0 <= k < before.len() && before[k] == id;
                        assert(after[k] == id);
                    } else if after.contains(id) {
                        let k = choose|k: int| 0 <= k < after.len() && after[k] == id;
                        if k < before.len() {
                            assert(before[k] == id);
                        }
                    }
                }
            }
        }
        assert(ids@.take(ids@.len() as int) =~= ids@);
        JobBook { states: BTreeMap::new(), order: Vec::new(), items: BTreeMap::new(), reports }
    }

    /// Whether job `job_id` has a report.
    pub fn has_report(&self, job_id: &str) -> (b: bool)
        requires
            self.wf(),
        ensures
            b == self.report(job_id@) is Some,
    {
        self.reports.contains_key(job_id)
    }

    /// The report of job `job_id`.
    pub fn report_of(&self, job_id: &str) -> (r: Option<JobExecutionReport>)
        requires
            self.wf(),
        ensures
            r == self.report(job_id@),
    {
        match self.reports.get(job_id) {
            Some(r) => Some(*r),
            None => None,
        }
    }

    /// The ids of the queued jobs, in queue order.
    pub fn queue_order(&self) -> (r: Vec<u128>)
        ensures
            r@ == self.view().order,
    {
        self.order.clone()
    }

    /// The state with id `id`.
    pub fn state(&self, id: u128) -> (r: Option<&JobState>)
        ensures
            match r {
                Some(s) => self.view().states.contains_key(id) && self.view().states[id] == *s,
                None => !self.view().states.contains_key(id),
            },
    {
        self.states.get(&id)
    }

    /// Whether a unique entry for `job_id` waits in the queue.
    fn has_unique(&self, job_id: &str) -> (b: bool)
        requires
            self.wf(),
        ensures
            b == unique_queued(self.view().items, job_id@),
    {
        let mut i: usize = 0;
        while i < self.order.len()
            invariant
                i <= self.order@.len(),
                self.wf(),
                forall|x: int| 0 <= x < i ==> !(#[trigger] self.items@.contains_key(self.order@[x])
                    && self.items@[self.order@[x]].unique && self.items@[self.order@[x]].job_id@ == job_id@),
            decreases self.order.len() - i,
        {
            let id = self.order[i];
            match self.items.get(&id) {
                Some(item) => {
                    if item.unique && str_eq(item.job_id.as_str(), job_id) {
                        assert(self.items@[id].unique);
                        return true;
                    }
                },
                None => {},
            }
            i = i + 1;
        }
        proof {
            if unique_queued(self.items@, job_id@) {
                let k = choose|k: u128| self.items@.contains_key(k) && #[trigger] self.items@[k].unique && self.items@[k].job_id@ == job_id@;
                assert(self.order@.contains(k));
                let x = choose|x: int| 0 <= x < self.order@.len() && self.order@[x] == k;
                assert(self.items@.contains_key(self.order@[x]));
            }
        }
        false
    }

    /// Queues job `job_id` as state `id`, first when of high priority, last
    /// otherwise. A unique job is refused while a unique entry of it waits.
    /// The pending state is recorded before the job is looked up in the
    /// registry, and stays recorded when the job is not found there.
    pub fn queue_with_id<H>(&mut self, registry: &JobRegistry<H>, job_id: String, unique: bool, high_priority: bool, id: u128)
        -> (r: (Result<u128, JobManagerError>, Vec<JobManagerEvent>))
        requires
            old(self).wf(),
            registry.wf(),
        ensures
            final(self).wf(),
            forall|j: Seq<char>| #[trigger] final(self).report(j) == old(self).report(j),
            unique && unique_queued(old(self).view().items, job_id@) ==> {
                &&& r.0 == Err::<u128, JobManagerError>(JobManagerError::AlreadyQueued)
                &&& final(self).view() == old(self).view()
                &&& r.1@.len() == 0
            },
            !(unique && unique_queued(old(self).view().items, job_id@)) ==> {
                let st = final(self).view().states[id];
                &&& st.job_id == job_id
                &&& st.status == JobStatus::Pending
                &&& st.current_step == 1
                &&& st.values@ == Map::<u8, String>::empty()
                &&& r.1@.len() > 0
                &&& r.1@[0] matches JobManagerEvent::StateAdded { source, .. } && source == id
                &&& registry.job(job_id@) is None ==> {
                    &&& r.0 == Err::<u128, JobManagerError>(JobManagerError::Registry(JobRegistryError::NotFound))
                    &&& final(self).view().states == old(self).view().states.insert(id, st)
                    &&& final(self).view().order == old(self).view().order
                    &&& final(self).view().items == old(self).view().items
                    &&& r.1@.len() == 1
                }
                &&& registry.job(job_id@) is Some ==> {
                    let it = final(self).view().items[id];
                    &&& r.0 == Ok::<u128, JobManagerError>(id)
                    &&& it.job_id == job_id
                    &&& it.unique == unique
                    &&& final(self).view() == queued(old(self).view(), id, high_priority, st, it)
                    &&& r.1@.len() == 2
                    &&& r.1@[1] matches JobManagerEvent::OrderUpdated { queue } && queue@ == final(self).view().order
                }
            },
    {
        let mut events: Vec<JobManagerEvent> = Vec::new();
        if unique && self.has_unique(job_id.as_str()) {
            return (Err(JobManagerError::AlreadyQueued), events);
        }
        let state = JobState::new(job_id);
        let cancel_token = child_token(&state.token);
        let copy = state.duplicate();
        let registered = registry.contains(state.job_id.as_str());
        let item_job = state.job_id.clone();
        self.states.insert(id, state);
        events.push(JobManagerEvent::StateAdded { source: id, state: copy });
        if !registered {
            return (Err(JobManagerError::Registry(JobRegistryError::NotFound)), events);
        }
        self.items.insert(id, QueuedJob { job_id: item_job, unique, cancel_token });
        if high_priority {
            self.order.insert(0, id);
            assert(self.order@ =~= seq![id] + old(self).order@);
        } else {
            self.order.push(id);
        }
        assert(self.order@.contains(id)) by {
            if high_priority {
                assert(self.order@[0] == id);
            } else {
                assert(self.order@[self.order@.len() - 1] == id);
            }
        }
        assert forall|k: u128| #[trigger] self.items@.contains_key(k) implies self.order@.contains(k) by {
            if k != id {
                let x = choose|x: int| 0 <= x < old(self).order@.len() && old(self).order@[x] == k;
                if high_priority {
                    assert(self.order@[x + 1] == k);
                } else {
                    assert(self.order@[x] == k);
                }
            }
        }
        events.push(JobManagerEvent::OrderUpdated { queue: self.order.clone() });
        (Ok(id), events)
    }

    /// Queues job `job_id` under a fresh random state id, as
    /// `queue_with_id` does.
    pub fn queue<H>(&mut self, registry: &JobRegistry<H>, job_id: String, unique: bool, high_priority: bool)
        -> (r: (Result<u128, JobManagerError>, Vec<JobManagerEvent>))
        requires
            old(self).wf(),
            registry.wf(),
        ensures
            final(self).wf(),
            forall|j: Seq<char>| #[trigger] final(self).report(j) == old(self).report(j),
            unique && unique_queued(old(self).view().items, job_id@) ==>
                r.0 == Err::<u128, JobManagerError>(JobManagerError::AlreadyQueued) && final(self).view() == old(self).view(),
            !(unique && unique_queued(old(self).view().items, job_id@)) && registry.job(job_id@) is None ==>
                r.0 == Err::<u128, JobManagerError>(JobManagerError::Registry(JobRegistryError::NotFound)),
            !(unique && unique_queued(old(self).view().items, job_id@)) && registry.job(job_id@) is Some ==> (
                r.0 matches Ok(id) && {
                    let st = final(self).view().states[id];
                    let it = final(self).view().items[id];
                    &&& final(self).view() == queued(old(self).view(), id, high_priority, st, it)
                    &&& st.job_id == job_id
                    &&& st.status == JobStatus::Pending
                    &&& st.current_step == 1
                    &&& st.values@ == Map::<u8, String>::empty()
                    &&& it.job_id == job_id
                    &&& it.unique == unique
                    &&& r.1@.len() == 2
                    &&& r.1@[0] matches JobManagerEvent::StateAdded { source, .. } && source == id
                    &&& r.1@[1] matches JobManagerEvent::OrderUpdated { queue } && queue@ == final(self).view().order
                }),
            !(unique && unique_queued(old(self).view().items, job_id@)) && registry.job(job_id@) is None ==> (
                r.1@.len() == 1 && r.1@[0] is StateAdded),
            unique && unique_queued(old(self).view().items, job_id@) ==> r.1@.len() == 0,
    {
        let id = new_uuid_value();
        self.queue_with_id(registry, job_id, unique, high_priority, id)
    }

    /// Takes the first job out of the queue and marks it in progress. An
    /// id whose entry is gone is dropped from the order and nothing starts.
    pub fn start_next(&mut self) -> (r: (Option<(u128, QueuedJob)>, Vec<JobManagerEvent>))
        requires
            old(self).wf(),
        ensures
            final(self).wf(),
            forall|j: Seq<char>| #[trigger] final(self).report(j) == old(self).report(j),
            old(self).view().order.len() == 0 ==> r.0 is None && final(self).view() == old(self).view() && r.1@.len() == 0,
            old(self).view().order.len() > 0 ==> {
                let id = old(self).view().order[0];
                &&& final(self).view().order == old(self).view().order.drop_first()
                &&& final(self).view().items == old(self).view().items.remove(id)
                &&& match r.0 {
                    None => !old(self).view().items.contains_key(id) && final(self).view().states == old(self).view().states
                        && r.1@.len() == 0,
                    Some((k, item)) => {
                        &&& k == id
                        &&& old(self).view().items.contains_key(id) && item == old(self).view().items[id]
                        &&& final(self).view().states.dom() == old(self).view().states.dom()
                        &&& final(self).view().states[id].status == JobStatus::InProgress
                        &&& final(self).view().states[id].job_id == old(self).view().states[id].job_id
                        &&& final(self).view().states[id].current_step == old(self).view().states[id].current_step
                        &&& final(self).view().states[id].values@ == old(self).view().states[id].values@
                        &&& forall|q: u128| q != id ==> #[trigger] final(self).view().states[q] == old(self).view().states[q]
                        &&& r.1@.len() == 2
                        &&& r.1@[0] matches JobManagerEvent::OrderUpdated { queue } && queue@ == final(self).view().order
                        &&& r.1@[1] == JobManagerEvent::Started { source: id }
                    },
                }
            },
    {
        let mut events: Vec<JobManagerEvent> = Vec::new();
        if self.order.len() == 0 {
            return (None, events);
        }
        let ghost old_order = self.order@;
        let id = self.order.remove(0);
        assert(self.order@ =~= old_order.drop_first());
        let taken = self.items.remove(&id);
        assert forall|k: u128| #[trigger] self.items@.contains_key(k) implies self.order@.contains(k) by {
            let x = choose|x: int| 0 <= x < old_order.len() && old_order[x] == k;
            assert(x != 0);
            assert(self.order@[x - 1] == k);
        }
        match taken {
            None => (None, events),
            Some(item) => {
                let mut state = match self.states.remove(&id) {
                    Some(s) => s,
                    None => {
                        proof { assert(false); }
                        return (None, events);
                    },
                };
                state.status = JobStatus::InProgress;
                self.states.insert(id, state);
                events.push(JobManagerEvent::OrderUpdated { queue: self.order.clone() });
                events.push(JobManagerEvent::Started { source: id });
                (Some((id, item)), events)
            },
        }
    }

    /// Takes an event of the running job `id` into account: a completed
    /// step moves the state to the next step and records the step's value
    /// (empty when none). Hands back the events to report.
    pub fn job_event(&mut self, id: u128, event: JobEvent) -> (r: Vec<JobManagerEvent>)
        requires
            old(self).wf(),
            event matches JobEvent::StepCompleted { step, .. } ==> step < 255,
        ensures
            final(self).wf(),
            forall|j: Seq<char>| #[trigger] final(self).report(j) == old(self).report(j),
            final(self).view().order == old(self).view().order,
            final(self).view().items == old(self).view().items,
            final(self).view().states.dom() == old(self).view().states.dom(),
            forall|q: u128| q != id ==> #[trigger] final(self).view().states[q] == old(self).view().states[q],
            match event {
                JobEvent::Progress { current, total, step } => {
                    &&& final(self).view() == old(self).view()
                    &&& r@.len() == 1
                    &&& r@[0] == JobManagerEvent::Progress { source: id, current, total, step }
                },
                JobEvent::Warning { message } => {
                    &&& final(self).view() == old(self).view()
                    &&& r@.len() == 1
                    &&& r@[0] == JobManagerEvent::Warning { source: id, message }
                },
                JobEvent::StepCompleted { step, value } => {
                    &&& r@.last() == JobManagerEvent::StepCompleted { source: id, step, value }
                    &&& !old(self).view().states.contains_key(id) ==> final(self).view() == old(self).view() && r@.len() == 1
                    &&& old(self).view().states.contains_key(id) ==> {
                        let before = old(self).view().states[id];
                        let after = final(self).view().states[id];
                        &&& after.job_id == before.job_id
                        &&& after.status == before.status
                        &&& after.current_step == step + 1
                        &&& after.values@.dom() == before.values@.dom().insert(step)
                        &&& after.values@[step]@ == (match value { Some(v) => v@, None => Seq::<char>::empty() })
                        &&& forall|k: u8| k != step && #[trigger] before.values@.contains_key(k) ==> after.values@[k] == before.values@[k]
                        &&& r@.len() == 2
                        &&& r@[0] matches JobManagerEvent::StateUpdated { source, .. } && source == id
                    }
                },
            },
    {
        let mut events: Vec<JobManagerEvent> = Vec::new();
        match event {
            JobEvent::Progress { current, total, step } => {
                events.push(JobManagerEvent::Progress { source: id, current, total, step });
                assert(self.states@ =~= old(self).states@);
            },
            JobEvent::Warning { message } => {
                events.push(JobManagerEvent::Warning { source: id, message });
                assert(self.states@ =~= old(self).states@);
            },
            JobEvent::StepCompleted { step, value } => {
                match self.states.remove(&id) {
                    Some(mut state) => {
                        state.current_step = step + 1;
                        let recorded = match &value {
                            Some(v) => v.clone(),
                            None => String::new(),
                        };
                        let ghost before_values = state.values@;
                        state.values.insert(step, recorded);
                        assert(state.values@.dom() =~= before_values.dom().insert(step));
                        let copy = state.duplicate();
                        self.states.insert(id, state);
                        events.push(JobManagerEvent::StateUpdated { source: id, state: copy });
                    },
                    None => {
                        assert(self.states@ =~= old(self).states@);
                    },
                }
                events.push(JobManagerEvent::StepCompleted { source: id, step, value });
                assert(events@.last() == JobManagerEvent::StepCompleted { source: id, step, value });
            },
        }
        events
    }

    /// Records how the job `id` of `job_id`, taken from the queue, ended at
    /// time `now`, and forgets its state. A job that returned without error
    /// and was not cancelled completed successfully; one that failed keeps
    /// its message; one that was cancelled is reported as such.
    pub fn finish_at(&mut self, id: u128, job_id: &str, result: Result<(), String>, cancelled: bool, now: i128)
        -> (r: Vec<JobManagerEvent>)
        requires
            old(self).wf(),
            old(self).report(job_id@) is Some,
            !old(self).view().items.contains_key(id),
        ensures
            final(self).wf(),
            final(self).view().states == old(self).view().states.remove(id),
            final(self).view().order == old(self).view().order,
            final(self).view().items == old(self).view().items,
            forall|j: Seq<char>| j != job_id@ ==> #[trigger] final(self).report(j) == old(self).report(j),
            ({
                let before = old(self).report(job_id@)->0;
                let after = final(self).report(job_id@)->0;
                &&& final(self).report(job_id@) is Some
                &&& after.started_at == before.started_at
                &&& r@.len() == 2
                &&& r@[1] == JobManagerEvent::StateRemoved { source: id }
                &&& match result {
                    Ok(()) => if !cancelled {
                        &&& after.completed_at == Some(now)
                        &&& after.cancelled_at == before.cancelled_at
                        &&& after.completed_successfully
                        &&& r@[0] == JobManagerEvent::Completed { source: id, report: after }
                    } else {
                        &&& after.cancelled_at == Some(now)
                        &&& after.completed_at == before.completed_at
                        &&& !after.completed_successfully
                        &&& r@[0] == JobManagerEvent::Cancelled { source: id }
                    },
                    Err(m) => {
                        &&& after.completed_at == Some(now)
                        &&& after.cancelled_at == before.cancelled_at
                        &&& !after.completed_successfully
                        &&& r@[0] == JobManagerEvent::Failed { source: id, message: m }
                    },
                }
            }),
    {
        let mut events: Vec<JobManagerEvent> = Vec::new();
        let mut report = match self.reports.get(job_id) {
            Some(r) => *r,
            None => {
                proof { assert(false); }
                JobExecutionReport::default()
            },
        };
        match result {
            Ok(()) => {
                if !cancelled {
                    report.completed_at = Some(now);
                    report.completed_successfully = true;
                    events.push(JobManagerEvent::Completed { source: id, report });
                } else {
                    report.cancelled_at = Some(now);
                    report.completed_successfully = false;
                    events.push(JobManagerEvent::Cancelled { source: id });
                }
            },
            Err(m) => {
                report.completed_at = Some(now);
                report.completed_successfully = false;
                events.push(JobManagerEvent::Failed { source: id, message: m });
            },
        }
        self.reports.insert(String::from_str(job_id), report);
        self.states.remove(&id);
        events.push(JobManagerEvent::StateRemoved { source: id });
        events
    }

    /// As `finish_at`, at the current time of the clock.
    pub fn finish(&mut self, id: u128, job_id: &str, result: Result<(), String>, cancelled: bool)
        -> (r: Vec<JobManagerEvent>)
        requires
            old(self).wf(),
            old(self).report(job_id@) is Some,
            !old(self).view().items.contains_key(id),
        ensures
            final(self).wf(),
            final(self).view().states == old(self).view().states.remove(id),
            final(self).view().order == old(self).view().order,
            final(self).view().items == old(self).view().items,
            forall|j: Seq<char>| j != job_id@ ==> #[trigger] final(self).report(j) == old(self).report(j),
            ({
                let before = old(self).report(job_id@)->0;
                let after = final(self).report(job_id@)->0;
                &&& final(self).report(job_id@) is Some
                &&& after.started_at == before.started_at
                &&& after.completed_successfully == (result is Ok && !cancelled)
                &&& r@.len() == 2
                &&& r@[1] == (JobManagerEvent::StateRemoved { source: id })
                &&& match result {
                    Ok(()) => if !cancelled {
                        &&& after.completed_at is Some
                        &&& after.cancelled_at == before.cancelled_at
                        &&& r@[0] == JobManagerEvent::Completed { source: id, report: after }
                    } else {
                        &&& after.cancelled_at is Some
                        &&& after.completed_at == before.completed_at
                        &&& r@[0] == JobManagerEvent::Cancelled { source: id }
                    },
                    Err(m) => {
                        &&& after.completed_at is Some
                        &&& after.cancelled_at == before.cancelled_at
                        &&& r@[0] == JobManagerEvent::Failed { source: id, message: m }
                    },
                }
            }),
    {
        let now = now_unix_nanos();
        self.finish_at(id, job_id, result, cancelled, now)
    }

    /// Whether an entry with id `id` waits in the queue.
    /// The ids of all job states, queued or running, in increasing order.
    pub fn state_ids(&self) -> (r: Vec<u128>)
        ensures
            r@.to_set() == self.view().states.dom(),
            r@.no_duplicates(),
    {
        let ghost full: Seq<u128> = IteratorSpec::remaining(&vstd::std_specs::btree::spec_keys_iter(&self.states)).unref();
        let mut out: Vec<u128> = Vec::new();
        for k in it: self.states.keys()
            invariant
                it.seq().unref() == full,
                full.to_set() == self.states@.dom(),
                full.no_duplicates(),
                out@ == full.take(it.index() as int),
        {
            assert(full.take(it.index() + 1) =~= full.take(it.index() as int).push(*k));
            out.push(*k);
        }
        assert(out@ =~= full);
        out
    }

    pub fn is_queued(&self, id: u128) -> (b: bool)
        ensures
            b == self.view().items.contains_key(id),
    {
        self.items.contains_key(&id)
    }

    /// Cancels the job in state `id` at time `now`: a running job has its
    /// token cancelled and its report marked cancelled; a pending one
    /// leaves the queue and its state is forgotten; an unknown id is
    /// `StateNotFound`.
    pub fn cancel_job_at(&mut self, id: u128, now: i128) -> (r: (Result<(), JobManagerError>, Vec<JobManagerEvent>))
        requires
            old(self).wf(),
            old(self).view().states.contains_key(id) && old(self).view().states[id].status == JobStatus::InProgress
                ==> old(self).report(old(self).view().states[id].job_id@) is Some,
        ensures
            final(self).wf(),
            !old(self).view().states.contains_key(id) ==> {
                &&& r.0 == Err::<(), JobManagerError>(JobManagerError::StateNotFound)
                &&& final(self).view() == old(self).view()
                &&& forall|j: Seq<char>| #[trigger] final(self).report(j) == old(self).report(j)
                &&& r.1@.len() == 0
            },
            old(self).view().states.contains_key(id) && old(self).view().states[id].status == JobStatus::InProgress ==> {
                let job = old(self).view().states[id].job_id@;
                &&& r.0 == Ok::<(), JobManagerError>(())
                &&& final(self).view() == old(self).view()
                &&& forall|j: Seq<char>| j != job ==> #[trigger] final(self).report(j) == old(self).report(j)
                &&& final(self).report(job) == Some(JobExecutionReport {
                    cancelled_at: Some(now),
                    completed_successfully: false,
                    ..old(self).report(job)->0
                })
                &&& r.1@.len() == 0
            },
            old(self).view().states.contains_key(id) && old(self).view().states[id].status == JobStatus::Pending ==> {
                &&& r.0 == Ok::<(), JobManagerError>(())
                &&& final(self).view() == withdrawn(old(self).view(), id)
                &&& forall|j: Seq<char>| #[trigger] final(self).report(j) == old(self).report(j)
                &&& r.1@ == seq![JobManagerEvent::StateRemoved { source: id }]
            },
    {
        let mut events: Vec<JobManagerEvent> = Vec::new();
        let (status, job_id) = match self.states.get(&id) {
            Some(state) => {
                if state.status == JobStatus::InProgress {
                    cancel_token(&state.token);
                }
                (state.status, state.job_id.clone())
            },
            None => {
                return (Err(JobManagerError::StateNotFound), events);
            },
        };
        if status == JobStatus::InProgress {
            let mut report = match self.reports.get(job_id.as_str()) {
                Some(r) => *r,
                None => {
                    proof { assert(false); }
                    JobExecutionReport::default()
                },
            };
            report.cancelled_at = Some(now);
            report.completed_successfully = false;
            self.reports.insert(job_id, report);
            (Ok(()), events)
        } else {
            self.states.remove(&id);
            let ghost old_order = self.order@;
            let mut kept: Vec<u128> = Vec::new();
            let mut i: usize = 0;
            while i < self.order.len()
                invariant
                    i <= self.order@.len(),
                    self.order@ == old_order,
                    kept@ == remove_all(old_order.take(i as int), id),
                decreases self.order.len() - i,
            {
                let x = self.order[i];
                assert(old_order.take(i + 1).drop_last() =~= old_order.take(i as int));
                assert(old_order.take(i + 1).last() == x);
                if x != id {
                    kept.push(x);
                }
                i = i + 1;
            }
            assert(old_order.take(old_order.len() as int) =~= old_order);
            self.order = kept;
            self.items.remove(&id);
            proof {
                assert forall|k: u128| #[trigger] self.items@.contains_key(k) implies self.order@.contains(k) by {
                    lemma_remove_all_keeps(old_order, id, k);
                }
            }
            events.push(JobManagerEvent::StateRemoved { source: id });
            assert(events@ =~= seq![JobManagerEvent::StateRemoved { source: id }]);
            (Ok(()), events)
        }
    }

    /// As `cancel_job_at`, at the current time of the clock.
    pub fn cancel_job(&mut self, id: u128) -> (r: (Result<(), JobManagerError>, Vec<JobManagerEvent>))
        requires
            old(self).wf(),
            old(self).view().states.contains_key(id) && old(self).view().states[id].status == JobStatus::InProgress
                ==> old(self).report(old(self).view().states[id].job_id@) is Some,
        ensures
            final(self).wf(),
            !old(self).view().states.contains_key(id) ==>
                r.0 == Err::<(), JobManagerError>(JobManagerError::StateNotFound) && final(self).view() == old(self).view(),
            !old(self).view().states.contains_key(id) ==> r.1@.len() == 0
                && forall|j: Seq<char>| #[trigger] final(self).report(j) == old(self).report(j),
            old(self).view().states.contains_key(id) && old(self).view().states[id].status == JobStatus::InProgress ==> {
                let job = old(self).view().states[id].job_id@;
                let before = old(self).report(job)->0;
                &&& r.0 == Ok::<(), JobManagerError>(())
                &&& final(self).view() == old(self).view()
                &&& r.1@.len() == 0
                &&& forall|j: Seq<char>| j != job ==> #[trigger] final(self).report(j) == old(self).report(j)
                &&& final(self).report(job) matches Some(after) && after.cancelled_at is Some
                    && !after.completed_successfully && after.started_at == before.started_at
                    && after.completed_at == before.completed_at
            },
            old(self).view().states.contains_key(id) && old(self).view().states[id].status == JobStatus::Pending ==> {
                &&& r.0 == Ok::<(), JobManagerError>(())
                &&& final(self).view() == withdrawn(old(self).view(), id)
                &&& r.1@ == seq![JobManagerEvent::StateRemoved { source: id }]
                &&& forall|j: Seq<char>| #[trigger] final(self).report(j) == old(self).report(j)
            },
    {
        let now = now_unix_nanos();
        self.cancel_job_at(id, now)
    }
}

/// An element other than `x` stays when `x` is taken out.
proof fn lemma_remove_all_keeps(s: Seq<u128>, x: u128, k: u128)
    requires
        s.contains(k),
        k != x,
    ensures
        remove_all(s, x).contains(k),
    decreases s.len(),
{
    let p = s.drop_last();
    if s.last() == k {
        assert(remove_all(s, x).last() == k);
        assert(remove_all(s, x)[remove_all(s, x).len() - 1] == k);
    } else {
        let j = choose|j: int| 0 <= j < s.len() && s[j] == k;
        assert(j < s.len() - 1);
        assert(p[j] == k);
        lemma_remove_all_keeps(p, x, k);
        let r = remove_all(p, x);
        let w = choose|w: int| 0 <= w < r.len() && r[w] == k;
        if s.last() == x {
            assert(remove_all(s, x)[w] == k);
        } else {
            assert(remove_all(s, x)[w] == k);
        }
    }
}

/// Cancelling a job that was just queued, before it started, gives back
/// the book as it was before the job was queued.
pub proof fn law_cancel_undoes_queue(v: BookView, id: u128, high_priority: bool, state: JobState, item: QueuedJob)
    requires
        !v.states.contains_key(id),
        !v.order.contains(id),
        !v.items.contains_key(id),
    ensures
        withdrawn(queued(v, id, high_priority, state, item), id) == v,
{
    lemma_remove_added(v.order, id);
    assert(v.states.insert(id, state).remove(id) =~= v.states);
    assert(v.items.insert(id, item).remove(id) =~= v.items);
}


impl JobExecutionReport {
    /// A report of a job that never ran.
    pub open spec fn default_spec() -> JobExecutionReport {
        JobExecutionReport { started_at: None, completed_at: None, cancelled_at: None, completed_successfully: false }
    }
}

impl<H> JobRegistry<H> {
    /// A job is registered exactly when its id is listed.
    pub proof fn lemma_ids_keys(&self)
        requires
            self.wf(),
        ensures
            forall|id: Seq<char>| #[trigger] self.job(id) is Some <==> self.ids().contains(id),
    {
        assert forall|id: Seq<char>| #[trigger] self.job(id) is Some <==> self.ids().contains(id) by {
            if self.ids().contains(id) {
                let k = choose|k: int| 0 <= k < self.ids().len() && self.ids()[k] == id;
                crate::strmap::lemma_lookup_at(self.jobs.entries_spec(), k);
            }
            if self.job(id) is Some {
                let k = choose|k: int| 0 <= k < self.jobs.entries_spec().len() && #[trigger] self.jobs.entries_spec()[k].0@ == id;
                assert(self.ids()[k] == id);
            }
        }
    }
}

} // verus!
