//! The two background tasks of the server, song update and song scan, as
//! records the task registry starts and stops, and the decisions of a run
//! of the update as a step machine that the server drives.

use vstd::prelude::*;
use crate::db::{song_changed_spec, song_metadata_changed, updated_song_of, Song, UpdatedSong};
use crate::metadata::Metadata;
use crate::scan::{ScanNotice, ScanRequest};
use crate::task::{Registry, RunEnd, Task, TaskError, TaskEvent, TaskEventType, TaskInfo, TaskRecord, TaskStatus};
use crate::text::{decimal_spec, decimal_u128, str_concat};

verus! {

/// `current` out of `total` in whole percent, rounded down.
pub open spec fn percent(current: u64, total: u64) -> nat {
    ((current as nat) * 100 / (total as nat)) as nat
}

/// The whole percent `current` is of `total`, written in decimal.
fn percent_text(current: u64, total: u64) -> (s: String)
    requires
        total > 0,
    ensures
        s@ == decimal_spec(percent(current, total)),
{
    let p: u128 = (current as u128) * 100 / (total as u128);
    decimal_u128(p)
}

/// The song update task: it brings the stored tags of every song in line
/// with its file.
#[derive(Debug)]
pub struct UpdateSongs {
    pub record: TaskRecord,
}

impl UpdateSongs {
    /// The idle update task, with id `update-songs` and two steps.
    pub fn new() -> (t: Self)
        ensures
            t.record.info.id@ == "update-songs"@,
            t.record.info.name@ == "Update Songs"@,
            t.record.info.description@ == "Updates every song's metadata in the database"@,
            t.record.info.steps == 2,
            t.record.status == TaskStatus::Idle,
            t.record.started_at is None && t.record.completed_at is None && t.record.cancelled_at is None,
    {
        let info = TaskInfo::new("update-songs", "Update Songs", "Updates every song's metadata in the database", 2);
        UpdateSongs { record: TaskRecord::new(info) }
    }
}

impl Task for UpdateSongs {
    open spec fn spec_info(&self) -> TaskInfo {
        self.record.info
    }

    open spec fn spec_status(&self) -> TaskStatus {
        self.record.status
    }

    fn info(&self) -> (r: &TaskInfo) {
        &self.record.info
    }

    fn start(&mut self) -> (r: Result<(), TaskError>) {
        self.record.start()
    }

    fn stop(&mut self) -> (r: Result<(), TaskError>) {
        self.record.stop()
    }

    fn status(&self) -> (r: TaskStatus) {
        self.record.status
    }

    fn end_run(&mut self, end: RunEnd) {
        self.record.end_run(end)
    }
}

/// What a run of the song update reports.
#[derive(Debug, Clone, PartialEq, Eq)]
pub enum UpdateNotice {
    /// The run began.
    Start,
    /// `count` stored songs were found.
    Found { count: u64 },
    /// Stored song number `current` (from 0) of `total` is compared with
    /// its file.
    Comparing { current: u64, total: u64 },
    /// No song is stored.
    NoSongs,
    /// No stored song is out of date.
    NothingChanged,
    /// `count` songs are to be updated.
    Updating { count: u64 },
    /// Change number `current` (from 0) of `total` was applied.
    Updated { current: u64, total: u64 },
    /// All `total` changes were applied and are being saved.
    Saving { total: u64 },
    /// The run is over and its changes are saved.
    Complete,
}

/// The kind and the message of the task event that carries a notice.
pub open spec fn update_notice_text(n: UpdateNotice) -> (TaskEventType, Seq<char>) {
    match n {
        UpdateNotice::Start => (TaskEventType::Start, "Starting song update"@),
        UpdateNotice::Found { count } => (TaskEventType::Info,
            "Found "@ + decimal_spec(count as nat) + " song(s), comparing metadata..."@),
        UpdateNotice::Comparing { current, total } => (TaskEventType::Progress,
            "Comparing metadata "@ + decimal_spec(percent(current, total)) + "%"@),
        UpdateNotice::NoSongs => (TaskEventType::Stop, "No Songs found, cancelling update"@),
        UpdateNotice::NothingChanged => (TaskEventType::Stop, "No Songs need updating, cancelling update"@),
        UpdateNotice::Updating { count } => (TaskEventType::Info, "Updating "@ + decimal_spec(count as nat) + " song(s)..."@),
        UpdateNotice::Updated { current, total } => (TaskEventType::Progress,
            "Updating songs with new metadata "@ + decimal_spec(percent(current, total)) + "%"@),
        UpdateNotice::Saving { total } => (TaskEventType::Progress,
            "Updated "@ + decimal_spec(total as nat) + " song(s)... saving changes"@),
        UpdateNotice::Complete => (TaskEventType::Complete, "Song update complete"@),
    }
}

/// The counts of the task event that carries a notice: current, total and
/// step.
pub open spec fn update_notice_counts(n: UpdateNotice) -> (Option<u64>, Option<u64>, Option<u8>) {
    match n {
        UpdateNotice::Comparing { current, total } => (Some(current), Some(total), Some(1u8)),
        UpdateNotice::Updated { current, total } => (Some(current), Some(total), Some(2u8)),
        UpdateNotice::Saving { total } => (Some(total), Some(total), Some(2u8)),
        _ => (None, None, None),
    }
}

impl UpdateNotice {
    /// The task event that carries the notice, stamped with the current
    /// time.
    pub fn event(&self) -> (e: TaskEvent)
        requires
            self matches UpdateNotice::Comparing { total, .. } ==> total > 0,
            self matches UpdateNotice::Updated { total, .. } ==> total > 0,
        ensures
            (e.kind, e.message@) == update_notice_text(*self),
            (e.current, e.total, e.step) == update_notice_counts(*self),
    {
        match self {
            UpdateNotice::Start => TaskEvent::start("Starting song update"),
            UpdateNotice::Found { count } => {
                let m = str_concat("Found ", decimal_u128(*count as u128).as_str()).concat(" song(s), comparing metadata...");
                TaskEvent::info(m.as_str())
            },
            UpdateNotice::Comparing { current, total } => {
                let m = str_concat("Comparing metadata ", percent_text(*current, *total).as_str()).concat("%");
                TaskEvent::progress(m.as_str(), *current, *total, Some(1))
            },
            UpdateNotice::NoSongs => TaskEvent::stop("No Songs found, cancelling update"),
            UpdateNotice::NothingChanged => TaskEvent::stop("No Songs need updating, cancelling update"),
            UpdateNotice::Updating { count } => {
                let m = str_concat("Updating ", decimal_u128(*count as u128).as_str()).concat(" song(s)...");
                TaskEvent::info(m.as_str())
            },
            UpdateNotice::Updated { current, total } => {
                let m = str_concat("Updating songs with new metadata ", percent_text(*current, *total).as_str()).concat("%");
                TaskEvent::progress(m.as_str(), *current, *total, Some(2))
            },
            UpdateNotice::Saving { total } => {
                let m = str_concat("Updated ", decimal_u128(*total as u128).as_str()).concat(" song(s)... saving changes");
                TaskEvent::progress(m.as_str(), *total, *total, Some(2))
            },
            UpdateNotice::Complete => TaskEvent::complete("Song update complete"),
        }
    }
}

/// Where a run of the song update stands.
#[derive(Debug, Clone, Copy, PartialEq, Eq, Structural)]
pub enum UpdatePhase {
    /// Waiting for the stored songs.
    Songs,
    /// Waiting for the tags of the current stored song.
    Compare,
    /// Waiting for the transaction to begin.
    Begin,
    /// Waiting to learn whether the task was asked to stop, before the
    /// current change.
    Check,
    /// Waiting for the current change to be applied.
    Update,
    /// Waiting for the commit.
    Commit,
    /// Over, ending the run this way.
    Finished(RunEnd),
}

/// A change the update applies: the id of a stored song, the tag values
/// read from its file and the creation time of the file.
#[derive(Debug)]
pub struct SongChange {
    pub id: String,
    pub values: UpdatedSong,
    pub created: Option<i128>,
}

/// What a run of the update asks of the database, the disk and the task.
#[derive(Debug)]
pub enum UpdateRequest {
    /// The stored songs; answer `Songs`.
    Songs,
    /// The tags and the creation time of a file; answer `Tags`.
    ReadTags(String),
    /// Begin the transaction the changes are made in; answer `Done`.
    Begin,
    /// Whether the task was asked to stop; answer `Flag`.
    Stopped,
    /// Apply a change; answer `Done` (a failure is only logged).
    Update(SongChange),
    /// Commit the changes; answer `Done`.
    Commit,
    /// The run is over and ends the task's run this way.
    Finish(RunEnd),
}

/// The answer to an update request.
#[derive(Debug)]
pub enum UpdateReply {
    Songs(Vec<Song>),
    /// The tags of a file, or why they could not be read, and its creation
    /// time when it is known.
    Tags(Result<Metadata, String>, Option<i128>),
    Flag(bool),
    Done,
}

/// A run of the update as values: its phase, the stored songs, the
/// changes found so far and the index of the current song or change.
pub struct UpdateState {
    pub phase: UpdatePhase,
    pub songs: Seq<Song>,
    pub changes: Seq<SongChange>,
    pub index: int,
}

/// The request a run waits on the answer of.
pub open spec fn update_pending(s: UpdateState) -> UpdateRequest {
    match s.phase {
        UpdatePhase::Songs => UpdateRequest::Songs,
        UpdatePhase::Compare => UpdateRequest::ReadTags(s.songs[s.index].path),
        UpdatePhase::Begin => UpdateRequest::Begin,
        UpdatePhase::Check => UpdateRequest::Stopped,
        UpdatePhase::Update => UpdateRequest::Update(s.changes[s.index]),
        UpdatePhase::Commit => UpdateRequest::Commit,
        UpdatePhase::Finished(e) => UpdateRequest::Finish(e),
    }
}

/// Whether `reply` answers the request a run in `phase` waits on.
pub open spec fn update_answers(phase: UpdatePhase, reply: UpdateReply) -> bool {
    match phase {
        UpdatePhase::Songs => reply is Songs,
        UpdatePhase::Compare => reply is Tags,
        UpdatePhase::Check => reply is Flag,
        UpdatePhase::Begin | UpdatePhase::Update | UpdatePhase::Commit => reply is Done,
        UpdatePhase::Finished(_) => false,
    }
}

/// `c` is the change that brings stored `song` in line with the tags `tags`
/// of its file, created at `created`.
pub open spec fn change_of(c: SongChange, song: Song, tags: Metadata, created: Option<i128>) -> bool {
    &&& c.id == song.id
    &&& updated_song_of(c.values, Some(tags))
    &&& c.created == created
}

/// Whether the tags read for `song` make it out of date.
pub open spec fn needs_update(song: Song, tags: Result<Metadata, String>, created: Option<i128>) -> bool {
    tags matches Ok(t) && song_changed_spec(song, Some(t), created)
}

/// The changes after comparing `song`: one more, for the song, when it is
/// out of date; the same otherwise.
pub open spec fn compared(old: Seq<SongChange>, new: Seq<SongChange>, song: Song, tags: Result<Metadata, String>, created: Option<i128>) -> bool {
    if needs_update(song, tags, created) {
        &&& new.len() == old.len() + 1
        &&& new.drop_last() == old
        &&& tags matches Ok(t) && change_of(new.last(), song, t, created)
    } else {
        new == old
    }
}

/// One step of a run of the update: from `old` and the answer `reply` to
/// `new`, with the notices to send. A reply that does not answer the
/// pending request changes nothing.
pub open spec fn update_next(old: UpdateState, reply: UpdateReply, new: UpdateState, notices: Seq<UpdateNotice>) -> bool {
    if !update_answers(old.phase, reply) {
        new == old && notices.len() == 0
    } else {
        match old.phase {
            UpdatePhase::Songs => match reply {
                UpdateReply::Songs(v) => if v@.len() == 0 {
                    &&& new == UpdateState { phase: UpdatePhase::Finished(RunEnd::Cancelled), songs: v@, ..old }
                    &&& notices == seq![UpdateNotice::NoSongs]
                } else {
                    &&& new == UpdateState { phase: UpdatePhase::Compare, songs: v@, changes: Seq::empty(), index: 0 }
                    &&& notices == seq![
                        UpdateNotice::Found { count: v@.len() as u64 },
                        UpdateNotice::Comparing { current: 0, total: v@.len() as u64 },
                    ]
                },
                _ => false,
            },
            UpdatePhase::Compare => match reply {
                UpdateReply::Tags(m, created) => {
                    let i = old.index + 1;
                    let n = old.songs.len();
                    &&& compared(old.changes, new.changes, old.songs[old.index], m, created)
                    &&& new.songs == old.songs
                    &&& if i < n {
                        &&& new.phase == UpdatePhase::Compare
                        &&& new.index == i
                        &&& notices == if i % 50 == 0 {
                            seq![UpdateNotice::Comparing { current: i as u64, total: n as u64 }]
                        } else {
                            Seq::empty()
                        }
                    } else if new.changes.len() == 0 {
                        &&& new.phase == UpdatePhase::Finished(RunEnd::Cancelled)
                        &&& new.index == old.index
                        &&& notices == seq![UpdateNotice::NothingChanged]
                    } else {
                        &&& new.phase == UpdatePhase::Begin
                        &&& new.index == old.index
                        &&& notices == seq![UpdateNotice::Updating { count: new.changes.len() as u64 }]
                    }
                },
                _ => false,
            },
            UpdatePhase::Begin => notices.len() == 0 && new == UpdateState { phase: UpdatePhase::Check, index: 0, ..old },
            UpdatePhase::Check => notices.len() == 0 && match reply {
                UpdateReply::Flag(true) => new == UpdateState { phase: UpdatePhase::Finished(RunEnd::Stopped), ..old },
                UpdateReply::Flag(false) => new == UpdateState { phase: UpdatePhase::Update, ..old },
                _ => false,
            },
            UpdatePhase::Update => {
                let k = old.changes.len();
                let i = old.index;
                let progress = if i % 100 == 0 {
                    seq![UpdateNotice::Updated { current: i as u64, total: k as u64 }]
                } else {
                    Seq::empty()
                };
                if i + 1 < k {
                    new == UpdateState { phase: UpdatePhase::Check, index: i + 1, ..old } && notices == progress
                } else {
                    &&& new == UpdateState { phase: UpdatePhase::Commit, index: i + 1, ..old }
                    &&& notices == progress.push(UpdateNotice::Saving { total: k as u64 })
                }
            },
            UpdatePhase::Commit => {
                &&& new == UpdateState { phase: UpdatePhase::Finished(RunEnd::Completed), ..old }
                &&& notices == seq![UpdateNotice::Complete]
            },
            UpdatePhase::Finished(_) => false,
        }
    }
}

/// The bounds a run keeps in each phase.
pub open spec fn update_inv(s: UpdateState) -> bool {
    &&& s.songs.len() <= u64::MAX
    &&& s.changes.len() <= s.songs.len()
    &&& 0 <= s.index
    &&& match s.phase {
        UpdatePhase::Songs => s.songs.len() == 0 && s.changes.len() == 0 && s.index == 0,
        UpdatePhase::Compare => s.index < s.songs.len() && s.changes.len() <= s.index,
        UpdatePhase::Begin => 0 < s.changes.len(),
        UpdatePhase::Check | UpdatePhase::Update => s.index < s.changes.len(),
        _ => true,
    }
}

/// A run of the update that has not begun.
pub open spec fn update_start() -> UpdateState {
    UpdateState { phase: UpdatePhase::Songs, songs: Seq::empty(), changes: Seq::empty(), index: 0 }
}

/// Notices to send, then the next request.
#[derive(Debug)]
pub struct UpdateStep {
    pub notices: Vec<UpdateNotice>,
    pub request: UpdateRequest,
}

/// A running song update.
#[derive(Debug)]
pub struct UpdateRun {
    phase: UpdatePhase,
    songs: Vec<Song>,
    changes: Vec<SongChange>,
    index: usize,
}

impl View for UpdateRun {
    type V = UpdateState;

    closed spec fn view(&self) -> UpdateState {
        UpdateState { phase: self.phase, songs: self.songs@, changes: self.changes@, index: self.index as int }
    }
}

/// A copy of a change.
fn copy_change(c: &SongChange) -> (r: SongChange)
    ensures
        r == *c,
{
    SongChange { id: c.id.clone(), values: crate::scan::copy_updated_song(&c.values), created: c.created }
}

impl UpdateRun {
    /// The bounds of the run hold.
    pub closed spec fn wf(&self) -> bool {
        update_inv(self@)
    }

    /// Begins a run: it reports that it started and asks for the stored
    /// songs.
    pub fn new() -> (r: (UpdateRun, UpdateStep))
        ensures
            r.0.wf(),
            r.0@ == update_start(),
            r.1.notices@ == seq![UpdateNotice::Start],
            r.1.request == UpdateRequest::Songs,
    {
        let run = UpdateRun { phase: UpdatePhase::Songs, songs: Vec::new(), changes: Vec::new(), index: 0 };
        let mut notices: Vec<UpdateNotice> = Vec::new();
        notices.push(UpdateNotice::Start);
        proof {
            assert(run@ =~= update_start());
            assert(notices@ =~= seq![UpdateNotice::Start]);
        }
        (run, UpdateStep { notices, request: UpdateRequest::Songs })
    }

    /// The request the run waits on the answer of.
    pub fn pending_request(&self) -> (r: UpdateRequest)
        requires
            self.wf(),
        ensures
            r == update_pending(self@),
    {
        match self.phase {
            UpdatePhase::Songs => UpdateRequest::Songs,
            UpdatePhase::Compare => UpdateRequest::ReadTags(self.songs[self.index].path.clone()),
            UpdatePhase::Begin => UpdateRequest::Begin,
            UpdatePhase::Check => UpdateRequest::Stopped,
            UpdatePhase::Update => UpdateRequest::Update(copy_change(&self.changes[self.index])),
            UpdatePhase::Commit => UpdateRequest::Commit,
            UpdatePhase::Finished(e) => UpdateRequest::Finish(e),
        }
    }

    /// Whether `reply` answers the pending request.
    fn answers(&self, reply: &UpdateReply) -> (b: bool)
        ensures
            b == update_answers(self@.phase, *reply),
    {
        match self.phase {
            UpdatePhase::Songs => matches!(reply, UpdateReply::Songs(_)),
            UpdatePhase::Compare => matches!(reply, UpdateReply::Tags(_, _)),
            UpdatePhase::Check => matches!(reply, UpdateReply::Flag(_)),
            UpdatePhase::Begin | UpdatePhase::Update | UpdatePhase::Commit => matches!(reply, UpdateReply::Done),
            UpdatePhase::Finished(_) => false,
        }
    }

    /// Takes the answer to the pending request and decides what comes
    /// next: the notices to send and the next request.
    pub fn step(&mut self, reply: UpdateReply) -> (s: UpdateStep)
        requires
            old(self).wf(),
            reply matches UpdateReply::Tags(Ok(m), _) ==> m.wf(),
        ensures
            final(self).wf(),
            update_next(old(self)@, reply, final(self)@, s.notices@),
            s.request == update_pending(final(self)@),
    {
        if !self.answers(&reply) {
            let request = self.pending_request();
            return UpdateStep { notices: Vec::new(), request };
        }
        let ghost start = self@;
        let mut notices: Vec<UpdateNotice> = Vec::new();
        match self.phase {
            UpdatePhase::Songs => {
                if let UpdateReply::Songs(v) = reply {
                    let n = v.len();
                    self.songs = v;
                    if n == 0 {
                        self.phase = UpdatePhase::Finished(RunEnd::Cancelled);
                        notices.push(UpdateNotice::NoSongs);
                    } else {
                        self.phase = UpdatePhase::Compare;
                        self.index = 0;
                        assert(self.changes@ =~= Seq::<SongChange>::empty());
                        notices.push(UpdateNotice::Found { count: n as u64 });
                        notices.push(UpdateNotice::Comparing { current: 0, total: n as u64 });
                        assert(notices@ =~= seq![
                            UpdateNotice::Found { count: n as u64 },
                            UpdateNotice::Comparing { current: 0, total: n as u64 },
                        ]);
                    }
                }
            },
            UpdatePhase::Compare => {
                if let UpdateReply::Tags(m, created) = reply {
                    let i = self.index;
                    let n = self.songs.len();
                    let ghost before = self.changes@;
                    match &m {
                        Ok(t) => {
                            if song_metadata_changed(&self.songs[i], Some(t), created) {
                                let c = SongChange {
                                    id: self.songs[i].id.clone(),
                                    values: UpdatedSong::from_metadata(Some(t)),
                                    created,
                                };
                                self.changes.push(c);
                                proof {
                                    assert(self.changes@.drop_last() =~= before);
                                }
                            }
                        },
                        Err(_) => {},
                    }
                    if i + 1 < n {
                        self.index = i + 1;
                        if (i + 1) % 50 == 0 {
                            notices.push(UpdateNotice::Comparing { current: (i + 1) as u64, total: n as u64 });
                        }
                    } else if self.changes.len() == 0 {
                        self.phase = UpdatePhase::Finished(RunEnd::Cancelled);
                        notices.push(UpdateNotice::NothingChanged);
                    } else {
                        self.phase = UpdatePhase::Begin;
                        notices.push(UpdateNotice::Updating { count: self.changes.len() as u64 });
                    }
                }
            },
            UpdatePhase::Begin => {
                self.phase = UpdatePhase::Check;
                self.index = 0;
            },
            UpdatePhase::Check => {
                if let UpdateReply::Flag(stopped) = reply {
                    self.phase = if stopped { UpdatePhase::Finished(RunEnd::Stopped) } else { UpdatePhase::Update };
                }
            },
            UpdatePhase::Update => {
                let i = self.index;
                let k = self.changes.len();
                if i % 100 == 0 {
                    notices.push(UpdateNotice::Updated { current: i as u64, total: k as u64 });
                }
                self.index = i + 1;
                if i + 1 < k {
                    self.phase = UpdatePhase::Check;
                } else {
                    self.phase = UpdatePhase::Commit;
                    notices.push(UpdateNotice::Saving { total: k as u64 });
                }
            },
            UpdatePhase::Commit => {
                self.phase = UpdatePhase::Finished(RunEnd::Completed);
                notices.push(UpdateNotice::Complete);
            },
            UpdatePhase::Finished(_) => {},
        }
        let request = self.pending_request();
        UpdateStep { notices, request }
    }
}

/// A run of the update that learns the task was asked to stop ends at
/// once, stopped: it sends nothing more and applies no further change.
pub proof fn law_update_stop_halts(run: UpdateRun, new: UpdateState, notices: Seq<UpdateNotice>)
    requires
        run.wf(),
        run@.phase == UpdatePhase::Check,
        update_next(run@, UpdateReply::Flag(true), new, notices),
    ensures
        new.phase == UpdatePhase::Finished(RunEnd::Stopped),
        notices.len() == 0,
        update_pending(new) == UpdateRequest::Finish(RunEnd::Stopped),
        new.changes == run@.changes,
{
}

/// Comparing a stored song adds a change exactly when the tags of its file
/// could be read and disagree with what is stored, and that change is for
/// that song.
pub proof fn law_update_only_changed_songs(run: UpdateRun, m: Result<Metadata, String>, created: Option<i128>, new: UpdateState, notices: Seq<UpdateNotice>)
    requires
        run.wf(),
        run@.phase == UpdatePhase::Compare,
        update_next(run@, UpdateReply::Tags(m, created), new, notices),
    ensures
        new.changes.len() > run@.changes.len() <==> needs_update(run@.songs[run@.index], m, created),
        new.changes.len() > run@.changes.len() ==> new.changes.last().id == run@.songs[run@.index].id,
        new.changes.len() <= run@.changes.len() ==> new.changes == run@.changes,
{
}

/// A run whose last comparison leaves no change ends cancelled without
/// touching the database; with changes it goes on to apply them.
pub proof fn law_update_without_changes(run: UpdateRun, m: Result<Metadata, String>, created: Option<i128>, new: UpdateState, notices: Seq<UpdateNotice>)
    requires
        run.wf(),
        run@.phase == UpdatePhase::Compare,
        run@.index + 1 == run@.songs.len(),
        update_next(run@, UpdateReply::Tags(m, created), new, notices),
    ensures
        new.changes.len() == 0 <==> new.phase == UpdatePhase::Finished(RunEnd::Cancelled),
        new.changes.len() == 0 ==> notices == seq![UpdateNotice::NothingChanged],
        new.changes.len() != 0 <==> new.phase == UpdatePhase::Begin,
{
}

/// Every progress notice of the update counts a change applied out of all
/// the changes found, and the notice that the changes are saved counts
/// them all.
pub proof fn law_update_progress_counts(run: UpdateRun, reply: UpdateReply, new: UpdateState, notices: Seq<UpdateNotice>)
    requires
        run.wf(),
        run@.phase == UpdatePhase::Update,
        update_next(run@, reply, new, notices),
    ensures
        forall|k: int| 0 <= k < notices.len() ==> (#[trigger] notices[k] matches UpdateNotice::Updated { current, total }
            ==> current < total && total == run@.changes.len()),
        forall|k: int| 0 <= k < notices.len() ==> (#[trigger] notices[k] matches UpdateNotice::Saving { total }
            ==> total == run@.changes.len() && new.phase == UpdatePhase::Commit),
{
}

/// `states` is a run of the update: each state follows from the one before
/// by the answer in `replies`, with the notices in `notices`.
pub open spec fn update_trace(states: Seq<UpdateState>, replies: Seq<UpdateReply>, notices: Seq<Seq<UpdateNotice>>) -> bool {
    &&& states.len() == replies.len() + 1
    &&& notices.len() == replies.len()
    &&& forall|i: int| 0 <= i < replies.len() ==> update_next(states[i], #[trigger] replies[i], states[i + 1], notices[i])
}

/// The changes a run applied, in order: the pending change of each state
/// that waited on an `Update` request and got its answer.
pub open spec fn applied_changes(states: Seq<UpdateState>, replies: Seq<UpdateReply>) -> Seq<SongChange>
    decreases replies.len(),
{
    if replies.len() == 0 {
        Seq::empty()
    } else {
        let i = replies.len() - 1;
        let rest = applied_changes(states, replies.drop_last());
        if states[i].phase == UpdatePhase::Update && replies[i] is Done {
            rest.push(states[i].changes[states[i].index])
        } else {
            rest
        }
    }
}

/// What a run has applied when it stands in `s`.
pub open spec fn applied_so_far(s: UpdateState, applied: Seq<SongChange>) -> bool {
    match s.phase {
        UpdatePhase::Songs | UpdatePhase::Compare => applied.len() == 0,
        UpdatePhase::Begin => applied.len() == 0 && s.changes.len() > 0,
        UpdatePhase::Check | UpdatePhase::Update | UpdatePhase::Finished(RunEnd::Stopped) =>
            0 <= s.index < s.changes.len() && applied == s.changes.take(s.index),
        UpdatePhase::Commit | UpdatePhase::Finished(RunEnd::Completed) => applied == s.changes,
        UpdatePhase::Finished(RunEnd::Cancelled) => applied.len() == 0,
    }
}

/// Along a run from its start, what was applied is what the state says.
proof fn lemma_update_trace(states: Seq<UpdateState>, replies: Seq<UpdateReply>, notices: Seq<Seq<UpdateNotice>>, j: int)
    requires
        update_trace(states, replies, notices),
        states[0] == update_start(),
        0 <= j <= replies.len(),
    ensures
        applied_so_far(states[j], applied_changes(states, replies.take(j))),
    decreases j,
{
    if j == 0 {
        assert(replies.take(0).len() == 0);
    } else {
        let i = j - 1;
        lemma_update_trace(states, replies, notices, i);
        assert(replies.take(j).drop_last() =~= replies.take(i));
        assert(replies.take(j)[i] == replies[i]);
        let old = states[i];
        let new = states[j];
        assert(update_next(old, replies[i], new, notices[i]));
        let a2 = applied_changes(states, replies.take(j));
        if update_answers(old.phase, replies[i]) {
            match old.phase {
                UpdatePhase::Begin => {
                    assert(a2 =~= new.changes.take(new.index));
                },
                UpdatePhase::Update => {
                    assert(a2 =~= old.changes.take(old.index + 1));
                    if old.index + 1 >= old.changes.len() {
                        assert(a2 =~= new.changes);
                    }
                },
                _ => {},
            }
        }
    }
}

/// A completed run of the update applied every change it found, each once
/// and in the order it found them; a stopped run applied the first few of
/// them; a cancelled run applied none.
pub proof fn law_update_run_applies_each_change_once(states: Seq<UpdateState>, replies: Seq<UpdateReply>, notices: Seq<Seq<UpdateNotice>>)
    requires
        update_trace(states, replies, notices),
        states[0] == update_start(),
    ensures
        states.last().phase == UpdatePhase::Finished(RunEnd::Completed)
            ==> applied_changes(states, replies) == states.last().changes,
        states.last().phase == UpdatePhase::Finished(RunEnd::Stopped)
            ==> applied_changes(states, replies) == states.last().changes.take(states.last().index)
                && states.last().index < states.last().changes.len(),
        states.last().phase == UpdatePhase::Finished(RunEnd::Cancelled)
            ==> applied_changes(states, replies).len() == 0,
{
    lemma_update_trace(states, replies, notices, replies.len() as int);
    assert(replies.take(replies.len() as int) =~= replies);
}

/// The song scan task: it adds new song files, updates songs whose tags
/// changed and deletes songs whose file is gone. A run of it is a scan
/// (`crate::scan::ScanRun`); its notices reach the task's channel as the
/// events of `scan_task_event`, and its end as `ScanTaskEnd`.
#[derive(Debug)]
pub struct ScanSongs {
    pub record: TaskRecord,
}

impl ScanSongs {
    /// The idle scan task, with id `scan-songs` and three steps.
    pub fn new() -> (t: Self)
        ensures
            t.record.info.id@ == "scan-songs"@,
            t.record.info.name@ == "Scan Songs"@,
            t.record.info.description@ == "Scans for new songs, updates existing ones, and deletes songs that no longer exist"@,
            t.record.info.steps == 3,
            t.record.status == TaskStatus::Idle,
            t.record.started_at is None && t.record.completed_at is None && t.record.cancelled_at is None,
    {
        let info = TaskInfo::new(
            "scan-songs",
            "Scan Songs",
            "Scans for new songs, updates existing ones, and deletes songs that no longer exist",
            3,
        );
        ScanSongs { record: TaskRecord::new(info) }
    }
}

impl Task for ScanSongs {
    open spec fn spec_info(&self) -> TaskInfo {
        self.record.info
    }

    open spec fn spec_status(&self) -> TaskStatus {
        self.record.status
    }

    fn info(&self) -> (r: &TaskInfo) {
        &self.record.info
    }

    fn start(&mut self) -> (r: Result<(), TaskError>) {
        self.record.start()
    }

    fn stop(&mut self) -> (r: Result<(), TaskError>) {
        self.record.stop()
    }

    fn status(&self) -> (r: TaskStatus) {
        self.record.status
    }

    fn end_run(&mut self, end: RunEnd) {
        self.record.end_run(end)
    }
}

/// The kind, message and counts of the task event a scan notice gives, if
/// any: the counts of the first three steps as information (no changed song
/// as progress of the second step), every fiftieth comparison and every
/// hundredth applied change as progress, and the saving of the changes.
pub open spec fn scan_task_text(n: ScanNotice) -> Option<(TaskEventType, Seq<char>, Option<u64>, Option<u64>, Option<u8>)> {
    match n {
        ScanNotice::Found { step, count } => if step == 1 {
            Some((TaskEventType::Info, "Found "@ + decimal_spec(count as nat)
                + " existing song(s) that no longer exist... scanning for new songs"@, None, None, None))
        } else if step == 2 {
            Some((TaskEventType::Info, "Found "@ + decimal_spec(count as nat) + " new song(s)..."@, None, None, None))
        } else if step == 3 && count > 0 {
            Some((TaskEventType::Info, "Found "@ + decimal_spec(count as nat) + " updated song(s)"@, None, None, None))
        } else if step == 3 {
            Some((TaskEventType::Progress, "No updated song(s) found..."@, Some(1u64), Some(1u64), Some(2u8)))
        } else {
            None
        },
        ScanNotice::Comparing { current, total } => if current % 50 == 0 && total > 0 {
            Some((TaskEventType::Progress, "Comparing metadata "@ + decimal_spec(percent(current, total)) + "%"@,
                Some(current), Some(total), Some(2u8)))
        } else {
            None
        },
        ScanNotice::Applied { current, total } => if current % 100 == 0 && total > 0 {
            Some((TaskEventType::Progress, "Applying changes... "@ + decimal_spec(percent(current, total)) + "%"@,
                Some(current), Some(total), Some(3u8)))
        } else {
            None
        },
        ScanNotice::Unreadable(_) => None,
        ScanNotice::Saved => Some((TaskEventType::Info, "Finished applying changes, saving changes..."@, None, None, None)),
    }
}

/// The task event a scan notice gives, if any.
pub fn scan_task_event(n: &ScanNotice) -> (r: Option<TaskEvent>)
    ensures
        match scan_task_text(*n) {
            Some((kind, message, current, total, step)) => r matches Some(e) && e.kind == kind
                && e.message@ == message && e.current == current && e.total == total && e.step == step,
            None => r is None,
        },
{
    match n {
        ScanNotice::Found { step, count } => {
            let c = decimal_u128(*count as u128);
            if *step == 1 {
                let m = str_concat("Found ", c.as_str()).concat(" existing song(s) that no longer exist... scanning for new songs");
                Some(TaskEvent::info(m.as_str()))
            } else if *step == 2 {
                let m = str_concat("Found ", c.as_str()).concat(" new song(s)...");
                Some(TaskEvent::info(m.as_str()))
            } else if *step == 3 && *count > 0 {
                let m = str_concat("Found ", c.as_str()).concat(" updated song(s)");
                Some(TaskEvent::info(m.as_str()))
            } else if *step == 3 {
                Some(TaskEvent::progress("No updated song(s) found...", 1, 1, Some(2)))
            } else {
                None
            }
        },
        ScanNotice::Comparing { current, total } => {
            if *current % 50 == 0 && *total > 0 {
                let m = str_concat("Comparing metadata ", percent_text(*current, *total).as_str()).concat("%");
                Some(TaskEvent::progress(m.as_str(), *current, *total, Some(2)))
            } else {
                None
            }
        },
        ScanNotice::Applied { current, total } => {
            if *current % 100 == 0 && *total > 0 {
                let m = str_concat("Applying changes... ", percent_text(*current, *total).as_str()).concat("%");
                Some(TaskEvent::progress(m.as_str(), *current, *total, Some(3)))
            } else {
                None
            }
        },
        ScanNotice::Unreadable(_) => None,
        ScanNotice::Saved => Some(TaskEvent::info("Finished applying changes, saving changes...")),
    }
}

/// How a run of the scan task ended.
#[derive(Debug, Clone, PartialEq, Eq)]
pub enum ScanTaskEnd {
    /// No song directory is known.
    NoDirectories,
    /// The task was asked to stop.
    Cancelled,
    /// Nothing was to be added, updated or deleted.
    NothingChanged,
    /// The changes are applied and saved.
    Completed,
    /// The scan failed for this reason.
    Failed(String),
}

/// How a scan ended, from the request whose answer ended it, whether that
/// answer said that the task was asked to stop, and the scan's result.
pub open spec fn scan_task_end_spec(before: ScanRequest, stopped: bool, result: Result<(), String>) -> ScanTaskEnd {
    match result {
        Err(m) => ScanTaskEnd::Failed(m),
        Ok(()) => match before {
            ScanRequest::Directories => ScanTaskEnd::NoDirectories,
            ScanRequest::Cancelled => if stopped { ScanTaskEnd::Cancelled } else { ScanTaskEnd::NothingChanged },
            ScanRequest::Report(ScanNotice::Saved) => ScanTaskEnd::Completed,
            _ => ScanTaskEnd::NothingChanged,
        },
    }
}

/// How a scan ended: `before` is the request whose answer ended it,
/// `stopped` whether that answer said that the task was asked to stop.
pub fn scan_task_end(before: &ScanRequest, stopped: bool, result: &Result<(), String>) -> (r: ScanTaskEnd)
    ensures
        r == scan_task_end_spec(*before, stopped, *result),
{
    match result {
        Err(m) => ScanTaskEnd::Failed(m.clone()),
        Ok(()) => match before {
            ScanRequest::Directories => ScanTaskEnd::NoDirectories,
            ScanRequest::Cancelled => if stopped { ScanTaskEnd::Cancelled } else { ScanTaskEnd::NothingChanged },
            ScanRequest::Report(ScanNotice::Saved) => ScanTaskEnd::Completed,
            _ => ScanTaskEnd::NothingChanged,
        },
    }
}

impl ScanTaskEnd {
    /// How the task's run ends: a completed scan stamps its completion, a
    /// stopped or fruitless one its cancellation; one without directories
    /// or one that failed leaves only the status idle.
    pub fn run_end(&self) -> (r: RunEnd)
        ensures
            r == match *self {
                ScanTaskEnd::Completed => RunEnd::Completed,
                ScanTaskEnd::Cancelled | ScanTaskEnd::NothingChanged => RunEnd::Cancelled,
                _ => RunEnd::Stopped,
            },
    {
        match self {
            ScanTaskEnd::Completed => RunEnd::Completed,
            ScanTaskEnd::Cancelled | ScanTaskEnd::NothingChanged => RunEnd::Cancelled,
            _ => RunEnd::Stopped,
        }
    }

    /// The last event of the run.
    pub fn event(&self) -> (e: TaskEvent)
        ensures
            (e.kind, e.message@) == match *self {
                ScanTaskEnd::NoDirectories => (TaskEventType::Warning, "No directories found, cancelling scan"@),
                ScanTaskEnd::Cancelled => (TaskEventType::Stop, "Scan cancelled"@),
                ScanTaskEnd::NothingChanged => (TaskEventType::Stop, "No changes found, stopping task..."@),
                ScanTaskEnd::Completed => (TaskEventType::Complete, "Song scan complete"@),
                ScanTaskEnd::Failed(m) => (TaskEventType::Error, "Song scan failed: "@ + m@),
            },
            e.current is None && e.total is None && e.step is None,
    {
        match self {
            ScanTaskEnd::NoDirectories => TaskEvent::warning("No directories found, cancelling scan"),
            ScanTaskEnd::Cancelled => TaskEvent::stop("Scan cancelled"),
            ScanTaskEnd::NothingChanged => TaskEvent::stop("No changes found, stopping task..."),
            ScanTaskEnd::Completed => TaskEvent::complete("Song scan complete"),
            ScanTaskEnd::Failed(m) => TaskEvent::error(str_concat("Song scan failed: ", m.as_str()).as_str()),
        }
    }
}

/// The tasks of the server, as the registry holds them.
#[derive(Debug)]
pub enum LibraryTask {
    Scan(ScanSongs),
    Update(UpdateSongs),
}

impl LibraryTask {
    /// The record of the task.
    pub open spec fn record(&self) -> TaskRecord {
        match self {
            LibraryTask::Scan(t) => t.record,
            LibraryTask::Update(t) => t.record,
        }
    }
}

impl Task for LibraryTask {
    open spec fn spec_info(&self) -> TaskInfo {
        self.record().info
    }

    open spec fn spec_status(&self) -> TaskStatus {
        self.record().status
    }

    fn info(&self) -> (r: &TaskInfo) {
        match self {
            LibraryTask::Scan(t) => t.info(),
            LibraryTask::Update(t) => t.info(),
        }
    }

    fn start(&mut self) -> (r: Result<(), TaskError>) {
        match self {
            LibraryTask::Scan(t) => t.start(),
            LibraryTask::Update(t) => t.start(),
        }
    }

    fn stop(&mut self) -> (r: Result<(), TaskError>) {
        match self {
            LibraryTask::Scan(t) => t.stop(),
            LibraryTask::Update(t) => t.stop(),
        }
    }

    fn status(&self) -> (r: TaskStatus) {
        match self {
            LibraryTask::Scan(t) => t.status(),
            LibraryTask::Update(t) => t.status(),
        }
    }

    fn end_run(&mut self, end: RunEnd) {
        match self {
            LibraryTask::Scan(t) => t.end_run(end),
            LibraryTask::Update(t) => t.end_run(end),
        }
    }
}

/// The registry of the server: the scan and the update task, both idle.
pub fn library_tasks() -> (r: Registry<LibraryTask>)
    ensures
        r.wf(),
        r.names_unique(),
        r.task("scan-songs"@) matches Some(t) && t is Scan && t.spec_status() == TaskStatus::Idle,
        r.task("update-songs"@) matches Some(t) && t is Update && t.spec_status() == TaskStatus::Idle,
        forall|q: Seq<char>| q != "scan-songs"@ && q != "update-songs"@ ==> #[trigger] r.task(q) is None,
{
    let mut r: Registry<LibraryTask> = Registry::new();
    let scan = ScanSongs::new();
    let update = UpdateSongs::new();
    proof {
        reveal_strlit("scan-songs");
        reveal_strlit("update-songs");
        reveal_strlit("Scan Songs");
        reveal_strlit("Update Songs");
        assert("scan-songs"@ != "update-songs"@) by {
            assert("scan-songs"@[0] != "update-songs"@[0]);
        }
        assert("Scan Songs"@ != "Update Songs"@) by {
            assert("Scan Songs"@[0] != "Update Songs"@[0]);
        }
        assert(!r.has_name("Scan Songs"@));
        assert(r.names_unique());
    }
    let _ = r.register(LibraryTask::Scan(scan));
    proof {
        assert(!r.has_name("Update Songs"@)) by {
            if r.has_name("Update Songs"@) {
                let id = choose|id: Seq<char>| #[trigger] r.task(id) is Some && r.task(id)->0.spec_info().name@ == "Update Songs"@;
                if id != "scan-songs"@ {
                    assert(r.task(id) is None);
                }
            }
        }
    }
    let _ = r.register(LibraryTask::Update(update));
    r
}

} // verus!
