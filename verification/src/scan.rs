//! Decisions of the song scan: which files are songs to add, what the
//! scan reports, and the changes it applies.

use vstd::prelude::*;
use std::collections::BTreeMap;
use crate::jobs::{JobEvent, JobInfo};
use crate::db::{new_song_of, song_changed_spec, song_metadata_changed, updated_song_of, NewSong, Song, UpdatedSong};
use crate::metadata::Metadata;
use crate::paths::{path_eq, path_extension, spec_path_eq, spec_path_extension};
use crate::strmap::str_eq;
use crate::task::{TaskEvent, TaskEventType};
use crate::text::{str_concat, decimal, decimal_spec, spec_to_lowercase, str_to_lowercase};

verus! {

/// The file extensions of songs.
pub open spec fn is_song_extension_spec(e: Seq<char>) -> bool {
    ||| e == "mp3"@
    ||| e == "m4a"@
    ||| e == "flac"@
    ||| e == "wav"@
    ||| e == "ogg"@
    ||| e == "wma"@
    ||| e == "aac"@
    ||| e == "opus"@
}

/// Whether a file extension, in any case, is that of a song.
pub fn is_song_file_extension(ext: &str) -> (b: bool)
    ensures
        b == is_song_extension_spec(spec_to_lowercase(ext@)),
{
    let lower = str_to_lowercase(ext);
    let e = lower.as_str();
    str_eq(e, "mp3") || str_eq(e, "m4a") || str_eq(e, "flac") || str_eq(e, "wav")
        || str_eq(e, "ogg") || str_eq(e, "wma") || str_eq(e, "aac") || str_eq(e, "opus")
}

/// A file found while walking the directories is a new song when it is a
/// regular file, no stored song has its path and its extension is that of
/// a song.
pub open spec fn is_new_song_spec(path: Seq<char>, is_file: bool, existing: Seq<String>) -> bool {
    &&& is_file
    &&& !(exists|i: int| 0 <= i < existing.len() && spec_path_eq(#[trigger] existing[i]@, path))
    &&& spec_path_extension(path) matches Some(e) && is_song_extension_spec(spec_to_lowercase(e))
}

/// Whether a file found while walking the directories is a new song.
pub fn is_new_song_file(path: &str, is_file: bool, existing: &Vec<String>) -> (b: bool)
    ensures
        b == is_new_song_spec(path@, is_file, existing@),
{
    if !is_file {
        return false;
    }
    let mut i: usize = 0;
    while i < existing.len()
        invariant
            i <= existing@.len(),
            forall|j: int| 0 <= j < i ==> !spec_path_eq(#[trigger] existing@[j]@, path@),
        decreases existing.len() - i,
    {
        if path_eq(existing[i].as_str(), path) {
            assert(spec_path_eq(existing@[i as int]@, path@));
            return false;
        }
        i = i + 1;
    }
    match path_extension(path) {
        Some(e) => is_song_file_extension(e.as_str()),
        None => false,
    }
}

/// The song scan job, reading and writing through `db`.
#[derive(Debug)]
pub struct ScanSongs<D> {
    pub db: D,
}

impl<D> ScanSongs<D> {
    /// A scan working on `db`.
    pub fn new(db: D) -> (s: Self)
        ensures
            s.db == db,
    {
        ScanSongs { db }
    }

    /// What the scan is, with its four steps.
    pub fn job_info() -> (i: JobInfo)
        ensures
            i.name@ == "Scan Songs"@,
            i.description@ == "Scans for new songs, updates existing ones, and deletes songs that no longer exist"@,
            i.steps@.dom() == set![1u8, 2u8, 3u8, 4u8],
            i.steps@[1]@ == "Scanning for songs to delete"@,
            i.steps@[2]@ == "Scanning for new songs"@,
            i.steps@[3]@ == "Scanning for updated songs"@,
            i.steps@[4]@ == "Applying and saving changes"@,
    {
        let mut steps: BTreeMap<u8, String> = BTreeMap::new();
        steps.insert(1, String::from_str("Scanning for songs to delete"));
        steps.insert(2, String::from_str("Scanning for new songs"));
        steps.insert(3, String::from_str("Scanning for updated songs"));
        steps.insert(4, String::from_str("Applying and saving changes"));
        assert(steps@.dom() =~= set![1u8, 2u8, 3u8, 4u8]);
        JobInfo::new(
            String::from_str("Scan Songs"),
            String::from_str("Scans for new songs, updates existing ones, and deletes songs that no longer exist"),
            steps,
        )
    }
}

/// The event of a completed scan step that found `count` items.
pub fn step_found(step: u8, count: usize) -> (e: JobEvent)
    ensures
        e matches JobEvent::StepCompleted { step: s, value: Some(v) } && s == step && v@ == decimal_spec(count as nat),
{
    JobEvent::StepCompleted { step, value: Some(decimal(count as u64)) }
}

/// Counts one more applied change; every hundredth change is reported as
/// progress of the third step, with the share done in percent.
pub fn update_change_progress(index: &mut u64, total: u64) -> (r: Option<TaskEvent>)
    requires
        *old(index) < u64::MAX,
        (*old(index) + 1) * 100 <= u64::MAX,
        total > 0,
    ensures
        *final(index) == *old(index) + 1,
        (*final(index)) % 100 == 0 <==> r is Some,
        r matches Some(e) ==> {
            &&& e.kind == TaskEventType::Progress
            &&& e.message@ == "Applying changes... "@ + decimal_spec(((*final(index)) * 100 / (total as int)) as nat) + "%"@
            &&& e.current == Some(*final(index))
            &&& e.total == Some(total)
            &&& e.step == Some(3u8)
        },
{
    *index = *index + 1;
    let current = *index;
    if current % 100 == 0 {
        let message = str_concat("Applying changes... ", decimal(current * 100 / total).as_str()).concat("%");
        Some(TaskEvent::progress(message.as_str(), current, total, Some(3)))
    } else {
        None
    }
}

/// What a scan reports. Reports the scan asks for with
/// `ScanRequest::Report` must reach the job manager; the others go out as
/// they can.
#[derive(Debug, Clone, PartialEq, Eq)]
pub enum ScanNotice {
    /// Step `step` found `count` items: songs whose file is gone (1), new
    /// song files (2) or songs whose tags changed (3).
    Found { step: u8, count: usize },
    /// Stored song number `current` (from 0, among those still on disk) is
    /// compared with its file; `total` songs are stored.
    Comparing { current: u64, total: u64 },
    /// `current` of the `total` changes are applied.
    Applied { current: u64, total: u64 },
    /// The tags of a stored song could not be read, for this reason.
    Unreadable(String),
    /// The changes are saved.
    Saved,
}

impl ScanNotice {
    /// The job event that carries the report.
    pub fn event(&self) -> (e: JobEvent)
        ensures
            match *self {
                ScanNotice::Found { step, count } => e matches JobEvent::StepCompleted { step: s, value: Some(v) }
                    && s == step && v@ == decimal_spec(count as nat),
                ScanNotice::Comparing { current, total } => e == (JobEvent::Progress { current, total, step: 3 }),
                ScanNotice::Applied { current, total } => e == (JobEvent::Progress { current, total, step: 4 }),
                ScanNotice::Unreadable(m) => e matches JobEvent::Warning { message }
                    && message@ == "Failed to read metadata for song: "@ + m@,
                ScanNotice::Saved => e == (JobEvent::StepCompleted { step: 4, value: None }),
            },
    {
        match self {
            ScanNotice::Found { step, count } => step_found(*step, *count),
            ScanNotice::Comparing { current, total } => JobEvent::Progress { current: *current, total: *total, step: 3 },
            ScanNotice::Applied { current, total } => JobEvent::Progress { current: *current, total: *total, step: 4 },
            ScanNotice::Unreadable(m) => JobEvent::Warning {
                message: str_concat("Failed to read metadata for song: ", m.as_str()),
            },
            ScanNotice::Saved => JobEvent::StepCompleted { step: 4, value: None },
        }
    }
}

/// What a scan asks of the database, the disk and the job manager.
#[derive(Debug)]
pub enum ScanRequest {
    /// The paths of the song directories; answer `Directories` (none when
    /// they cannot be read).
    Directories,
    /// The stored songs; answer `Songs` (none when they cannot be read).
    Songs,
    /// Whether a path exists; answer `Flag`.
    Exists(String),
    /// Walk the song directories (those of the answer to `Directories`),
    /// honouring the ignore files; answer `Entries`, with whether each entry
    /// is a file.
    Walk,
    /// Whether the job was cancelled; answer `Flag`.
    Cancelled,
    /// Read the tags and the creation time of a file; answer `Tags`.
    ReadTags(String),
    /// Send a report that must reach the job manager; answer `Sent`.
    Report(ScanNotice),
    /// Begin the transaction the changes are made in; answer `Done`.
    Begin,
    /// Add a song; answer `Done` (a failure is only logged).
    Add(NewSong),
    /// Update the tags of the stored song with this id; answer `Done` (a
    /// failure is only logged).
    Update(String, UpdatedSong),
    /// Delete the stored song with this id; answer `Done` (a failure is
    /// only logged).
    Delete(String),
    /// Commit the changes; answer `Done` (a failure is only logged).
    Commit,
    /// The scan is over with this result.
    Finish(Result<(), String>),
}

/// The answer to a scan request.
#[derive(Debug)]
pub enum ScanReply {
    Directories(Vec<String>),
    Songs(Vec<Song>),
    Flag(bool),
    /// Paths found by the walk, each with whether it is a file.
    Entries(Vec<(String, bool)>),
    /// The tags of a file, or why they could not be read; and its creation
    /// time: `Err` when the file itself could not be examined, `None` when
    /// its creation time is not known.
    Tags(Result<Metadata, String>, Result<Option<i128>, String>),
    /// Whether the report went through, or why not.
    Sent(Result<(), String>),
    Done(Result<(), String>),
}

/// The three kinds of change a scan applies, in the order it applies them.
#[derive(Debug, Clone, Copy, PartialEq, Eq, Structural)]
pub enum ChangeKind {
    Add,
    Update,
    Delete,
}

/// Where a scan stands.
#[derive(Debug)]
pub enum ScanPhase {
    /// Waiting for the directories.
    Directories,
    /// Waiting for the stored songs.
    Songs,
    /// Waiting to learn whether the file of the current song exists.
    Exists,
    /// Reporting how many songs are gone.
    ReportGone,
    /// Waiting for the walk.
    Walk,
    /// Reporting how many new files were found.
    ReportNew,
    /// Waiting to learn whether the job was cancelled after the walk.
    WalkCancelled,
    /// Waiting for the tags of the current stored song.
    Compare,
    /// Reporting how many songs changed.
    ReportChanged,
    /// Waiting for the transaction to begin.
    Begin,
    /// Waiting to learn whether the job was cancelled, before the current
    /// change of this kind (or after the last one).
    Check(ChangeKind),
    /// Waiting for the tags of the current new file.
    ReadNew,
    /// Waiting for this song to be added.
    Add(NewSong),
    /// Waiting for the current changed song to be updated with these values.
    Update(UpdatedSong),
    /// Waiting for the current gone song to be deleted.
    Delete,
    /// Reporting the progress after a change of this kind.
    ReportApplied(ChangeKind),
    /// Waiting for the commit.
    Commit,
    /// Reporting that the changes are saved.
    ReportSaved,
    /// Over, with this result.
    Finished(Result<(), String>),
}

/// A scan as values: its phase; the stored songs and, for each, whether
/// its file is gone; the ids of the gone songs; the new song files; the
/// changed songs with their new tags; the index of the current item; how
/// many songs were compared and how many changes applied.
pub struct ScanState {
    pub phase: ScanPhase,
    pub songs: Seq<Song>,
    pub gone: Seq<bool>,
    pub deleted: Seq<String>,
    pub new_paths: Seq<String>,
    pub updated: Seq<(String, Option<Metadata>)>,
    pub index: int,
    pub compared: int,
    pub applied: int,
}

/// The paths of the stored songs.
pub open spec fn song_paths(songs: Seq<Song>) -> Seq<String> {
    songs.map_values(|s: Song| s.path)
}

/// The new song files among the entries of a walk, in walk order.
pub open spec fn new_song_paths(entries: Seq<(String, bool)>, existing: Seq<String>) -> Seq<String>
    decreases entries.len(),
{
    if entries.len() == 0 {
        Seq::empty()
    } else {
        let rest = new_song_paths(entries.drop_last(), existing);
        let e = entries.last();
        if is_new_song_spec(e.0@, e.1, existing) { rest.push(e.0) } else { rest }
    }
}

/// The number of changes a scan applies.
pub open spec fn change_total(s: ScanState) -> int {
    (s.new_paths.len() + s.updated.len() + s.deleted.len()) as int
}

/// The first stored song from `i` on whose file is not gone (the number of
/// songs when there is none).
pub open spec fn next_kept(gone: Seq<bool>, i: int) -> int
    decreases gone.len() - i,
{
    if i >= gone.len() || i < 0 {
        if i < 0 { 0 } else { i }
    } else if !gone[i] {
        i
    } else {
        next_kept(gone, i + 1)
    }
}

/// The tags in a reply, as an option.
pub open spec fn read_tags(m: Result<Metadata, String>) -> Option<Metadata> {
    match m {
        Ok(t) => Some(t),
        Err(_) => None,
    }
}

/// The request a scan waits on the answer of.
pub open spec fn scan_pending(s: ScanState) -> ScanRequest {
    match s.phase {
        ScanPhase::Directories => ScanRequest::Directories,
        ScanPhase::Songs => ScanRequest::Songs,
        ScanPhase::Exists => ScanRequest::Exists(s.songs[s.index].path),
        ScanPhase::ReportGone => ScanRequest::Report(ScanNotice::Found { step: 1, count: s.deleted.len() as usize }),
        ScanPhase::Walk => ScanRequest::Walk,
        ScanPhase::ReportNew => ScanRequest::Report(ScanNotice::Found { step: 2, count: s.new_paths.len() as usize }),
        ScanPhase::WalkCancelled => ScanRequest::Cancelled,
        ScanPhase::Compare => ScanRequest::ReadTags(s.songs[s.index].path),
        ScanPhase::ReportChanged => ScanRequest::Report(ScanNotice::Found { step: 3, count: s.updated.len() as usize }),
        ScanPhase::Begin => ScanRequest::Begin,
        ScanPhase::Check(_) => ScanRequest::Cancelled,
        ScanPhase::ReadNew => ScanRequest::ReadTags(s.new_paths[s.index]),
        ScanPhase::Add(n) => ScanRequest::Add(n),
        ScanPhase::Update(u) => ScanRequest::Update(s.updated[s.index].0, u),
        ScanPhase::Delete => ScanRequest::Delete(s.deleted[s.index]),
        ScanPhase::ReportApplied(_) => ScanRequest::Report(ScanNotice::Applied {
            current: s.applied as u64,
            total: change_total(s) as u64,
        }),
        ScanPhase::Commit => ScanRequest::Commit,
        ScanPhase::ReportSaved => ScanRequest::Report(ScanNotice::Saved),
        ScanPhase::Finished(r) => ScanRequest::Finish(r),
    }
}

/// Whether `reply` answers the request a scan in `phase` waits on.
pub open spec fn scan_answers(phase: ScanPhase, reply: ScanReply) -> bool {
    match phase {
        ScanPhase::Directories => reply is Directories,
        ScanPhase::Songs => reply is Songs,
        ScanPhase::Exists | ScanPhase::WalkCancelled | ScanPhase::Check(_) => reply is Flag,
        ScanPhase::Walk => reply is Entries,
        ScanPhase::Compare | ScanPhase::ReadNew => reply is Tags,
        ScanPhase::ReportGone | ScanPhase::ReportNew | ScanPhase::ReportChanged | ScanPhase::ReportApplied(_)
        | ScanPhase::ReportSaved => reply is Sent,
        ScanPhase::Begin | ScanPhase::Add(_) | ScanPhase::Update(_) | ScanPhase::Delete | ScanPhase::Commit =>
            reply is Done,
        ScanPhase::Finished(_) => false,
    }
}

/// The scan goes on with the first stored song from `i` on whose file is
/// still there, reporting that it compares it; past the last one, it ends
/// when nothing changed and reports what changed otherwise.
pub open spec fn compare_from(s: ScanState, i: int, new: ScanState, notices: Seq<ScanNotice>) -> bool {
    let j = next_kept(s.gone, i);
    if j < s.songs.len() {
        &&& new == ScanState { phase: ScanPhase::Compare, index: j, ..s }
        &&& notices == seq![ScanNotice::Comparing { current: s.compared as u64, total: s.songs.len() as u64 }]
    } else if change_total(s) == 0 {
        &&& new == ScanState { phase: ScanPhase::Finished(Ok(())), index: j, ..s }
        &&& notices.len() == 0
    } else {
        &&& new == ScanState { phase: ScanPhase::ReportChanged, index: j, ..s }
        &&& notices.len() == 0
    }
}

/// A report that went through moves the scan to `phase`; one that did not
/// ends it with the reason.
pub open spec fn after_report(s: ScanState, reply: ScanReply, new: ScanState, notices: Seq<ScanNotice>, phase: ScanPhase) -> bool {
    &&& notices.len() == 0
    &&& match reply {
        ScanReply::Sent(Ok(())) => new == ScanState { phase, ..s },
        ScanReply::Sent(Err(m)) => new == ScanState { phase: ScanPhase::Finished(Err(m)), ..s },
        _ => false,
    }
}

/// After a check that found the job not cancelled: the next change of the
/// kind, or the first check of the next kind, or, after the deletions, the
/// commit.
pub open spec fn checked(s: ScanState, kind: ChangeKind, new: ScanState) -> bool {
    match kind {
        ChangeKind::Add => if s.index < s.new_paths.len() {
            new == ScanState { phase: ScanPhase::ReadNew, ..s }
        } else {
            new == ScanState { phase: ScanPhase::Check(ChangeKind::Update), index: 0, ..s }
        },
        ChangeKind::Update => if s.index < s.updated.len() {
            &&& new.phase matches ScanPhase::Update(u) && updated_song_of(u, s.updated[s.index].1)
            &&& new == ScanState { phase: new.phase, ..s }
        } else {
            new == ScanState { phase: ScanPhase::Check(ChangeKind::Delete), index: 0, ..s }
        },
        ChangeKind::Delete => if s.index < s.deleted.len() {
            new == ScanState { phase: ScanPhase::Delete, ..s }
        } else {
            new == ScanState { phase: ScanPhase::Commit, ..s }
        },
    }
}

/// One step of a scan: from `old` and the answer `reply` to `new`, with the
/// reports that go out as they can. A reply that does not answer the
/// pending request changes nothing.
pub open spec fn scan_next(old: ScanState, reply: ScanReply, new: ScanState, notices: Seq<ScanNotice>) -> bool {
    if !scan_answers(old.phase, reply) {
        new == old && notices.len() == 0
    } else {
        match old.phase {
            ScanPhase::Directories => match reply {
                ScanReply::Directories(d) => notices.len() == 0 && new == ScanState {
                    phase: if d@.len() == 0 { ScanPhase::Finished(Ok(())) } else { ScanPhase::Songs },
                    ..old
                },
                _ => false,
            },
            ScanPhase::Songs => match reply {
                ScanReply::Songs(v) => notices.len() == 0 && new == ScanState {
                    phase: if v@.len() > 0 { ScanPhase::Exists } else { ScanPhase::ReportGone },
                    songs: v@,
                    gone: Seq::empty(),
                    deleted: Seq::empty(),
                    index: 0,
                    ..old
                },
                _ => false,
            },
            ScanPhase::Exists => match reply {
                ScanReply::Flag(there) => notices.len() == 0 && new == ScanState {
                    phase: if old.index + 1 < old.songs.len() { ScanPhase::Exists } else { ScanPhase::ReportGone },
                    gone: old.gone.push(!there),
                    deleted: if there { old.deleted } else { old.deleted.push(old.songs[old.index].id) },
                    index: old.index + 1,
                    ..old
                },
                _ => false,
            },
            ScanPhase::ReportGone => after_report(old, reply, new, notices, ScanPhase::Walk),
            ScanPhase::Walk => match reply {
                ScanReply::Entries(v) => notices.len() == 0 && new == ScanState {
                    phase: ScanPhase::ReportNew,
                    new_paths: new_song_paths(v@, song_paths(old.songs)),
                    ..old
                },
                _ => false,
            },
            ScanPhase::ReportNew => after_report(old, reply, new, notices, ScanPhase::WalkCancelled),
            ScanPhase::WalkCancelled => match reply {
                ScanReply::Flag(true) => notices.len() == 0 && new == ScanState { phase: ScanPhase::Finished(Ok(())), ..old },
                ScanReply::Flag(false) => compare_from(ScanState { compared: 0, ..old }, 0, new, notices),
                _ => false,
            },
            ScanPhase::Compare => match reply {
                ScanReply::Tags(m, c) => {
                    let song = old.songs[old.index];
                    let tags = read_tags(m);
                    let created = match c { Ok(t) => t, Err(_) => None };
                    let counted = ScanState {
                        updated: if song_changed_spec(song, tags, created) {
                            old.updated.push((song.id, tags))
                        } else {
                            old.updated
                        },
                        compared: old.compared + 1,
                        ..old
                    };
                    match m {
                        Ok(_) => compare_from(counted, old.index + 1, new, notices),
                        Err(why) => notices.len() > 0 && notices[0] == ScanNotice::Unreadable(why)
                            && compare_from(counted, old.index + 1, new, notices.drop_first()),
                    }
                },
                _ => false,
            },
            ScanPhase::ReportChanged => after_report(old, reply, new, notices, ScanPhase::Begin),
            ScanPhase::Begin => notices.len() == 0 && match reply {
                ScanReply::Done(Ok(())) => new == ScanState { phase: ScanPhase::Check(ChangeKind::Add), index: 0, applied: 0, ..old },
                ScanReply::Done(Err(m)) => new == ScanState { phase: ScanPhase::Finished(Err(m)), ..old },
                _ => false,
            },
            ScanPhase::Check(kind) => notices.len() == 0 && match reply {
                ScanReply::Flag(true) => new == ScanState { phase: ScanPhase::Finished(Ok(())), ..old },
                ScanReply::Flag(false) => checked(old, kind, new),
                _ => false,
            },
            ScanPhase::ReadNew => notices.len() == 0 && match reply {
                ScanReply::Tags(m, Ok(created)) => {
                    &&& new.phase matches ScanPhase::Add(n) && new_song_of(n, old.new_paths[old.index]@, read_tags(m), created)
                    &&& new == ScanState { phase: new.phase, ..old }
                },
                ScanReply::Tags(_, Err(why)) => new == ScanState { phase: ScanPhase::Finished(Err(why)), ..old },
                _ => false,
            },
            ScanPhase::Add(_) => notices.len() == 0
                && new == ScanState { phase: ScanPhase::ReportApplied(ChangeKind::Add), applied: old.applied + 1, ..old },
            ScanPhase::Update(_) => notices.len() == 0
                && new == ScanState { phase: ScanPhase::ReportApplied(ChangeKind::Update), applied: old.applied + 1, ..old },
            ScanPhase::Delete => notices.len() == 0
                && new == ScanState { phase: ScanPhase::ReportApplied(ChangeKind::Delete), applied: old.applied + 1, ..old },
            ScanPhase::ReportApplied(kind) => notices.len() == 0 && match reply {
                ScanReply::Sent(Ok(())) => new == ScanState { phase: ScanPhase::Check(kind), index: old.index + 1, ..old },
                ScanReply::Sent(Err(m)) => new == ScanState { phase: ScanPhase::Finished(Err(m)), ..old },
                _ => false,
            },
            ScanPhase::Commit => notices.len() == 0 && new == ScanState { phase: ScanPhase::ReportSaved, ..old },
            ScanPhase::ReportSaved => after_report(old, reply, new, notices, ScanPhase::Finished(Ok(()))),
            ScanPhase::Finished(_) => false,
        }
    }
}

/// The changes of a kind applied before those of `kind`.
pub open spec fn done_before(s: ScanState, kind: ChangeKind) -> int {
    match kind {
        ChangeKind::Add => 0,
        ChangeKind::Update => s.new_paths.len() as int,
        ChangeKind::Delete => (s.new_paths.len() + s.updated.len()) as int,
    }
}

/// The number of changes of `kind`.
pub open spec fn kind_len(s: ScanState, kind: ChangeKind) -> int {
    match kind {
        ChangeKind::Add => s.new_paths.len() as int,
        ChangeKind::Update => s.updated.len() as int,
        ChangeKind::Delete => s.deleted.len() as int,
    }
}

/// Whether the counts a reply brings still fit the `u64` counters of the
/// scan: twice the stored songs, and then the new files on top.
pub open spec fn scan_fits(s: ScanState, reply: ScanReply) -> bool {
    &&& (s.phase is Songs && reply is Songs) ==> 2 * reply->Songs_0@.len() <= u64::MAX
    &&& (s.phase is Walk && reply is Entries) ==> reply->Entries_0@.len() + 2 * s.songs.len() <= u64::MAX
}

/// A scan that has not begun.
pub open spec fn scan_start() -> ScanState {
    ScanState {
        phase: ScanPhase::Directories,
        songs: Seq::empty(),
        gone: Seq::empty(),
        deleted: Seq::empty(),
        new_paths: Seq::empty(),
        updated: Seq::empty(),
        index: 0,
        compared: 0,
        applied: 0,
    }
}

/// Reports to send as they can, then the next request.
#[derive(Debug)]
pub struct ScanStep {
    pub notices: Vec<ScanNotice>,
    pub request: ScanRequest,
}

/// A running scan.
#[derive(Debug)]
pub struct ScanRun {
    phase: ScanPhase,
    songs: Vec<Song>,
    existing: Vec<String>,
    gone: Vec<bool>,
    deleted: Vec<String>,
    new_paths: Vec<String>,
    updated: Vec<(String, Option<Metadata>)>,
    index: usize,
    compared: u64,
    applied: u64,
}

impl View for ScanRun {
    type V = ScanState;

    closed spec fn view(&self) -> ScanState {
        ScanState {
            phase: self.phase,
            songs: self.songs@,
            gone: self.gone@,
            deleted: self.deleted@,
            new_paths: self.new_paths@,
            updated: self.updated@,
            index: self.index as int,
            compared: self.compared as int,
            applied: self.applied as int,
        }
    }
}

/// Whether the tags of every changed song are well formed.
pub open spec fn updated_wf(u: Seq<(String, Option<Metadata>)>) -> bool {
    forall|k: int| 0 <= k < u.len() ==> ((#[trigger] u[k]).1 matches Some(m) ==> m.wf())
}

/// The bounds a scan keeps in each phase.
pub open spec fn scan_inv(s: ScanState) -> bool {
    &&& s.new_paths.len() + 2 * s.songs.len() <= u64::MAX
    &&& s.deleted.len() <= s.gone.len() <= s.songs.len()
    &&& s.updated.len() <= s.songs.len()
    &&& updated_wf(s.updated)
    &&& 0 <= s.compared <= s.songs.len()
    &&& 0 <= s.index
    &&& 0 <= s.applied <= change_total(s)
    &&& match s.phase {
        ScanPhase::Directories | ScanPhase::Songs =>
            s.songs.len() == 0 && s.gone.len() == 0 && s.new_paths.len() == 0 && s.updated.len() == 0,
        ScanPhase::Exists => s.index == s.gone.len() < s.songs.len() && s.new_paths.len() == 0 && s.updated.len() == 0,
        ScanPhase::ReportGone | ScanPhase::Walk =>
            s.gone.len() == s.songs.len() && s.new_paths.len() == 0 && s.updated.len() == 0,
        ScanPhase::ReportNew | ScanPhase::WalkCancelled => s.gone.len() == s.songs.len() && s.updated.len() == 0,
        ScanPhase::Compare => s.gone.len() == s.songs.len() && s.index < s.songs.len() && !s.gone[s.index]
            && s.updated.len() <= s.index && s.compared <= s.index,
        ScanPhase::Check(kind) => s.gone.len() == s.songs.len() && s.index <= kind_len(s, kind)
            && s.applied == done_before(s, kind) + s.index,
        ScanPhase::ReadNew | ScanPhase::Add(_) => s.gone.len() == s.songs.len() && s.index < s.new_paths.len()
            && s.applied == s.index,
        ScanPhase::Update(_) => s.gone.len() == s.songs.len() && s.index < s.updated.len()
            && s.applied == done_before(s, ChangeKind::Update) + s.index,
        ScanPhase::Delete => s.gone.len() == s.songs.len() && s.index < s.deleted.len()
            && s.applied == done_before(s, ChangeKind::Delete) + s.index,
        ScanPhase::ReportApplied(kind) => s.gone.len() == s.songs.len() && s.index < kind_len(s, kind)
            && s.applied == done_before(s, kind) + s.index + 1,
        _ => s.gone.len() == s.songs.len() && s.applied <= change_total(s),
    }
}

/// The next song kept from `i` on is not before `i`, and its file is there.
proof fn lemma_next_kept(gone: Seq<bool>, i: int)
    requires
        0 <= i,
    ensures
        i <= next_kept(gone, i),
        i <= gone.len() ==> next_kept(gone, i) <= gone.len(),
        next_kept(gone, i) < gone.len() ==> !gone[next_kept(gone, i)],
    decreases gone.len() - i,
{
    if i < gone.len() && gone[i] {
        lemma_next_kept(gone, i + 1);
    }
}

/// The walk finds no more new files than it has entries.
proof fn lemma_new_paths_bounded(entries: Seq<(String, bool)>, existing: Seq<String>)
    ensures
        new_song_paths(entries, existing).len() <= entries.len(),
    decreases entries.len(),
{
    if entries.len() > 0 {
        lemma_new_paths_bounded(entries.drop_last(), existing);
    }
}

/// A copy of an optional string.
fn copy_text(o: &Option<String>) -> (r: Option<String>)
    ensures
        r == *o,
{
    match o {
        Some(s) => Some(s.clone()),
        None => None,
    }
}

/// A copy of a song record to add.
fn copy_new_song(n: &NewSong) -> (c: NewSong)
    ensures
        c == *n,
{
    NewSong {
        path: n.path.clone(),
        title: copy_text(&n.title),
        artist: copy_text(&n.artist),
        album: copy_text(&n.album),
        album_artist: copy_text(&n.album_artist),
        genre: copy_text(&n.genre),
        track_number: copy_text(&n.track_number),
        disc_number: copy_text(&n.disc_number),
        year: copy_text(&n.year),
        mood: copy_text(&n.mood),
        file_created_at: n.file_created_at,
    }
}

/// A copy of new tag values.
pub(crate) fn copy_updated_song(u: &UpdatedSong) -> (c: UpdatedSong)
    ensures
        c == *u,
{
    UpdatedSong {
        title: copy_text(&u.title),
        artist: copy_text(&u.artist),
        album: copy_text(&u.album),
        album_artist: copy_text(&u.album_artist),
        genre: copy_text(&u.genre),
        track_number: copy_text(&u.track_number),
        disc_number: copy_text(&u.disc_number),
        year: copy_text(&u.year),
        mood: copy_text(&u.mood),
    }
}

/// A copy of an outcome.
fn copy_outcome(r: &Result<(), String>) -> (c: Result<(), String>)
    ensures
        c == *r,
{
    match r {
        Ok(u) => Ok(*u),
        Err(m) => Err(m.clone()),
    }
}

/// The new song files among the entries of a walk.
fn new_song_files(entries: &Vec<(String, bool)>, existing: &Vec<String>) -> (r: Vec<String>)
    ensures
        r@ == new_song_paths(entries@, existing@),
{
    let mut out: Vec<String> = Vec::new();
    let mut i: usize = 0;
    while i < entries.len()
        invariant
            i <= entries@.len(),
            out@ == new_song_paths(entries@.take(i as int), existing@),
        decreases entries.len() - i,
    {
        let e = &entries[i];
        assert(entries@.take(i + 1).drop_last() =~= entries@.take(i as int));
        assert(entries@.take(i + 1).last() == entries@[i as int]);
        if is_new_song_file(e.0.as_str(), e.1, existing) {
            out.push(e.0.clone());
        }
        i = i + 1;
    }
    assert(entries@.take(entries@.len() as int) =~= entries@);
    out
}

impl ScanRun {
    /// The bounds of the scan hold, and it knows the paths of the stored
    /// songs.
    pub closed spec fn wf(&self) -> bool {
        &&& self.existing@ == song_paths(self.songs@)
        &&& scan_inv(self@)
    }

    /// Whether `reply` answers the pending request.
    fn answers(&self, reply: &ScanReply) -> (b: bool)
        ensures
            b == scan_answers(self@.phase, *reply),
    {
        match (&self.phase, reply) {
            (ScanPhase::Directories, ScanReply::Directories(_)) => true,
            (ScanPhase::Songs, ScanReply::Songs(_)) => true,
            (ScanPhase::Exists, ScanReply::Flag(_)) => true,
            (ScanPhase::WalkCancelled, ScanReply::Flag(_)) => true,
            (ScanPhase::Check(_), ScanReply::Flag(_)) => true,
            (ScanPhase::Walk, ScanReply::Entries(_)) => true,
            (ScanPhase::Compare, ScanReply::Tags(_, _)) => true,
            (ScanPhase::ReadNew, ScanReply::Tags(_, _)) => true,
            (ScanPhase::ReportGone, ScanReply::Sent(_)) => true,
            (ScanPhase::ReportNew, ScanReply::Sent(_)) => true,
            (ScanPhase::ReportChanged, ScanReply::Sent(_)) => true,
            (ScanPhase::ReportApplied(_), ScanReply::Sent(_)) => true,
            (ScanPhase::ReportSaved, ScanReply::Sent(_)) => true,
            (ScanPhase::Begin, ScanReply::Done(_)) => true,
            (ScanPhase::Add(_), ScanReply::Done(_)) => true,
            (ScanPhase::Update(_), ScanReply::Done(_)) => true,
            (ScanPhase::Delete, ScanReply::Done(_)) => true,
            (ScanPhase::Commit, ScanReply::Done(_)) => true,
            _ => false,
        }
    }

    /// Checks `scan_fits`: whether the counts `reply` brings fit the
    /// scan's counters.
    pub fn fits(&self, reply: &ScanReply) -> (b: bool)
        requires
            self.wf(),
        ensures
            b == scan_fits(self@, *reply),
    {
        match (&self.phase, reply) {
            (ScanPhase::Songs, ScanReply::Songs(v)) => (v.len() as u64) <= 0x7fff_ffff_ffff_ffffu64,
            (ScanPhase::Walk, ScanReply::Entries(v)) => {
                let room: u64 = 0xffff_ffff_ffff_ffffu64 - 2 * (self.songs.len() as u64);
                (v.len() as u64) <= room
            },
            _ => true,
        }
    }

    /// The request the scan waits on the answer of.
    pub fn pending_request(&self) -> (r: ScanRequest)
        requires
            self.wf(),
        ensures
            r == scan_pending(self@),
    {
        match &self.phase {
            ScanPhase::Directories => ScanRequest::Directories,
            ScanPhase::Songs => ScanRequest::Songs,
            ScanPhase::Exists => ScanRequest::Exists(self.songs[self.index].path.clone()),
            ScanPhase::ReportGone => ScanRequest::Report(ScanNotice::Found { step: 1, count: self.deleted.len() }),
            ScanPhase::Walk => ScanRequest::Walk,
            ScanPhase::ReportNew => ScanRequest::Report(ScanNotice::Found { step: 2, count: self.new_paths.len() }),
            ScanPhase::WalkCancelled => ScanRequest::Cancelled,
            ScanPhase::Compare => ScanRequest::ReadTags(self.songs[self.index].path.clone()),
            ScanPhase::ReportChanged => ScanRequest::Report(ScanNotice::Found { step: 3, count: self.updated.len() }),
            ScanPhase::Begin => ScanRequest::Begin,
            ScanPhase::Check(_) => ScanRequest::Cancelled,
            ScanPhase::ReadNew => ScanRequest::ReadTags(self.new_paths[self.index].clone()),
            ScanPhase::Add(n) => ScanRequest::Add(copy_new_song(n)),
            ScanPhase::Update(u) => ScanRequest::Update(self.updated[self.index].0.clone(), copy_updated_song(u)),
            ScanPhase::Delete => ScanRequest::Delete(self.deleted[self.index].clone()),
            ScanPhase::ReportApplied(_) => {
                let total = (self.new_paths.len() as u64) + (self.updated.len() as u64) + (self.deleted.len() as u64);
                ScanRequest::Report(ScanNotice::Applied { current: self.applied, total })
            },
            ScanPhase::Commit => ScanRequest::Commit,
            ScanPhase::ReportSaved => ScanRequest::Report(ScanNotice::Saved),
            ScanPhase::Finished(r) => ScanRequest::Finish(copy_outcome(r)),
        }
    }
}

impl ScanRun {
    /// Goes on comparing from stored song `i` (see `compare_from`); hands
    /// back the report to send, if any.
    fn compare_next(&mut self, i: usize) -> (n: Option<ScanNotice>)
        requires
            i <= old(self).songs@.len(),
            old(self).gone@.len() == old(self).songs@.len(),
        ensures
            compare_from(old(self)@, i as int, final(self)@, match n { Some(x) => seq![x], None => Seq::empty() }),
            final(self).existing == old(self).existing,
    {
        proof {
            lemma_next_kept(self.gone@, i as int);
        }
        let mut j = i;
        while j < self.gone.len() && self.gone[j]
            invariant
                i <= j <= self.gone@.len(),
                self.gone@.len() == self.songs@.len(),
                next_kept(self.gone@, i as int) == next_kept(self.gone@, j as int),
            decreases self.gone.len() - j,
        {
            j = j + 1;
        }
        self.index = j;
        if j < self.songs.len() {
            self.phase = ScanPhase::Compare;
            Some(ScanNotice::Comparing { current: self.compared, total: self.songs.len() as u64 })
        } else if self.new_paths.len() == 0 && self.updated.len() == 0 && self.deleted.len() == 0 {
            self.phase = ScanPhase::Finished(Ok(()));
            None
        } else {
            self.phase = ScanPhase::ReportChanged;
            None
        }
    }

    /// Takes the stored songs.
    fn take_songs(&mut self, v: Vec<Song>)
        ensures
            final(self)@ == (ScanState {
                phase: if v@.len() > 0 { ScanPhase::Exists } else { ScanPhase::ReportGone },
                songs: v@,
                gone: Seq::empty(),
                deleted: Seq::empty(),
                index: 0,
                ..old(self)@
            }),
            final(self).existing@ == song_paths(v@),
    {
        let mut paths: Vec<String> = Vec::new();
        let mut k: usize = 0;
        while k < v.len()
            invariant
                k <= v@.len(),
                paths@ == song_paths(v@.take(k as int)),
            decreases v.len() - k,
        {
            assert(v@.take(k + 1) =~= v@.take(k as int).push(v@[k as int]));
            paths.push(v[k].path.clone());
            k = k + 1;
        }
        assert(v@.take(v@.len() as int) =~= v@);
        self.phase = if v.len() > 0 { ScanPhase::Exists } else { ScanPhase::ReportGone };
        self.existing = paths;
        self.songs = v;
        self.gone = Vec::new();
        self.deleted = Vec::new();
        self.index = 0;
    }

    /// A report that went through moves the scan to `next`; one that did
    /// not ends it.
    fn reported(&mut self, reply: ScanReply, next: ScanPhase)
        requires
            reply is Sent,
        ensures
            after_report(old(self)@, reply, final(self)@, Seq::empty(), next),
            final(self).existing == old(self).existing,
    {
        match reply {
            ScanReply::Sent(Ok(())) => {
                self.phase = next;
            },
            ScanReply::Sent(Err(m)) => {
                self.phase = ScanPhase::Finished(Err(m));
            },
            _ => {},
        }
    }

    /// After a check that found the job not cancelled (see `checked`).
    fn check_passed(&mut self, kind: ChangeKind)
        requires
            updated_wf(old(self)@.updated),
        ensures
            checked(old(self)@, kind, final(self)@),
            final(self).existing == old(self).existing,
    {
        match kind {
            ChangeKind::Add => {
                if self.index < self.new_paths.len() {
                    self.phase = ScanPhase::ReadNew;
                } else {
                    self.phase = ScanPhase::Check(ChangeKind::Update);
                    self.index = 0;
                }
            },
            ChangeKind::Update => {
                if self.index < self.updated.len() {
                    assert(self.updated@[self.index as int] == self.updated@[self.index as int]);
                    let u = UpdatedSong::from_metadata(self.updated[self.index].1.as_ref());
                    self.phase = ScanPhase::Update(u);
                } else {
                    self.phase = ScanPhase::Check(ChangeKind::Delete);
                    self.index = 0;
                }
            },
            ChangeKind::Delete => {
                if self.index < self.deleted.len() {
                    self.phase = ScanPhase::Delete;
                } else {
                    self.phase = ScanPhase::Commit;
                }
            },
        }
    }
}

impl ScanRun {
    /// Takes the answer to the pending request and decides what comes next:
    /// the reports to send as they can and the next request.
    pub fn step(&mut self, reply: ScanReply) -> (s: ScanStep)
        requires
            old(self).wf(),
            scan_fits(old(self)@, reply),
            reply matches ScanReply::Tags(Ok(m), _) ==> m.wf(),
        ensures
            final(self).wf(),
            scan_next(old(self)@, reply, final(self)@, s.notices@),
            s.request == scan_pending(final(self)@),
    {
        if !self.answers(&reply) {
            let request = self.pending_request();
            return ScanStep { notices: Vec::new(), request };
        }
        let ghost start = self@;
        assert(scan_inv(start));
        let mut notices: Vec<ScanNotice> = Vec::new();
        let mut phase = ScanPhase::Walk;
        std::mem::swap(&mut phase, &mut self.phase);
        match phase {
            ScanPhase::Directories => {
                if let ScanReply::Directories(d) = reply {
                    self.phase = if d.len() == 0 { ScanPhase::Finished(Ok(())) } else { ScanPhase::Songs };
                }
            },
            ScanPhase::Songs => {
                if let ScanReply::Songs(v) = reply {
                    self.take_songs(v);
                }
            },
            ScanPhase::Exists => {
                if let ScanReply::Flag(there) = reply {
                    let i = self.index;
                    assert(scan_inv(start));
                    assert(i < self.songs.len());
                    self.gone.push(!there);
                    if !there {
                        let id = self.songs[i].id.clone();
                        self.deleted.push(id);
                    }
                    self.index = i + 1;
                    self.phase = if i + 1 < self.songs.len() { ScanPhase::Exists } else { ScanPhase::ReportGone };
                }
            },
            ScanPhase::ReportGone => self.reported(reply, ScanPhase::Walk),
            ScanPhase::Walk => {
                if let ScanReply::Entries(v) = reply {
                    proof {
                        lemma_new_paths_bounded(v@, self.existing@);
                    }
                    self.new_paths = new_song_files(&v, &self.existing);
                    self.phase = ScanPhase::ReportNew;
                }
            },
            ScanPhase::ReportNew => self.reported(reply, ScanPhase::WalkCancelled),
            ScanPhase::WalkCancelled => {
                if let ScanReply::Flag(cancelled) = reply {
                    if cancelled {
                        self.phase = ScanPhase::Finished(Ok(()));
                    } else {
                        self.compared = 0;
                        proof {
                            lemma_next_kept(self.gone@, 0);
                        }
                        if let Some(n) = self.compare_next(0) {
                            notices.push(n);
                        }
                    }
                }
            },
            ScanPhase::Compare => {
                if let ScanReply::Tags(m, c) = reply {
                    let i = self.index;
                    assert(i < self.songs.len());
                    let created = match c {
                        Ok(t) => t,
                        Err(_) => None,
                    };
                    let (tags, why) = match m {
                        Ok(t) => (Some(t), None),
                        Err(w) => (None, Some(w)),
                    };
                    if song_metadata_changed(&self.songs[i], tags.as_ref(), created) {
                        let id = self.songs[i].id.clone();
                        self.updated.push((id, tags));
                    }
                    self.compared = self.compared + 1;
                    if let Some(w) = why {
                        notices.push(ScanNotice::Unreadable(w));
                    }
                    let ghost before = notices@;
                    proof {
                        lemma_next_kept(self.gone@, i + 1);
                    }
                    let next = self.compare_next(i + 1);
                    let ghost more: Seq<ScanNotice> = if next is Some { seq![next->0] } else { Seq::empty() };
                    if let Some(n) = next {
                        notices.push(n);
                    }
                    proof {
                        if before.len() == 1 {
                            assert(notices@.drop_first() =~= more);
                        } else {
                            assert(notices@ =~= more);
                        }
                    }
                }
            },
            ScanPhase::ReportChanged => self.reported(reply, ScanPhase::Begin),
            ScanPhase::Begin => {
                match reply {
                    ScanReply::Done(Ok(())) => {
                        self.phase = ScanPhase::Check(ChangeKind::Add);
                        self.index = 0;
                        self.applied = 0;
                    },
                    ScanReply::Done(Err(m)) => {
                        self.phase = ScanPhase::Finished(Err(m));
                    },
                    _ => {},
                }
            },
            ScanPhase::Check(kind) => {
                if let ScanReply::Flag(cancelled) = reply {
                    if cancelled {
                        self.phase = ScanPhase::Finished(Ok(()));
                    } else {
                        self.check_passed(kind);
                    }
                }
            },
            ScanPhase::ReadNew => {
                if let ScanReply::Tags(m, c) = reply {
                    match c {
                        Ok(created) => {
                            let tags = match m {
                                Ok(t) => Some(t),
                                Err(_) => None,
                            };
                            let n = NewSong::from_file(self.new_paths[self.index].clone(), tags.as_ref(), created);
                            self.phase = ScanPhase::Add(n);
                        },
                        Err(why) => {
                            self.phase = ScanPhase::Finished(Err(why));
                        },
                    }
                }
            },
            ScanPhase::Add(_) => {
                self.applied = self.applied + 1;
                self.phase = ScanPhase::ReportApplied(ChangeKind::Add);
            },
            ScanPhase::Update(_) => {
                self.applied = self.applied + 1;
                self.phase = ScanPhase::ReportApplied(ChangeKind::Update);
            },
            ScanPhase::Delete => {
                self.applied = self.applied + 1;
                self.phase = ScanPhase::ReportApplied(ChangeKind::Delete);
            },
            ScanPhase::ReportApplied(kind) => {
                match reply {
                    ScanReply::Sent(Ok(())) => {
                        assert(scan_inv(start));
                        assert(self.index < self.new_paths.len() || self.index < self.updated.len()
                            || self.index < self.deleted.len());
                        self.phase = ScanPhase::Check(kind);
                        self.index = self.index + 1;
                    },
                    ScanReply::Sent(Err(m)) => {
                        self.phase = ScanPhase::Finished(Err(m));
                    },
                    _ => {},
                }
            },
            ScanPhase::Commit => {
                self.phase = ScanPhase::ReportSaved;
            },
            ScanPhase::ReportSaved => self.reported(reply, ScanPhase::Finished(Ok(()))),
            ScanPhase::Finished(r) => {
                self.phase = ScanPhase::Finished(r);
            },
        }
        assert(self.wf());
        let request = self.pending_request();
        ScanStep { notices, request }
    }
}

impl<D> ScanSongs<D> {
    /// Starts a scan: it first asks for the song directories.
    pub fn execute(&self) -> (r: (ScanRun, ScanStep))
        ensures
            r.0.wf(),
            r.0@ == scan_start(),
            r.1.notices@.len() == 0,
            r.1.request == ScanRequest::Directories,
    {
        let run = ScanRun {
            phase: ScanPhase::Directories,
            songs: Vec::new(),
            existing: Vec::new(),
            gone: Vec::new(),
            deleted: Vec::new(),
            new_paths: Vec::new(),
            updated: Vec::new(),
            index: 0,
            compared: 0,
            applied: 0,
        };
        proof {
            assert(run.existing@ =~= song_paths(run.songs@));
        }
        (run, ScanStep { notices: Vec::new(), request: ScanRequest::Directories })
    }
}

/// A scan that learns the job was cancelled ends well at once: it sends
/// nothing more and applies no further change.
pub proof fn law_scan_cancel_stops(run: ScanRun, new: ScanState, notices: Seq<ScanNotice>)
    requires
        run.wf(),
        run@.phase is WalkCancelled || run@.phase is Check,
        scan_next(run@, ScanReply::Flag(true), new, notices),
    ensures
        new.phase == ScanPhase::Finished(Ok(())),
        notices.len() == 0,
        scan_pending(new) == ScanRequest::Finish(Ok(())),
        new.applied == run@.applied,
{
}

/// Every progress report of a scan counts the change just applied, out of
/// all the changes it applies.
pub proof fn law_scan_progress_counts(run: ScanRun)
    requires
        run.wf(),
    ensures
        scan_pending(run@) matches ScanRequest::Report(ScanNotice::Applied { current, total })
            ==> 1 <= current <= total && total == change_total(run@),
{
}

/// A scan that found nothing to change ends without touching the database:
/// after comparing the last stored song it ends well, unless something is
/// to be added, updated or deleted.
pub proof fn law_scan_without_changes(s: ScanState, i: int, new: ScanState, notices: Seq<ScanNotice>)
    requires
        0 <= i,
        next_kept(s.gone, i) >= s.songs.len(),
        compare_from(s, i, new, notices),
    ensures
        change_total(s) == 0 <==> new.phase == ScanPhase::Finished(Ok(())),
        change_total(s) != 0 <==> new.phase == ScanPhase::ReportChanged,
{
}

/// `states` is a run of a scan: each state follows from the one before by
/// the answer in `replies`, with the reports in `notices`.
pub open spec fn scan_trace(states: Seq<ScanState>, replies: Seq<ScanReply>, notices: Seq<Seq<ScanNotice>>) -> bool {
    &&& states.len() == replies.len() + 1
    &&& notices.len() == replies.len()
    &&& forall|i: int| 0 <= i < replies.len() ==> scan_next(states[i], #[trigger] replies[i], states[i + 1], notices[i])
}

/// Every change a scan makes, in the order it makes them: the new files
/// added, the changed songs updated (by id), the gone songs deleted (by id).
pub open spec fn all_changes(s: ScanState) -> Seq<(ChangeKind, String)> {
    s.new_paths.map_values(|p: String| (ChangeKind::Add, p))
        + s.updated.map_values(|u: (String, Option<Metadata>)| (ChangeKind::Update, u.0))
        + s.deleted.map_values(|d: String| (ChangeKind::Delete, d))
}

/// The changes a run applied, in order: the pending change of each state
/// that waited on an `Add`, `Update` or `Delete` request and got its answer.
pub open spec fn applied_changes(states: Seq<ScanState>, replies: Seq<ScanReply>) -> Seq<(ChangeKind, String)>
    decreases replies.len(),
{
    if replies.len() == 0 {
        Seq::empty()
    } else {
        let i = replies.len() - 1;
        let rest = applied_changes(states, replies.drop_last());
        let s = states[i];
        if scan_answers(s.phase, replies[i]) {
            match s.phase {
                ScanPhase::Add(_) => rest.push((ChangeKind::Add, s.new_paths[s.index])),
                ScanPhase::Update(_) => rest.push((ChangeKind::Update, s.updated[s.index].0)),
                ScanPhase::Delete => rest.push((ChangeKind::Delete, s.deleted[s.index])),
                _ => rest,
            }
        } else {
            rest
        }
    }
}

/// What a scan has applied when it stands in `s`.
pub open spec fn applied_so_far(s: ScanState, applied: Seq<(ChangeKind, String)>) -> bool {
    let all = all_changes(s);
    &&& 0 <= s.index
    &&& match s.phase {
        ScanPhase::Check(kind) => s.index <= kind_len(s, kind) && applied == all.take(done_before(s, kind) + s.index),
        ScanPhase::ReadNew | ScanPhase::Add(_) => s.index < s.new_paths.len() && applied == all.take(s.index),
        ScanPhase::Update(_) => s.index < s.updated.len()
            && applied == all.take(done_before(s, ChangeKind::Update) + s.index),
        ScanPhase::Delete => s.index < s.deleted.len() && applied == all.take(done_before(s, ChangeKind::Delete) + s.index),
        ScanPhase::ReportApplied(kind) => s.index < kind_len(s, kind)
            && applied == all.take(done_before(s, kind) + s.index + 1),
        ScanPhase::Commit | ScanPhase::ReportSaved => applied == all,
        ScanPhase::Finished(_) => true,
        _ => applied.len() == 0,
    }
}

/// Along a run of a scan from its start, what was applied is what the
/// state says.
proof fn lemma_scan_trace(states: Seq<ScanState>, replies: Seq<ScanReply>, notices: Seq<Seq<ScanNotice>>, j: int)
    requires
        scan_trace(states, replies, notices),
        states[0] == scan_start(),
        0 <= j <= replies.len(),
    ensures
        applied_so_far(states[j], applied_changes(states, replies.take(j))),
    decreases j,
{
    if j == 0 {
        assert(replies.take(0).len() == 0);
    } else {
        let i = j - 1;
        lemma_scan_trace(states, replies, notices, i);
        assert(replies.take(j).drop_last() =~= replies.take(i));
        assert(replies.take(j)[i] == replies[i]);
        let old = states[i];
        let new = states[j];
        assert(scan_next(old, replies[i], new, notices[i]));
        let all = all_changes(old);
        let a2 = applied_changes(states, replies.take(j));
        let n = old.index;
        let before = done_before(old, ChangeKind::Delete);
        lemma_next_kept(old.gone, 0);
        lemma_next_kept(old.gone, old.index + 1);
        if scan_answers(old.phase, replies[i]) {
            match old.phase {
                ScanPhase::Begin => {
                    assert(all_changes(new) =~= all);
                    assert(a2 =~= all.take(0));
                },
                ScanPhase::Add(_) => {
                    assert(all[n] == (ChangeKind::Add, old.new_paths[n]));
                    assert(a2 =~= all.take(n + 1));
                },
                ScanPhase::Update(_) => {
                    let m = done_before(old, ChangeKind::Update) + n;
                    assert(all[m] == (ChangeKind::Update, old.updated[n].0));
                    assert(a2 =~= all.take(m + 1));
                },
                ScanPhase::Delete => {
                    assert(all[before + n] == (ChangeKind::Delete, old.deleted[n]));
                    assert(a2 =~= all.take(before + n + 1));
                },
                ScanPhase::Check(kind) => {
                    if kind == ChangeKind::Delete && n >= old.deleted.len() {
                        assert(all.take(before + n) =~= all);
                    }
                },
                _ => {},
            }
        }
    }
}

/// By the time a scan reports its changes saved, it has applied each new
/// file, each changed song and each gone song exactly once, in that order.
pub proof fn law_scan_applies_each_change_once(states: Seq<ScanState>, replies: Seq<ScanReply>, notices: Seq<Seq<ScanNotice>>, k: int)
    requires
        scan_trace(states, replies, notices),
        states[0] == scan_start(),
        0 <= k <= replies.len(),
        states[k].phase is ReportSaved,
    ensures
        applied_changes(states, replies.take(k)) == all_changes(states[k]),
{
    lemma_scan_trace(states, replies, notices, k);
}

/// The song extensions are exactly mp3, m4a, flac, wav, ogg, wma, aac and
/// opus: each of them is a song's, and an extension that is a song's is one
/// of them.
pub proof fn law_song_extensions(e: Seq<char>)
    ensures
        is_song_extension_spec("mp3"@),
        is_song_extension_spec("m4a"@),
        is_song_extension_spec("flac"@),
        is_song_extension_spec("wav"@),
        is_song_extension_spec("ogg"@),
        is_song_extension_spec("wma"@),
        is_song_extension_spec("aac"@),
        is_song_extension_spec("opus"@),
        is_song_extension_spec(e) ==> e == "mp3"@ || e == "m4a"@ || e == "flac"@ || e == "wav"@
            || e == "ogg"@ || e == "wma"@ || e == "aac"@ || e == "opus"@,
{
}

/// A regular file that no stored song has, whose extension lower-cases to
/// one of the song extensions, is a new song for the scan.
pub proof fn law_song_files_are_new(path: Seq<char>, existing: Seq<String>, e: Seq<char>)
    requires
        !(exists|i: int| 0 <= i < existing.len() && spec_path_eq(#[trigger] existing[i]@, path)),
        spec_path_extension(path) == Some(e),
        spec_to_lowercase(e) == "mp3"@ || spec_to_lowercase(e) == "m4a"@ || spec_to_lowercase(e) == "flac"@
            || spec_to_lowercase(e) == "wav"@ || spec_to_lowercase(e) == "ogg"@ || spec_to_lowercase(e) == "wma"@
            || spec_to_lowercase(e) == "aac"@ || spec_to_lowercase(e) == "opus"@,
    ensures
        is_new_song_spec(path, true, existing),
{
}

} // verus!
