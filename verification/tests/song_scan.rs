use muusik::db::Song;
use muusik::jobs::JobEvent;
use muusik::metadata::{Error, ItemKey, Metadata, SongError};
use muusik::scan::{ScanNotice, ScanReply, ScanRequest, ScanSongs};

/// What the scan asked for, in order, in short.
#[derive(Debug, PartialEq)]
enum Asked {
    Exists(String),
    Walk,
    Cancelled,
    Tags(String),
    Report(ScanNotice),
    Begin,
    Add(String, Option<String>),
    Update(String, Option<String>),
    Delete(String),
    Commit,
}

struct World {
    directories: Vec<String>,
    songs: Vec<Song>,
    files: Vec<&'static str>,
    walk: Vec<(&'static str, bool)>,
    titles: Vec<(&'static str, &'static str)>,
    cancel_after_walk: bool,
    refuse_reports: bool,
}

impl World {
    fn new() -> Self {
        World {
            directories: vec!["/m".to_string()],
            songs: vec![stored("a", "/m/a.mp3", "A"), stored("g", "/m/gone.mp3", "G")],
            files: vec!["/m/a.mp3", "/m/new.flac"],
            walk: vec![("/m", false), ("/m/a.mp3", true), ("/m/new.flac", true), ("/m/cover.jpg", true)],
            titles: vec![("/m/a.mp3", "A2"), ("/m/new.flac", "N")],
            cancel_after_walk: false,
            refuse_reports: false,
        }
    }
}

fn stored(id: &str, path: &str, title: &str) -> Song {
    Song {
        id: id.to_string(),
        path: path.to_string(),
        title: Some(title.to_string()),
        file_created_at: Some(1),
        directory_id: "d".to_string(),
        ..Default::default()
    }
}

/// Runs a scan against `world`; hands back what it asked for, the reports
/// it sent as it could, and its result.
fn scan(world: &World) -> (Vec<Asked>, Vec<ScanNotice>, Result<(), String>) {
    let (mut run, mut step) = ScanSongs::new(()).execute();
    let mut asked = Vec::new();
    let mut notices = Vec::new();
    let mut walked = false;
    loop {
        notices.extend(step.notices.iter().cloned());
        let reply = match step.request {
            ScanRequest::Finish(result) => return (asked, notices, result),
            ScanRequest::Directories => ScanReply::Directories(world.directories.clone()),
            ScanRequest::Songs => ScanReply::Songs(world.songs.clone()),
            ScanRequest::Exists(p) => {
                let there = world.files.contains(&p.as_str());
                asked.push(Asked::Exists(p));
                ScanReply::Flag(there)
            }
            ScanRequest::Walk => {
                asked.push(Asked::Walk);
                walked = true;
                ScanReply::Entries(world.walk.iter().map(|(p, f)| (p.to_string(), *f)).collect())
            }
            ScanRequest::Cancelled => {
                asked.push(Asked::Cancelled);
                ScanReply::Flag(walked && world.cancel_after_walk)
            }
            ScanRequest::ReadTags(p) => {
                let tags = match world.titles.iter().find(|(q, _)| *q == p) {
                    Some((_, t)) => Ok(Metadata::new(vec![(ItemKey::Title, t.to_string())], vec![])),
                    None => Err(Error::Song(SongError::NoTag).message()),
                };
                asked.push(Asked::Tags(p));
                ScanReply::Tags(tags, Ok(Some(1)))
            }
            ScanRequest::Report(n) => {
                asked.push(Asked::Report(n));
                if world.refuse_reports {
                    ScanReply::Sent(Err("channel closed".to_string()))
                } else {
                    ScanReply::Sent(Ok(()))
                }
            }
            ScanRequest::Begin => {
                asked.push(Asked::Begin);
                ScanReply::Done(Ok(()))
            }
            ScanRequest::Add(s) => {
                asked.push(Asked::Add(s.path, s.title));
                ScanReply::Done(Ok(()))
            }
            ScanRequest::Update(id, u) => {
                asked.push(Asked::Update(id, u.title));
                ScanReply::Done(Ok(()))
            }
            ScanRequest::Delete(id) => {
                asked.push(Asked::Delete(id));
                ScanReply::Done(Ok(()))
            }
            ScanRequest::Commit => {
                asked.push(Asked::Commit);
                ScanReply::Done(Ok(()))
            }
        };
        assert!(run.fits(&reply));
        step = run.step(reply);
    }
}

#[test]
fn a_scan_adds_updates_and_deletes_in_turn() {
    let (asked, notices, result) = scan(&World::new());
    assert_eq!(result, Ok(()));
    assert_eq!(
        asked,
        vec![
            Asked::Exists("/m/a.mp3".into()),
            Asked::Exists("/m/gone.mp3".into()),
            Asked::Report(ScanNotice::Found { step: 1, count: 1 }),
            Asked::Walk,
            Asked::Report(ScanNotice::Found { step: 2, count: 1 }),
            Asked::Cancelled,
            Asked::Tags("/m/a.mp3".into()),
            Asked::Report(ScanNotice::Found { step: 3, count: 1 }),
            Asked::Begin,
            Asked::Cancelled,
            Asked::Tags("/m/new.flac".into()),
            Asked::Add("/m/new.flac".into(), Some("N".into())),
            Asked::Report(ScanNotice::Applied { current: 1, total: 3 }),
            Asked::Cancelled,
            Asked::Cancelled,
            Asked::Update("a".into(), Some("A2".into())),
            Asked::Report(ScanNotice::Applied { current: 2, total: 3 }),
            Asked::Cancelled,
            Asked::Cancelled,
            Asked::Delete("g".into()),
            Asked::Report(ScanNotice::Applied { current: 3, total: 3 }),
            Asked::Cancelled,
            Asked::Commit,
            Asked::Report(ScanNotice::Saved),
        ]
    );
    // Only the song whose file is still there is compared.
    assert_eq!(notices, vec![ScanNotice::Comparing { current: 0, total: 2 }]);
}

#[test]
fn a_scan_without_directories_does_nothing() {
    let mut world = World::new();
    world.directories.clear();
    let (asked, notices, result) = scan(&world);
    assert_eq!(result, Ok(()));
    assert!(asked.is_empty());
    assert!(notices.is_empty());
}

#[test]
fn a_scan_without_changes_leaves_the_database_alone() {
    let mut world = World::new();
    world.songs = vec![stored("a", "/m/a.mp3", "A2")];
    world.walk = vec![("/m/a.mp3", true)];
    let (asked, _, result) = scan(&world);
    assert_eq!(result, Ok(()));
    assert!(!asked.contains(&Asked::Begin));
    assert_eq!(asked.last(), Some(&Asked::Tags("/m/a.mp3".into())));
}

#[test]
fn a_cancelled_scan_stops_after_the_walk() {
    let mut world = World::new();
    world.cancel_after_walk = true;
    let (asked, _, result) = scan(&world);
    assert_eq!(result, Ok(()));
    assert_eq!(asked.last(), Some(&Asked::Cancelled));
    assert!(!asked.contains(&Asked::Begin));
}

#[test]
fn a_report_that_cannot_be_sent_fails_the_scan() {
    let mut world = World::new();
    world.refuse_reports = true;
    let (asked, _, result) = scan(&world);
    assert_eq!(result, Err("channel closed".to_string()));
    assert_eq!(asked.last(), Some(&Asked::Report(ScanNotice::Found { step: 1, count: 1 })));
}

#[test]
fn unreadable_tags_count_as_no_tags() {
    let mut world = World::new();
    world.titles = vec![("/m/new.flac", "N")];
    let (asked, notices, result) = scan(&world);
    assert_eq!(result, Ok(()));
    assert_eq!(notices[1], ScanNotice::Unreadable("No Tag(s) found".to_string()));
    assert!(asked.contains(&Asked::Update("a".into(), None)));
}

#[test]
fn scan_reports_become_job_events() {
    assert_eq!(
        ScanNotice::Found { step: 2, count: 12 }.event(),
        JobEvent::StepCompleted { step: 2, value: Some("12".to_string()) }
    );
    assert_eq!(ScanNotice::Comparing { current: 1, total: 5 }.event(), JobEvent::Progress { current: 1, total: 5, step: 3 });
    assert_eq!(ScanNotice::Applied { current: 2, total: 3 }.event(), JobEvent::Progress { current: 2, total: 3, step: 4 });
    assert_eq!(
        ScanNotice::Unreadable("bad".to_string()).event(),
        JobEvent::Warning { message: "Failed to read metadata for song: bad".to_string() }
    );
    assert_eq!(ScanNotice::Saved.event(), JobEvent::StepCompleted { step: 4, value: None });
}
