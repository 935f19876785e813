use std::collections::{BTreeMap, BTreeSet};

use muusik::fs::{
    copy_start, discard_partial_copy, handle_progress, CopyStart, FsReply, FsRequest, Operation, OperationError,
    OperationEvent, OperationRun, RenameOutcome, RunPhase,
};
use muusik::operation_state::{
    failure_event, manager_event, OperationManagerError, OperationManagerEvent, OperationState, OperationStatus,
    OperationTable,
};

/// A small in-memory file system to answer the machine's requests.
struct FakeFs {
    dirs: BTreeSet<String>,
    files: BTreeMap<String, String>,
    stop: bool,
    cross_device: bool,
}

impl FakeFs {
    fn new(dirs: &[&str], files: &[(&str, &str)]) -> Self {
        FakeFs {
            dirs: dirs.iter().map(|d| d.to_string()).collect(),
            files: files.iter().map(|(p, c)| (p.to_string(), c.to_string())).collect(),
            stop: false,
            cross_device: false,
        }
    }

    fn present(&self, p: &str) -> bool {
        self.dirs.contains(p) || self.files.contains_key(p)
    }

    fn entries(&self, dir: &str) -> usize {
        let prefix = format!("{dir}/");
        let direct = |p: &String| p.starts_with(&prefix) && !p[prefix.len()..].contains('/');
        self.dirs.iter().filter(|p| direct(p)).count() + self.files.keys().filter(|p| direct(p)).count()
    }

    fn answer(&mut self, request: &FsRequest) -> FsReply {
        match request {
            FsRequest::StopFlag => FsReply::Flag(self.stop),
            FsRequest::Exists(p) => FsReply::Flag(self.present(p)),
            FsRequest::IsDir(p) => FsReply::Flag(self.dirs.contains(p)),
            FsRequest::Rename { from, to } => {
                if self.cross_device {
                    return FsReply::Renamed(RenameOutcome::CrossesDevices);
                }
                match self.files.remove(from) {
                    Some(c) => {
                        self.files.insert(to.clone(), c);
                        FsReply::Renamed(RenameOutcome::Done)
                    }
                    None => FsReply::Renamed(RenameOutcome::Failed("No such file or directory".to_string())),
                }
            }
            FsRequest::MoveFile { from, to, overwrite, .. } | FsRequest::CopyFile { from, to, overwrite, .. } => {
                let start = copy_start(self.stop, from.clone(), self.present(from), to.clone(), self.present(to), *overwrite);
                match start {
                    CopyStart::Skip => FsReply::Done(Ok(())),
                    CopyStart::Fail(e) => FsReply::Done(Err(e)),
                    CopyStart::Proceed => {
                        let contents = self.files[from].clone();
                        self.files.insert(to.clone(), contents);
                        if matches!(request, FsRequest::MoveFile { .. }) {
                            self.files.remove(from);
                        }
                        FsReply::Done(Ok(()))
                    }
                }
            }
            FsRequest::RemoveFile(p) => match self.files.remove(p) {
                Some(_) => FsReply::Done(Ok(())),
                None => FsReply::Done(Err(OperationError::Io("not found".to_string()))),
            },
            FsRequest::RemoveDir(p) => {
                if self.entries(p) == 0 && self.dirs.remove(p) {
                    FsReply::Done(Ok(()))
                } else {
                    FsReply::Done(Err(OperationError::Io("not empty".to_string())))
                }
            }
            FsRequest::CountEntries(p) => {
                if self.dirs.contains(p) {
                    FsReply::Count(Ok(self.entries(p)))
                } else {
                    FsReply::Count(Err("not a directory".to_string()))
                }
            }
            FsRequest::Finish(_) => panic!("a finished run has nothing to ask"),
        }
    }
}

/// Runs an operation against the fake file system; hands back the events
/// and the result.
fn run(op: Operation, fs: &mut FakeFs) -> (Vec<OperationEvent>, Result<(), OperationError>) {
    let (mut machine, first) = op.execute();
    let mut events = first.events;
    let mut request = first.request;
    loop {
        if let FsRequest::Finish(result) = request {
            return (events, result);
        }
        let reply = fs.answer(&request);
        assert!(machine.accepts(&reply));
        let step = machine.step(reply);
        events.extend(step.events);
        request = step.request;
    }
}

fn one_move(overwrite: bool, delete_empty: bool) -> Operation {
    Operation::Move {
        paths: vec![("/t/src/file.txt".to_string(), "/t/dst".to_string())],
        overwrite,
        delete_empty_directories_after: delete_empty,
    }
}

#[test]
fn test_move_operation() {
    let mut fs = FakeFs::new(&["/t", "/t/src", "/t/dst"], &[("/t/src/file.txt", "hello")]);
    let (events, result) = run(one_move(true, true), &mut fs);
    assert!(result.is_ok());
    assert!(fs.files.contains_key("/t/dst/file.txt"), "destination file should exist");
    assert!(!fs.files.contains_key("/t/src/file.txt"), "source file should be moved");
    assert!(!fs.dirs.contains("/t/src"), "empty source directory should be deleted");
    assert_eq!(
        events,
        vec![
            OperationEvent::Renamed { from: "/t/src/file.txt".to_string(), to: "/t/dst/file.txt".to_string() },
            OperationEvent::Completed,
        ]
    );
}

#[test]
fn test_cancelled_move_operation() {
    let mut fs = FakeFs::new(&["/t", "/t/src", "/t/dst"], &[("/t/src/file.txt", "hello")]);
    fs.stop = true;
    let (events, result) = run(one_move(true, false), &mut fs);
    assert!(result.is_ok() || result.is_err());
    assert_eq!(events, vec![OperationEvent::Cancelled, OperationEvent::Completed]);
    assert!(fs.files.contains_key("/t/src/file.txt"));
}

#[test]
fn a_missing_source_fails_the_move() {
    let mut fs = FakeFs::new(&["/t", "/t/src", "/t/dst"], &[]);
    let (events, result) = run(one_move(true, true), &mut fs);
    assert_eq!(result, Err(OperationError::FileNotFound("/t/src/file.txt".to_string())));
    assert!(events.is_empty());
}

#[test]
fn an_existing_target_is_kept_without_overwrite() {
    let mut fs = FakeFs::new(&["/t", "/t/src", "/t/dst"], &[("/t/src/file.txt", "a"), ("/t/dst/file.txt", "b")]);
    let (_, result) = run(one_move(false, false), &mut fs);
    assert_eq!(result, Err(OperationError::FileAlreadyExists("/t/dst/file.txt".to_string())));
    assert_eq!(fs.files.get("/t/dst/file.txt"), Some(&"b".to_string()));
}

#[test]
fn a_move_across_devices_goes_through_a_copy() {
    let mut fs = FakeFs::new(&["/t", "/t/src", "/t/dst"], &[("/t/src/file.txt", "a")]);
    fs.cross_device = true;
    let (events, result) = run(one_move(true, false), &mut fs);
    assert_eq!(result, Ok(()));
    assert_eq!(fs.files.get("/t/dst/file.txt"), Some(&"a".to_string()));
    assert!(!fs.files.contains_key("/t/src/file.txt"));
    assert_eq!(
        events,
        vec![
            OperationEvent::Moved { from: "/t/src/file.txt".to_string(), to: "/t/dst/file.txt".to_string() },
            OperationEvent::Completed,
        ]
    );
    let mut fs = FakeFs::new(&["/t", "/t/src", "/t/dst"], &[]);
    fs.cross_device = true;
    let (_, result) = run(one_move(true, false), &mut fs);
    assert_eq!(result, Err(OperationError::FileNotFound("/t/src/file.txt".to_string())));
}

#[test]
fn deleting_reports_each_path() {
    let mut fs = FakeFs::new(&["/t", "/t/d"], &[("/t/f", "x")]);
    let op = Operation::Delete { paths: vec!["/t/f".to_string(), "/t/d".to_string()] };
    let (events, result) = run(op, &mut fs);
    assert!(result.is_ok());
    assert_eq!(
        events,
        vec![
            OperationEvent::Deleted { path: "/t/f".to_string() },
            OperationEvent::Deleted { path: "/t/d".to_string() },
            OperationEvent::Completed,
        ]
    );
    assert!(fs.files.is_empty());
    assert!(!fs.dirs.contains("/t/d"));
}

#[test]
fn an_empty_operation_completes_at_once() {
    let (run, step) = Operation::Copy { paths: vec![], overwrite: false }.execute();
    assert_eq!(step.events, vec![OperationEvent::Completed]);
    assert_eq!(step.request, FsRequest::Finish(Ok(())));
    assert_eq!(run.phase, RunPhase::Finished(Ok(())));
}

#[test]
fn an_unexpected_reply_asks_again() {
    let (mut machine, _) = one_move(true, false).execute();
    let step = machine.step(FsReply::Count(Ok(3)));
    assert!(step.events.is_empty());
    assert_eq!(step.request, FsRequest::StopFlag);
    assert_eq!(machine.pending_request(), FsRequest::StopFlag);
}

#[test]
fn a_copy_into_a_directory_needs_a_file_name() {
    let op = Operation::Copy { paths: vec![("/".to_string(), "/t".to_string())], overwrite: false };
    let (mut machine, _) = op.execute();
    let step = machine.step(FsReply::Flag(false));
    assert_eq!(step.request, FsRequest::IsDir("/t".to_string()));
    assert!(!machine.accepts(&FsReply::Flag(true)));
    assert!(machine.accepts(&FsReply::Flag(false)));
}

#[test]
fn copy_start_refuses_a_missing_source() {
    assert_eq!(copy_start(true, "a".into(), false, "b".into(), true, false), CopyStart::Skip);
    assert_eq!(
        copy_start(false, "a".into(), false, "b".into(), false, false),
        CopyStart::Fail(OperationError::FileNotFound("a".to_string()))
    );
    assert_eq!(
        copy_start(false, "a".into(), true, "b".into(), true, false),
        CopyStart::Fail(OperationError::FileAlreadyExists("b".to_string()))
    );
    assert_eq!(copy_start(false, "a".into(), true, "b".into(), true, true), CopyStart::Proceed);
    assert_eq!(copy_start(false, "a".into(), true, "b".into(), false, false), CopyStart::Proceed);
}

#[test]
fn progress_events() {
    let p = OperationEvent::Progress { file_index: 1, file_count: 3, copied_bytes: 10, total_bytes: 20 };
    assert_eq!(handle_progress(10, 20, 1, 3, false), vec![p.clone()]);
    assert_eq!(handle_progress(10, 20, 1, 3, true), vec![OperationEvent::Cancelled, p]);
    assert!(discard_partial_copy(true, 5, 10));
    assert!(!discard_partial_copy(true, 10, 10));
    assert!(!discard_partial_copy(false, 5, 10));
}

#[test]
fn operation_error_messages() {
    assert_eq!(OperationError::Io("boom".into()).message(), "Failed to perform IO operation: boom");
    assert_eq!(OperationError::FileNotFound("/a".into()).message(), "File doesn't exist: /a");
    assert_eq!(OperationError::FileAlreadyExists("/b".into()).message(), "File already exists: /b");
    assert_eq!(OperationEvent::default(), OperationEvent::Started);
}

#[test]
fn operation_table_tracks_queued_operations() {
    let mut table = OperationTable::new();
    let op = Operation::Delete { paths: vec!["/x".to_string()] };
    let flag = table.queue_with_id(7, &op);
    let state = table.get(7).expect("queued");
    assert_eq!(*state.status(), OperationStatus::Pending);
    assert!(!flag.load(std::sync::atomic::Ordering::SeqCst));
    assert_eq!(table.stop_operation(7), Ok(()));
    assert!(flag.load(std::sync::atomic::Ordering::SeqCst));
    assert_eq!(table.stop_operation(8), Err(OperationManagerError::NotFound));
    table.apply(7, &OperationEvent::Started);
    assert_eq!(*table.get(7).unwrap().status(), OperationStatus::InProgress);
    table.apply(7, &OperationEvent::Completed);
    assert!(table.get(7).is_none());
}

#[test]
fn operation_state_changes_only_its_status() {
    let op = Operation::Move { paths: vec![("/a".into(), "/b".into())], overwrite: false, delete_empty_directories_after: false };
    let mut state = OperationState::from_operation(&op);
    state.set_status(OperationStatus::InProgress);
    assert_eq!(*state.status(), OperationStatus::InProgress);
    state.set_stop_flag(true);
    assert!(state.stop_flag().load(std::sync::atomic::Ordering::SeqCst));
    match state {
        OperationState::Move { paths, .. } => assert_eq!(paths, vec![("/a".to_string(), "/b".to_string())]),
        _ => panic!("wrong kind"),
    }
}

#[test]
fn manager_events_carry_the_operation() {
    let e = manager_event(5, OperationEvent::Deleted { path: "/p".into() });
    assert_eq!(e, OperationManagerEvent::Deleted { source: 5, path: "/p".into() });
    assert_eq!(e.source(), 5);
    let f = failure_event(6, &OperationError::FileNotFound("/q".into()));
    assert_eq!(f, OperationManagerEvent::Failed { source: 6, error: "File doesn't exist: /q".into() });
    assert_eq!(f.source(), 6);
}

/// Runs a queued operation the way the manager does: the table records it,
/// each event updates the table and goes out as a manager event, and a
/// failure is reported at the end.
fn manage(op: Operation, fs: &mut FakeFs) -> (OperationTable, Vec<OperationManagerEvent>) {
    let mut table = OperationTable::new();
    table.queue_with_id(1, &op);
    let (events, result) = run(op, fs);
    let mut out = Vec::new();
    for e in events {
        table.apply(1, &e);
        out.push(manager_event(1, e));
    }
    if let Err(e) = &result {
        out.push(failure_event(1, e));
    }
    (table, out)
}

#[test]
fn test() {
    let mut fs = FakeFs::new(&["/t", "/t/src", "/t/dst"], &[("/t/src/file.txt", "hello")]);
    let (table, events) = manage(one_move(true, true), &mut fs);
    assert!(matches!(events.last(), Some(OperationManagerEvent::Completed { source: 1 })));
    assert!(table.get(1).is_none());
    assert!(fs.files.contains_key("/t/dst/file.txt"), "destination file should exist");
    assert!(!fs.files.contains_key("/t/src/file.txt"), "source file should be moved");
    assert!(!fs.dirs.contains("/t/src"), "empty source directory should be deleted");
}

#[test]
fn test_fail() {
    let mut fs = FakeFs::new(&["/t", "/t/src", "/t/dst"], &[]);
    let op = Operation::Move {
        paths: vec![("/t/src/file2.txt".to_string(), "/t/dst".to_string())],
        overwrite: true,
        delete_empty_directories_after: true,
    };
    let (table, events) = manage(op, &mut fs);
    match events.last() {
        Some(OperationManagerEvent::Failed { source, error }) => {
            assert_eq!(*source, 1);
            assert_eq!(error, "File doesn't exist: /t/src/file2.txt");
        }
        other => panic!("unexpected {other:?}"),
    }
    // A failed operation is not removed by an event of its own.
    assert!(table.get(1).is_some());
}

#[test]
fn copying_keeps_the_source() {
    let mut fs = FakeFs::new(&["/t", "/t/dst"], &[("/t/a.txt", "x")]);
    let op = Operation::Copy { paths: vec![("/t/a.txt".to_string(), "/t/dst".to_string())], overwrite: false };
    let (events, result) = run(op, &mut fs);
    assert_eq!(result, Ok(()));
    assert_eq!(fs.files.get("/t/dst/a.txt"), Some(&"x".to_string()));
    assert_eq!(fs.files.get("/t/a.txt"), Some(&"x".to_string()));
    assert_eq!(events, vec![OperationEvent::Completed]);
}
