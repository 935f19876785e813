use std::collections::BTreeMap;

use muusik::jobs::{
    Job, JobBook, JobEvent, JobInfo, JobManagerError, JobManagerEvent, JobRegistry, JobRegistryError, JobStatus,
};
use muusik::scan::ScanSongs;
use muusik::db::Song;
use muusik::metadata::{ItemKey, Metadata};
use muusik::scan::{ScanNotice, ScanRequest};
use muusik::task::{
    Registry, RegistryError, RunEnd, Task, TaskError, TaskEvent, TaskEventType, TaskInfo, TaskRecord, TaskStatus,
};
use muusik::tasks::{
    library_tasks, scan_task_end, scan_task_event, LibraryTask, ScanSongs as ScanTask, ScanTaskEnd, UpdateNotice,
    UpdateReply, UpdateRequest, UpdateRun, UpdateSongs,
};

fn registry() -> JobRegistry<&'static str> {
    let mut registry = JobRegistry::new();
    registry
        .register_job(
            "test".to_string(),
            Job::new(
                JobInfo::new(
                    "Test Job".to_string(),
                    "Literally just a test job, what did you expect?".to_string(),
                    BTreeMap::new(),
                ),
                "handle",
            ),
        )
        .expect("Failed to register job");
    registry
}

#[test]
fn registering_a_job_twice_fails() {
    let mut registry = registry();
    let again = registry.register_job(
        "test".to_string(),
        Job::new(JobInfo::new("Other".into(), "".into(), BTreeMap::new()), "other"),
    );
    assert_eq!(again, Err(JobRegistryError::AlreadyExists));
    assert_eq!(registry.get("test").map(|j| j.info().name.clone()), Some("Test Job".to_string()));
    assert_eq!(registry.job_ids(), vec!["test".to_string()]);
}

#[test]
fn test_adding_fast_jobs() {
    let registry = registry();
    let mut book = JobBook::new(&registry);
    for _ in 0..100 {
        let (result, _) = book.queue(&registry, "test".to_string(), false, false);
        assert!(result.is_ok());
    }
    assert_eq!(book.queue_order().len(), 100);
}

#[test]
fn test_failing_adding_duplicate_jobs() {
    let registry = registry();
    let mut book = JobBook::new(&registry);
    let _ = book.queue(&registry, "test".to_string(), true, true);
    assert!(book.queue(&registry, "test".to_string(), true, true).0.is_err());
}

#[test]
fn unique_jobs_are_refused_while_queued() {
    let registry = registry();
    let mut book = JobBook::new(&registry);
    let (first, events) = book.queue_with_id(&registry, "test".to_string(), true, false, 1);
    assert_eq!(first, Ok(1));
    assert_eq!(events.len(), 2);
    assert!(matches!(events[0], JobManagerEvent::StateAdded { source: 1, .. }));
    assert!(matches!(&events[1], JobManagerEvent::OrderUpdated { queue } if queue == &vec![1]));
    let (second, events) = book.queue_with_id(&registry, "test".to_string(), true, false, 2);
    assert_eq!(second, Err(JobManagerError::AlreadyQueued));
    assert!(events.is_empty());
    assert!(book.state(2).is_none());
    // A job that is not unique may still be queued.
    assert_eq!(book.queue_with_id(&registry, "test".to_string(), false, false, 3).0, Ok(3));
}

#[test]
fn high_priority_jobs_go_first() {
    let registry = registry();
    let mut book = JobBook::new(&registry);
    book.queue_with_id(&registry, "test".to_string(), false, false, 1);
    book.queue_with_id(&registry, "test".to_string(), false, false, 2);
    book.queue_with_id(&registry, "test".to_string(), false, true, 3);
    assert_eq!(book.queue_order(), vec![3, 1, 2]);
    let (next, events) = book.start_next();
    let (id, item) = next.expect("a job");
    assert_eq!(id, 3);
    assert_eq!(item.job_id, "test");
    assert!(matches!(events[1], JobManagerEvent::Started { source: 3 }));
    assert_eq!(book.state(3).unwrap().status, JobStatus::InProgress);
    assert_eq!(book.queue_order(), vec![1, 2]);
}

#[test]
fn an_unknown_job_leaves_a_pending_state() {
    let registry = registry();
    let mut book = JobBook::new(&registry);
    let (result, events) = book.queue_with_id(&registry, "missing".to_string(), false, false, 9);
    assert_eq!(result, Err(JobManagerError::Registry(JobRegistryError::NotFound)));
    assert_eq!(events.len(), 1);
    assert_eq!(book.state(9).unwrap().status, JobStatus::Pending);
    assert!(book.queue_order().is_empty());
}

#[test]
fn test_cancelling_jobs() {
    let registry = registry();
    let mut book = JobBook::new(&registry);
    let (id, _) = book.queue(&registry, "test".to_string(), true, true);
    let id = id.expect("queued");
    let (started, _) = book.start_next();
    assert_eq!(started.map(|s| s.0), Some(id));
    let (result, events) = book.cancel_job_at(id, 42);
    assert_eq!(result, Ok(()));
    assert!(events.is_empty());
    let report = book.report_of("test").unwrap();
    assert_eq!(report.cancelled_at, Some(42));
    assert!(!report.completed_successfully);
    // The running job ends as cancelled and its state goes away.
    let events = book.finish_at(id, "test", Ok(()), true, 50);
    assert!(matches!(events[0], JobManagerEvent::Cancelled { .. }));
    assert!(book.state(id).is_none());
}

#[test]
fn cancelling_a_pending_job_undoes_its_queueing() {
    let registry = registry();
    let mut book = JobBook::new(&registry);
    book.queue_with_id(&registry, "test".to_string(), false, false, 1);
    book.queue_with_id(&registry, "test".to_string(), false, false, 2);
    let (result, events) = book.cancel_job_at(2, 0);
    assert_eq!(result, Ok(()));
    assert!(matches!(events[..], [JobManagerEvent::StateRemoved { source: 2 }]));
    assert_eq!(book.queue_order(), vec![1]);
    assert!(book.state(2).is_none());
    assert!(!book.is_queued(2));
    assert_eq!(book.cancel_job_at(2, 0).0, Err(JobManagerError::StateNotFound));
}

#[test]
fn finished_jobs_update_their_report() {
    let registry = registry();
    let mut book = JobBook::new(&registry);
    book.queue_with_id(&registry, "test".to_string(), false, false, 1);
    book.start_next();
    let events = book.job_event(1, JobEvent::StepCompleted { step: 1, value: Some("5".to_string()) });
    assert_eq!(events.len(), 2);
    let state = book.state(1).unwrap();
    assert_eq!(state.current_step, 2);
    assert_eq!(state.values.get(&1), Some(&"5".to_string()));
    let events = book.job_event(1, JobEvent::StepCompleted { step: 2, value: None });
    assert_eq!(events.len(), 2);
    assert_eq!(book.state(1).unwrap().values.get(&2), Some(&String::new()));
    let events = book.finish_at(1, "test", Ok(()), false, 77);
    match &events[0] {
        JobManagerEvent::Completed { source, report } => {
            assert_eq!(*source, 1);
            assert_eq!(report.completed_at, Some(77));
            assert!(report.completed_successfully);
        }
        other => panic!("unexpected {other:?}"),
    }
    assert!(matches!(events[1], JobManagerEvent::StateRemoved { source: 1 }));
    book.queue_with_id(&registry, "test".to_string(), false, false, 2);
    book.start_next();
    let events = book.finish_at(2, "test", Err("broken".to_string()), false, 80);
    assert!(matches!(&events[0], JobManagerEvent::Failed { message, .. } if message == "broken"));
    let report = book.report_of("test").unwrap();
    assert_eq!(report.completed_at, Some(80));
    assert!(!report.completed_successfully);
}

#[test]
fn scan_job_description() {
    let info = ScanSongs::<()>::job_info();
    assert_eq!(info.name, "Scan Songs");
    assert_eq!(info.steps.len(), 4);
    assert_eq!(info.steps.get(&4), Some(&"Applying and saving changes".to_string()));
}

#[test]
fn task_status_numbers() {
    assert!(TaskStatus::is_idle(0));
    assert!(TaskStatus::is_running(1));
    assert!(TaskStatus::is_stopped(2));
    assert!(TaskStatus::is_idle(7));
    assert!(!TaskStatus::is_running(7));
    for s in [TaskStatus::Idle, TaskStatus::Running, TaskStatus::Stopped] {
        assert_eq!(TaskStatus::from_number(s.number()), s);
        assert_eq!(TaskStatus::from(u8::from(s)), s);
    }
    assert_eq!(TaskStatus::default(), TaskStatus::Idle);
}

#[test]
fn task_infos_and_events() {
    let info = TaskInfo::new("scan", "Scan", "Scans", 3);
    assert_eq!((info.id.as_str(), info.name.as_str(), info.steps), ("scan", "Scan", 3));
    assert_eq!(TaskInfo::default().steps, 1);
    assert_eq!(TaskEvent::initial("scan-songs").message, "Initialized \"scan-songs\" event channel");
    let p = TaskEvent::progress("half", 5, 10, Some(2));
    assert_eq!((p.kind, p.current, p.total, p.step), (TaskEventType::Progress, Some(5), Some(10), Some(2)));
    assert_eq!(TaskEvent::error("x").kind, TaskEventType::Error);
    let done = TaskEvent::complete("done");
    assert_eq!((done.kind, done.message.as_str(), done.current), (TaskEventType::Complete, "done", None));
    assert_eq!(TaskError::Failed("boom".into()).message(), "Task failed: boom");
    assert_eq!(RegistryError::StateError(TaskError::Running).message(), "Could not set task state: Task is already running");
    assert_eq!(RegistryError::NotFound.status_code(), 404);
    assert_eq!(RegistryError::StateError(TaskError::Stop).status_code(), 400);
    assert_eq!(RegistryError::AlreadyExists.status_code(), 500);
}

struct Counter {
    info: TaskInfo,
    running: bool,
}

impl Task for Counter {
    fn spec_info(&self) -> TaskInfo {
        self.info.clone()
    }

    fn info(&self) -> &TaskInfo {
        &self.info
    }

    fn start(&mut self) -> Result<(), TaskError> {
        if self.running {
            return Err(TaskError::Running);
        }
        self.running = true;
        Ok(())
    }

    fn stop(&mut self) -> Result<(), TaskError> {
        if !self.running {
            return Err(TaskError::Stop);
        }
        self.running = false;
        Ok(())
    }

    fn spec_status(&self) -> TaskStatus {
        self.status()
    }

    fn status(&self) -> TaskStatus {
        if self.running { TaskStatus::Running } else { TaskStatus::Idle }
    }

    fn end_run(&mut self, _end: RunEnd) {
        self.running = false;
    }
}

fn counter(id: &str, name: &str) -> Counter {
    Counter { info: TaskInfo::new(id, name, "counts", 1), running: false }
}

#[test]
fn the_task_registry_keeps_names_unique() {
    let mut registry: Registry<Counter> = Registry::new();
    assert_eq!(registry.register(counter("a", "A")), Ok(()));
    assert_eq!(registry.register(counter("b", "A")), Err(RegistryError::AlreadyExists));
    assert_eq!(registry.register(counter("b", "B")), Ok(()));
    assert_eq!(registry.list(), vec!["a".to_string(), "b".to_string()]);
    assert_eq!(registry.list_tasks().iter().map(|i| i.name.clone()).collect::<Vec<_>>(), vec!["A", "B"]);
    assert_eq!(registry.start_task("a"), Ok(()));
    assert_eq!(registry.start_task("a"), Err(RegistryError::StateError(TaskError::Running)));
    assert_eq!(registry.stop_task("a"), Ok(()));
    assert_eq!(registry.stop_task("a"), Err(RegistryError::StateError(TaskError::Stop)));
    assert_eq!(registry.start_task("z"), Err(RegistryError::NotFound));
    assert_eq!(counter("q", "Q").id(), "q");
    assert_eq!(counter("q", "Q").name(), "Q");
}

#[test]
fn state_ids_list_running_and_queued_jobs() {
    let registry = registry();
    let mut book = JobBook::new(&registry);
    book.queue_with_id(&registry, "test".to_string(), false, false, 7);
    book.queue_with_id(&registry, "test".to_string(), false, false, 3);
    book.start_next();
    // The running job has left the queue order but keeps its state.
    assert_eq!(book.queue_order(), vec![3]);
    assert_eq!(book.state_ids(), vec![3, 7]);
    book.finish_at(7, "test", Ok(()), false, 1);
    assert_eq!(book.state_ids(), vec![3]);
}

#[test]
fn queueing_and_finishing_report_their_events() {
    let registry = registry();
    let mut book = JobBook::new(&registry);
    let (id, events) = book.queue(&registry, "test".to_string(), true, false);
    let id = id.expect("queued");
    assert!(matches!(events[0], JobManagerEvent::StateAdded { source, .. } if source == id));
    assert!(matches!(&events[1], JobManagerEvent::OrderUpdated { queue } if *queue == vec![id]));
    let (again, events) = book.queue(&registry, "test".to_string(), true, false);
    assert_eq!(again, Err(JobManagerError::AlreadyQueued));
    assert!(events.is_empty());
    book.start_next();
    let events = book.finish(id, "test", Err("boom".to_string()), false);
    assert!(matches!(&events[0], JobManagerEvent::Failed { message, .. } if message == "boom"));
    assert!(book.report_of("test").unwrap().completed_at.is_some());
    let (id2, _) = book.queue(&registry, "test".to_string(), false, false);
    let id2 = id2.unwrap();
    let (r, events) = book.cancel_job(id2);
    assert_eq!(r, Ok(()));
    assert!(matches!(events[..], [JobManagerEvent::StateRemoved { source }] if source == id2));
}

#[test]
fn the_library_tasks_start_and_stop() {
    let mut registry = library_tasks();
    assert_eq!(registry.list(), vec!["scan-songs".to_string(), "update-songs".to_string()]);
    assert_eq!(registry.status_of("update-songs"), Some(TaskStatus::Idle));
    assert_eq!(registry.stop_task("update-songs"), Err(RegistryError::StateError(TaskError::Stop)));
    assert_eq!(registry.start_task("update-songs"), Ok(()));
    assert_eq!(registry.status_of("update-songs"), Some(TaskStatus::Running));
    assert_eq!(registry.status_of("scan-songs"), Some(TaskStatus::Idle));
    assert_eq!(registry.start_task("update-songs"), Err(RegistryError::StateError(TaskError::Running)));
    assert_eq!(registry.stop_task("update-songs"), Ok(()));
    assert_eq!(registry.status_of("update-songs"), Some(TaskStatus::Stopped));
    assert_eq!(registry.end_run("update-songs", RunEnd::Stopped), Ok(()));
    assert_eq!(registry.status_of("update-songs"), Some(TaskStatus::Idle));
    assert_eq!(registry.end_run("nothing", RunEnd::Stopped), Err(RegistryError::NotFound));
    assert_eq!(registry.status_of("nothing"), None);
    match registry.get("scan-songs") {
        Some(LibraryTask::Scan(t)) => assert_eq!(t.record.info.steps, 3),
        _ => panic!("the scan task is registered"),
    }
    assert_eq!(registry.register(LibraryTask::Update(UpdateSongs::new())), Err(RegistryError::AlreadyExists));
}

#[test]
fn task_records_stamp_their_runs() {
    let mut record = TaskRecord::new(TaskInfo::new("t", "T", "d", 1));
    assert_eq!(record.start(), Ok(()));
    assert!(record.started_at.is_some());
    assert_eq!(record.start(), Err(TaskError::Running));
    record.end_run(RunEnd::Completed);
    assert_eq!(record.status, TaskStatus::Idle);
    assert!(record.completed_at.is_some() && record.cancelled_at.is_none());
    assert_eq!(record.start(), Ok(()));
    record.end_run(RunEnd::Cancelled);
    assert!(record.cancelled_at.is_some());
    let cancelled = record.cancelled_at;
    assert_eq!(record.start(), Ok(()));
    assert_eq!(record.stop(), Ok(()));
    assert_eq!(record.status, TaskStatus::Stopped);
    record.end_run(RunEnd::Stopped);
    assert_eq!((record.status, record.cancelled_at), (TaskStatus::Idle, cancelled));
    assert_eq!(record.stop(), Err(TaskError::Stop));
}

#[test]
fn the_two_tasks_describe_themselves() {
    let update = UpdateSongs::new();
    assert_eq!(update.info().id, "update-songs");
    assert_eq!(update.name(), "Update Songs");
    assert_eq!(update.info().steps, 2);
    let scan = ScanTask::new();
    assert_eq!(scan.id(), "scan-songs");
    assert_eq!(scan.info().description, "Scans for new songs, updates existing ones, and deletes songs that no longer exist");
    assert_eq!(scan.status(), TaskStatus::Idle);
}

fn stored_song(id: &str, path: &str, title: &str) -> Song {
    Song {
        id: id.to_string(),
        path: path.to_string(),
        title: Some(title.to_string()),
        file_created_at: Some(5),
        directory_id: "d".to_string(),
        ..Default::default()
    }
}

fn titled(title: &str) -> Metadata {
    Metadata::new(vec![(ItemKey::Title, title.to_string())], vec![])
}

#[test]
fn an_update_without_songs_is_cancelled() {
    let (mut run, step) = UpdateRun::new();
    assert_eq!(step.notices, vec![UpdateNotice::Start]);
    assert!(matches!(step.request, UpdateRequest::Songs));
    let step = run.step(UpdateReply::Songs(vec![]));
    assert_eq!(step.notices, vec![UpdateNotice::NoSongs]);
    assert!(matches!(step.request, UpdateRequest::Finish(RunEnd::Cancelled)));
}

#[test]
fn an_update_with_nothing_out_of_date_is_cancelled() {
    let (mut run, _) = UpdateRun::new();
    let step = run.step(UpdateReply::Songs(vec![stored_song("a", "/a.mp3", "A")]));
    assert_eq!(step.notices, vec![UpdateNotice::Found { count: 1 }, UpdateNotice::Comparing { current: 0, total: 1 }]);
    assert!(matches!(&step.request, UpdateRequest::ReadTags(p) if p == "/a.mp3"));
    let step = run.step(UpdateReply::Tags(Ok(titled("A")), Some(5)));
    assert_eq!(step.notices, vec![UpdateNotice::NothingChanged]);
    assert!(matches!(step.request, UpdateRequest::Finish(RunEnd::Cancelled)));
}

#[test]
fn an_update_applies_only_the_changed_songs() {
    let (mut run, _) = UpdateRun::new();
    let songs = vec![stored_song("a", "/a.mp3", "A"), stored_song("b", "/b.mp3", "B"), stored_song("c", "/c.mp3", "C")];
    let step = run.step(UpdateReply::Songs(songs));
    assert!(matches!(&step.request, UpdateRequest::ReadTags(p) if p == "/a.mp3"));
    let step = run.step(UpdateReply::Tags(Ok(titled("A2")), Some(5)));
    assert!(step.notices.is_empty());
    assert!(matches!(&step.request, UpdateRequest::ReadTags(p) if p == "/b.mp3"));
    let step = run.step(UpdateReply::Tags(Err("unreadable".to_string()), None));
    assert!(matches!(&step.request, UpdateRequest::ReadTags(p) if p == "/c.mp3"));
    let step = run.step(UpdateReply::Tags(Ok(titled("C")), Some(9)));
    assert_eq!(step.notices, vec![UpdateNotice::Updating { count: 2 }]);
    assert!(matches!(step.request, UpdateRequest::Begin));
    // A reply that answers nothing changes nothing.
    let step = run.step(UpdateReply::Flag(true));
    assert!(step.notices.is_empty() && matches!(step.request, UpdateRequest::Begin));
    let step = run.step(UpdateReply::Done);
    assert!(matches!(step.request, UpdateRequest::Stopped));
    let step = run.step(UpdateReply::Flag(false));
    match &step.request {
        UpdateRequest::Update(c) => {
            assert_eq!((c.id.as_str(), c.values.title.as_deref(), c.created), ("a", Some("A2"), Some(5)));
        }
        other => panic!("unexpected {other:?}"),
    }
    let step = run.step(UpdateReply::Done);
    assert_eq!(step.notices, vec![UpdateNotice::Updated { current: 0, total: 2 }]);
    assert!(matches!(step.request, UpdateRequest::Stopped));
    let step = run.step(UpdateReply::Flag(false));
    match &step.request {
        UpdateRequest::Update(c) => assert_eq!((c.id.as_str(), c.values.title.as_deref(), c.created), ("c", Some("C"), Some(9))),
        other => panic!("unexpected {other:?}"),
    }
    let step = run.step(UpdateReply::Done);
    assert_eq!(step.notices, vec![UpdateNotice::Saving { total: 2 }]);
    assert!(matches!(step.request, UpdateRequest::Commit));
    let step = run.step(UpdateReply::Done);
    assert_eq!(step.notices, vec![UpdateNotice::Complete]);
    assert!(matches!(step.request, UpdateRequest::Finish(RunEnd::Completed)));
}

#[test]
fn a_stopped_update_ends_before_the_next_change() {
    let (mut run, _) = UpdateRun::new();
    run.step(UpdateReply::Songs(vec![stored_song("a", "/a.mp3", "A")]));
    run.step(UpdateReply::Tags(Ok(titled("new")), Some(5)));
    run.step(UpdateReply::Done);
    let step = run.step(UpdateReply::Flag(true));
    assert!(step.notices.is_empty());
    assert!(matches!(step.request, UpdateRequest::Finish(RunEnd::Stopped)));
}

#[test]
fn update_notices_become_task_events() {
    let e = UpdateNotice::Comparing { current: 1, total: 3 }.event();
    assert_eq!((e.kind, e.message.as_str(), e.current, e.total, e.step), (TaskEventType::Progress, "Comparing metadata 33%", Some(1), Some(3), Some(1)));
    let e = UpdateNotice::Found { count: 12 }.event();
    assert_eq!((e.kind, e.message.as_str()), (TaskEventType::Info, "Found 12 song(s), comparing metadata..."));
    let e = UpdateNotice::Updated { current: 100, total: 250 }.event();
    assert_eq!(e.message, "Updating songs with new metadata 40%");
    assert_eq!(e.step, Some(2));
    let e = UpdateNotice::Saving { total: 7 }.event();
    assert_eq!((e.message.as_str(), e.current, e.total), ("Updated 7 song(s)... saving changes", Some(7), Some(7)));
    assert_eq!(UpdateNotice::NoSongs.event().message, "No Songs found, cancelling update");
    assert_eq!(UpdateNotice::NothingChanged.event().kind, TaskEventType::Stop);
    assert_eq!(UpdateNotice::Updating { count: 2 }.event().message, "Updating 2 song(s)...");
    assert_eq!(UpdateNotice::Start.event().kind, TaskEventType::Start);
    assert_eq!(UpdateNotice::Complete.event().message, "Song update complete");
}

#[test]
fn scan_notices_become_task_events() {
    let e = scan_task_event(&ScanNotice::Found { step: 2, count: 5 }).unwrap();
    assert_eq!((e.kind, e.message.as_str()), (TaskEventType::Info, "Found 5 new song(s)..."));
    let e = scan_task_event(&ScanNotice::Found { step: 1, count: 0 }).unwrap();
    assert_eq!(e.message, "Found 0 existing song(s) that no longer exist... scanning for new songs");
    let e = scan_task_event(&ScanNotice::Found { step: 3, count: 0 }).unwrap();
    assert_eq!((e.kind, e.current, e.total, e.step), (TaskEventType::Progress, Some(1), Some(1), Some(2)));
    assert!(scan_task_event(&ScanNotice::Comparing { current: 3, total: 10 }).is_none());
    let e = scan_task_event(&ScanNotice::Comparing { current: 50, total: 200 }).unwrap();
    assert_eq!(e.message, "Comparing metadata 25%");
    let e = scan_task_event(&ScanNotice::Applied { current: 100, total: 400 }).unwrap();
    assert_eq!((e.message.as_str(), e.step), ("Applying changes... 25%", Some(3)));
    assert!(scan_task_event(&ScanNotice::Applied { current: 99, total: 400 }).is_none());
    assert!(scan_task_event(&ScanNotice::Unreadable("x".to_string())).is_none());
    assert_eq!(scan_task_event(&ScanNotice::Saved).unwrap().message, "Finished applying changes, saving changes...");
}

#[test]
fn scan_task_endings() {
    let ok: Result<(), String> = Ok(());
    assert_eq!(scan_task_end(&ScanRequest::Directories, false, &ok), ScanTaskEnd::NoDirectories);
    assert_eq!(scan_task_end(&ScanRequest::Cancelled, true, &ok), ScanTaskEnd::Cancelled);
    assert_eq!(scan_task_end(&ScanRequest::Cancelled, false, &ok), ScanTaskEnd::NothingChanged);
    assert_eq!(scan_task_end(&ScanRequest::Report(ScanNotice::Saved), false, &ok), ScanTaskEnd::Completed);
    assert_eq!(scan_task_end(&ScanRequest::ReadTags("/a".to_string()), false, &ok), ScanTaskEnd::NothingChanged);
    assert_eq!(scan_task_end(&ScanRequest::Begin, false, &Err("disk".to_string())), ScanTaskEnd::Failed("disk".to_string()));
    assert_eq!(ScanTaskEnd::Completed.run_end(), RunEnd::Completed);
    assert_eq!(ScanTaskEnd::NothingChanged.run_end(), RunEnd::Cancelled);
    assert_eq!(ScanTaskEnd::NoDirectories.run_end(), RunEnd::Stopped);
    assert_eq!(ScanTaskEnd::NoDirectories.event().message, "No directories found, cancelling scan");
    assert_eq!(ScanTaskEnd::Cancelled.event().message, "Scan cancelled");
    assert_eq!(ScanTaskEnd::Failed("x".to_string()).event().message, "Song scan failed: x");
}
