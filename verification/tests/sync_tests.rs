use graphsync::config::Config;
use graphsync::conflict::{
    conflict_copy_path, conflict_copy_path_on, operation_label, remote_delete_plan,
    remote_write_conflicts, DeletePlan,
};
use graphsync::device::SetupError;
use graphsync::engine::{
    background_step, check_start, classify_watch_path, diff_manifests, next_backoff_secs, pause_engine,
    plan_remote_event, record_publish_outcome, resume_engine, should_publish, LoopAction, LoopEvent,
    RemoteError, RemotePlan, RetryQueue, StartError, SyncStatus, WatchAction,
};
use graphsync::events::{FileOperation, PendingLocalChange, SyncEvent};
use graphsync::state::{FileStateEntry, ManifestEntry};

fn m(path: &str, sha: &str) -> ManifestEntry {
    ManifestEntry { path: path.into(), sha256: sha.into(), size: 1, mtime: 1, revision: 1 }
}

fn local(rev: u64, deleted: bool, sha: &str) -> FileStateEntry {
    FileStateEntry {
        relative_path: "a.md".into(),
        sha256: sha.into(),
        size: 1,
        mtime: 1,
        revision: rev,
        last_known_operation: FileOperation::Update,
        deleted,
    }
}

fn event(device: &str, op: FileOperation, rev: u64) -> SyncEvent {
    SyncEvent {
        event_id: "e1".into(),
        graph_id: "g".into(),
        device_id: device.into(),
        path: "a.md".into(),
        old_path: None,
        operation: op,
        sha256: None,
        size: 0,
        revision: rev,
        timestamp: "2026-08-21T00:00:00Z".into(),
    }
}

#[test]
fn labels() {
    assert_eq!(operation_label(FileOperation::Create), "CREATE");
    assert_eq!(operation_label(FileOperation::Update), "UPDATE");
    assert_eq!(operation_label(FileOperation::Delete), "DELETE");
    assert_eq!(operation_label(FileOperation::Rename), "RENAME");
}

#[test]
fn conflict_copy_names() {
    assert_eq!(conflict_copy_path_on("/r/pages/foo.md", "Laptop", "2026-08-21"), "/r/pages/foo (conflict - Laptop - 2026-08-21).md");
    assert_eq!(conflict_copy_path_on("/r/README", "PC", "2026-01-02"), "/r/README (conflict - PC - 2026-01-02)");
    assert_eq!(conflict_copy_path_on("/r/.bashrc", "PC", "d"), "/r/.bashrc (conflict - PC - d)");
    assert_eq!(conflict_copy_path_on("/r/a.tar.gz", "PC", "d"), "/r/a.tar (conflict - PC - d).gz");
    assert_eq!(conflict_copy_path_on("a.", "PC", "d"), "a (conflict - PC - d).");
    assert_eq!(conflict_copy_path_on("/", "PC", "d"), "./file (conflict - PC - d)");
    let today = conflict_copy_path("/r/x.md", "D");
    assert!(today.starts_with("/r/x (conflict - D - ") && today.ends_with(").md"));
    assert_eq!(today.len(), "/r/x (conflict - D - 2026-08-21).md".len());
}

#[test]
fn write_conflicts_only_on_newer_local_edit() {
    assert!(remote_write_conflicts(true, &Some(local(3, false, "l")), "r", 3));
    assert!(!remote_write_conflicts(true, &Some(local(2, false, "l")), "r", 3));
    assert!(!remote_write_conflicts(true, &Some(local(3, false, "r")), "r", 3));
    assert!(!remote_write_conflicts(true, &Some(local(3, true, "l")), "r", 3));
    assert!(!remote_write_conflicts(false, &Some(local(3, false, "l")), "r", 3));
    assert!(!remote_write_conflicts(true, &None, "r", 3));
}

#[test]
fn deletes_keep_unsynced_local_changes() {
    assert_eq!(remote_delete_plan(false, &None, true), DeletePlan::AlreadyGone);
    assert_eq!(remote_delete_plan(true, &Some(local(5, false, "h")), true), DeletePlan::KeepWithConflictCopy);
    assert_eq!(remote_delete_plan(true, &Some(local(5, true, "h")), true), DeletePlan::Keep);
    assert_eq!(remote_delete_plan(true, &None, false), DeletePlan::Delete);
    assert!(DeletePlan::Keep.kept_local());
    assert!(!DeletePlan::Delete.kept_local());
}

#[test]
fn missing_files_from_manifests() {
    let local = vec![m("a", "1"), m("b", "2")];
    let remote = vec![m("a", "1"), m("b", "3"), m("c", "4")];
    let d = diff_manifests(&local, &remote);
    assert_eq!(d.iter().map(|e| e.path.as_str()).collect::<Vec<_>>(), vec!["b", "c"]);
    assert!(diff_manifests(&remote, &remote).is_empty());
    assert_eq!(diff_manifests(&[], &remote).len(), 3);
    let dup = vec![m("a", "1"), m("a", "9")];
    assert_eq!(diff_manifests(&dup, &[m("a", "9")]).len(), 0);
    assert_eq!(diff_manifests(&dup, &[m("a", "1")]).len(), 1);
}

#[test]
fn remote_event_plans() {
    let folder = Some("/r".to_string());
    assert!(matches!(plan_remote_event(&event("me", FileOperation::Delete, 1), "me", &folder, &None), Ok(RemotePlan::Ignore)));
    assert!(matches!(plan_remote_event(&event("x", FileOperation::Delete, 1), "me", &None, &None), Err(RemoteError::MissingFolder)));
    assert!(matches!(plan_remote_event(&event("x", FileOperation::Delete, 1), "me", &folder, &Some(local(2, false, "h"))), Ok(RemotePlan::Delete { local_unsynced: true })));
    assert!(matches!(plan_remote_event(&event("x", FileOperation::Delete, 2), "me", &folder, &Some(local(2, false, "h"))), Ok(RemotePlan::Delete { local_unsynced: false })));
    assert!(matches!(plan_remote_event(&event("x", FileOperation::Rename, 1), "me", &folder, &None), Err(RemoteError::MissingOldPath)));
    assert!(matches!(plan_remote_event(&event("x", FileOperation::Update, 1), "me", &folder, &None), Err(RemoteError::MissingHash)));
    let mut e = event("x", FileOperation::Create, 1);
    e.sha256 = Some("hh".into());
    match plan_remote_event(&e, "me", &folder, &None) {
        Ok(RemotePlan::Download { hash }) => assert_eq!(hash, "hh"),
        _ => panic!("expected a download"),
    }
    let mut r = event("x", FileOperation::Rename, 1);
    r.old_path = Some("old.md".into());
    match plan_remote_event(&r, "me", &folder, &None) {
        Ok(RemotePlan::Rename { old_path }) => assert_eq!(old_path, "old.md"),
        _ => panic!("expected a rename"),
    }
}

#[test]
fn watch_notifications() {
    assert!(matches!(classify_watch_path("/r", "/r/a.tmp", false, true), WatchAction::Skip));
    assert!(matches!(classify_watch_path("/r", "/other/a.md", false, true), WatchAction::Skip));
    assert!(matches!(classify_watch_path("/r", "/r/dir", false, false), WatchAction::Skip));
    match classify_watch_path("/r", "/r/p/a.md", true, false) {
        WatchAction::RecordDelete(p) => assert_eq!(p, "p/a.md"),
        _ => panic!("expected a delete"),
    }
    match classify_watch_path("/r/", "/r/p/a.md", false, true) {
        WatchAction::RecordUpsert(p) => assert_eq!(p, "p/a.md"),
        _ => panic!("expected an upsert"),
    }
}

#[test]
fn start_checks() {
    let mut c = Config::with_identity("id".into(), "dev".into());
    assert_eq!(check_start(&c, true, true), Err(StartError::SetupIncomplete));
    c.setup_complete = true;
    assert_eq!(check_start(&c, true, true), Err(StartError::FolderNotConfigured));
    c.sync_folder = Some("/g".into());
    assert_eq!(check_start(&c, false, false), Err(StartError::Invalid(SetupError::FolderMissing)));
    assert_eq!(check_start(&c, true, true), Err(StartError::Invalid(SetupError::InvalidApiUrl)));
    c.api_url = "https://api.x".into();
    assert_eq!(check_start(&c, true, true).unwrap(), "/g");
}

#[test]
fn status_transitions() {
    let mut s = SyncStatus::idle();
    assert_eq!(s.status, "idle");
    s.starting("/g".into(), "dev".into(), false);
    assert_eq!(s.status, "starting");
    s.started();
    assert!(s.connected);
    assert_eq!((s.status.as_str(), s.last_sync.as_deref()), ("synced", Some("Just now")));
    s.paused_by_user();
    assert!(s.paused);
    assert_eq!(s.status, "paused");
    s.resumed_by_user();
    assert!(!s.paused);
    assert_eq!(s.status, "synced");
    s.publish_failed();
    s.publish_failed();
    assert_eq!((s.failed_events, s.status.as_str()), (2, "degraded"));
    s.set_pending(3);
    assert_eq!(s.pending_events, 3);
    s.start_failed();
    assert_eq!((s.status.as_str(), s.connected), ("error", false));
    let mut p = SyncStatus::idle();
    p.starting("/g".into(), "dev".into(), true);
    assert_eq!(p.status, "paused");
}

#[test]
fn status_without_engine() {
    let mut c = Config::with_identity("id".into(), "dev".into());
    c.paused = true;
    let s = SyncStatus::without_engine(&c);
    assert_eq!((s.status.as_str(), s.paused, s.device_name.as_str()), ("setup", true, "dev"));
    c.setup_complete = true;
    assert_eq!(SyncStatus::without_engine(&c).status, "idle");
}

#[test]
fn retry_queue_is_fifo() {
    let mut q = RetryQueue::new();
    let mut st = SyncStatus::idle();
    record_publish_outcome(&mut st, &mut q, event("a", FileOperation::Update, 1), false);
    record_publish_outcome(&mut st, &mut q, event("b", FileOperation::Update, 2), false);
    record_publish_outcome(&mut st, &mut q, event("c", FileOperation::Update, 3), true);
    assert_eq!(st.status, "synced");
    assert_eq!(st.failed_events, 2);
    assert_eq!(q.len(), 2);
    assert_eq!(q.pop().unwrap().device_id, "a");
    assert_eq!(q.pop().unwrap().device_id, "b");
    assert!(q.pop().is_none());
}

#[test]
fn backoff_doubles_up_to_a_minute() {
    assert_eq!(next_backoff_secs(2), 4);
    assert_eq!(next_backoff_secs(16), 32);
    assert_eq!(next_backoff_secs(32), 60);
    assert_eq!(next_backoff_secs(60), 60);
    assert_eq!(next_backoff_secs(29), 58);
    assert_eq!(next_backoff_secs(30), 60);
    assert_eq!(next_backoff_secs(u64::MAX), 60);
}

#[test]
fn events_from_local_changes() {
    let change = PendingLocalChange { path: "a.md".into(), old_path: None, operation: FileOperation::Update, sha256: Some("h".into()), size: 3, revision: 2 };
    let e = SyncEvent::from_local("g", "d", change);
    assert_eq!(e.event_id.len(), 36);
    assert_eq!((e.graph_id.as_str(), e.device_id.as_str(), e.path.as_str(), e.revision, e.size), ("g", "d", "a.md", 2, 3));
    assert!(e.timestamp.starts_with("20"));
    let t = e.timestamp.as_bytes();
    assert!(t.len() >= 25 && e.timestamp.ends_with("+00:00"));
    assert!(t[4] == b'-' && t[7] == b'-' && t[10] == b'T' && t[13] == b':' && t[16] == b':');
}

#[test]
fn conflict_copy_is_dated_like_a_calendar_day() {
    let p = conflict_copy_path("/r/x.md", "D");
    let date = &p["/r/x (conflict - D - ".len()..p.len() - ").md".len()];
    let b = date.as_bytes();
    assert_eq!(b.len(), 10);
    assert!(b[4] == b'-' && b[7] == b'-');
    assert!(b.iter().enumerate().all(|(i, c)| i == 4 || i == 7 || c.is_ascii_digit()));
}

#[test]
fn publish_outcome_keeps_connection_and_folder() {
    let mut q = RetryQueue::new();
    let mut st = SyncStatus::idle();
    st.starting("/g".into(), "dev".into(), false);
    st.started();
    st.last_sync = None;
    record_publish_outcome(&mut st, &mut q, event("a", FileOperation::Update, 1), false);
    assert!(st.last_sync.is_none());
    assert!(st.connected);
    assert_eq!((st.folder.as_deref(), st.device_name.as_str()), (Some("/g"), "dev"));
    record_publish_outcome(&mut st, &mut q, event("b", FileOperation::Update, 2), true);
    assert_eq!(st.last_sync.as_deref(), Some("Just now"));
    assert!(st.connected);
    assert_eq!((st.folder.as_deref(), st.device_name.as_str()), (Some("/g"), "dev"));
}

#[test]
fn pause_then_resume_restores_configuration() {
    let mut c = Config::with_identity("id".into(), "dev".into());
    c.api_url = "https://h".into();
    let mut s = SyncStatus::idle();
    s.starting("/g".into(), "dev".into(), false);
    s.started();
    assert!(should_publish(&c));
    pause_engine(&mut c, &mut s);
    assert!(c.paused && s.paused);
    assert_eq!(s.status, "paused");
    assert!(!should_publish(&c));
    resume_engine(&mut c, &mut s);
    assert!(!c.paused && !s.paused);
    assert_eq!(s.status, "synced");
    assert!(s.connected);
    assert_eq!((c.api_url.as_str(), c.device_id.as_str()), ("https://h", "id"));
    assert!(should_publish(&c));
}

#[test]
fn retry_round_takes_each_event_once() {
    let mut q = RetryQueue::new();
    let mut st = SyncStatus::idle();
    record_publish_outcome(&mut st, &mut q, event("a", FileOperation::Update, 1), false);
    record_publish_outcome(&mut st, &mut q, event("b", FileOperation::Update, 2), false);
    let round = q.take_round();
    assert_eq!(round.iter().map(|e| e.device_id.as_str()).collect::<Vec<_>>(), vec!["a", "b"]);
    assert_eq!(q.len(), 0);
    for e in round {
        record_publish_outcome(&mut st, &mut q, e, false);
    }
    assert_eq!(q.len(), 2);
    assert_eq!(st.failed_events, 4);
}

#[test]
fn background_loop_steps() {
    let mut backoff = 2;
    assert_eq!(background_step(&mut backoff, LoopEvent::RoundBegins { paused: true }), LoopAction::WaitThenRestart(2));
    assert_eq!(background_step(&mut backoff, LoopEvent::RoundBegins { paused: false }), LoopAction::RetryRound);
    assert_eq!(background_step(&mut backoff, LoopEvent::RetriesDone { graph_known: false }), LoopAction::EndRound(5));
    assert_eq!(background_step(&mut backoff, LoopEvent::RetriesDone { graph_known: true }), LoopAction::Poll);
    assert_eq!(background_step(&mut backoff, LoopEvent::Polled { ok: false }), LoopAction::BackOff(2));
    assert_eq!(backoff, 4);
    assert_eq!(background_step(&mut backoff, LoopEvent::BackedOff), LoopAction::EndRound(5));
    assert_eq!(background_step(&mut backoff, LoopEvent::Polled { ok: false }), LoopAction::BackOff(4));
    assert_eq!(backoff, 8);
    backoff = 40;
    assert_eq!(background_step(&mut backoff, LoopEvent::Polled { ok: false }), LoopAction::BackOff(40));
    assert_eq!(backoff, 60);
    assert_eq!(background_step(&mut backoff, LoopEvent::Polled { ok: false }), LoopAction::BackOff(60));
    assert_eq!(backoff, 60);
    assert_eq!(background_step(&mut backoff, LoopEvent::Polled { ok: true }), LoopAction::EndRound(5));
    assert_eq!(backoff, 2);
}
