use graphsync::events::FileOperation;
use graphsync::state::{DownloadError, FileStateEntry, LocalState};

fn entry(path: &str, rev: u64, deleted: bool) -> FileStateEntry {
    FileStateEntry {
        relative_path: path.to_string(),
        sha256: "h".into(),
        size: 1,
        mtime: 2,
        revision: rev,
        last_known_operation: FileOperation::Create,
        deleted,
    }
}

#[test]
fn upsert_then_read() {
    let mut s = LocalState::new();
    assert!(s.is_empty());
    assert_eq!(s.next_revision("a.md"), 1);
    s.upsert_file("a.md", "h1", 10, 100, 4, FileOperation::Create);
    let e = s.entry("a.md").unwrap();
    assert_eq!((e.sha256.as_str(), e.size, e.mtime, e.revision, e.deleted), ("h1", 10, 100, 4, false));
    assert_eq!(s.next_revision("a.md"), 5);
    s.upsert_file("a.md", "h2", 11, 101, 5, FileOperation::Update);
    assert_eq!(s.files.len(), 1);
    assert_eq!(s.entry("a.md").unwrap().sha256, "h2");
}

#[test]
fn deleted_files_leave_the_manifest() {
    let mut s = LocalState::new();
    s.upsert_file("a.md", "h1", 1, 1, 1, FileOperation::Create);
    s.upsert_file("b.md", "h2", 2, 2, 1, FileOperation::Create);
    assert_eq!(s.build_manifest().len(), 2);
    s.mark_deleted("a.md", 2);
    let m = s.build_manifest();
    assert_eq!(m.len(), 1);
    assert_eq!(m[0].path, "b.md");
    let e = s.entry("a.md").unwrap();
    assert!(e.deleted);
    assert_eq!(e.last_known_operation, FileOperation::Delete);
    assert_eq!(e.sha256, "");
    assert_eq!(e.revision, 2);
}

#[test]
fn rename_moves_entry() {
    let mut s = LocalState::new();
    s.upsert_file("old.md", "h", 3, 4, 1, FileOperation::Create);
    s.rename_path("old.md", "new.md", 7);
    assert!(s.entry("old.md").is_none());
    let e = s.entry("new.md").unwrap();
    assert_eq!((e.relative_path.as_str(), e.sha256.as_str(), e.revision), ("new.md", "h", 7));
    assert_eq!(e.last_known_operation, FileOperation::Rename);
    s.rename_path("missing.md", "x.md", 9);
    assert!(s.entry("x.md").is_none());
}

#[test]
fn scan_replaces_everything() {
    let mut s = LocalState::new();
    s.upsert_file("gone.md", "h", 1, 1, 9, FileOperation::Update);
    s.scan_folder("g1", vec![("a.md".into(), "ha".into(), 1, 10), ("b/c.md".into(), "hb".into(), 2, 20)]);
    assert_eq!(s.graph_id.as_deref(), Some("g1"));
    assert!(s.entry("gone.md").is_none());
    let e = s.entry("b/c.md").unwrap();
    assert_eq!((e.revision, e.last_known_operation), (1, FileOperation::Create));
}

#[test]
fn local_changes_get_next_revision() {
    let mut s = LocalState::new();
    let c = s.record_upsert("a.md", "h", 5, 6, FileOperation::Update);
    assert_eq!((c.revision, c.path.as_str(), c.sha256.as_deref(), c.size), (1, "a.md", Some("h"), 5));
    let d = s.record_delete("a.md");
    assert_eq!((d.revision, d.operation, d.sha256, d.size), (2, FileOperation::Delete, None, 0));
}

#[test]
fn downloads_checked_against_expected_hash() {
    let mut s = LocalState::new();
    s.upsert_file("a.md", "old", 1, 1, 3, FileOperation::Create);
    assert_eq!(s.accept_download("a.md", "want", "got", 9, 9), Err(DownloadError::HashMismatch));
    assert_eq!(s.entry("a.md").unwrap().sha256, "old");
    assert_eq!(s.accept_download("a.md", "want", "want", 9, 9), Ok(()));
    let e = s.entry("a.md").unwrap();
    assert_eq!((e.sha256.as_str(), e.revision, e.last_known_operation), ("want", 4, FileOperation::Update));
}

#[test]
fn loaded_state_keeps_last_duplicate() {
    let s = LocalState::from_parts(
        Some("g".into()),
        None,
        vec![("a".into(), entry("a", 1, false)), ("b".into(), entry("b", 1, true)), ("a".into(), entry("a", 2, false))],
        None,
    );
    assert_eq!(s.files.len(), 2);
    assert_eq!(s.entry("a").unwrap().revision, 2);
    let m = s.build_manifest();
    assert_eq!(m.len(), 1);
    assert_eq!(m[0].revision, 2);
}
