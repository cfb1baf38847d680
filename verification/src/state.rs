//! The local sync state: what this device knows of every file in the folder.
//!
//! The state maps each relative path to the last known entry for it. It is
//! stored as a list of `(path, entry)` pairs in which no path occurs twice; its
//! view is the map from paths to entries.
use vstd::prelude::*;

use crate::config::copy_opt_string;
use crate::events::{FileOperation, PendingLocalChange};
use crate::text::{chars_eq, chars_of};

verus! {

/// What this device last knew of one file.
#[derive(Debug)]
pub struct FileStateEntry {
    pub relative_path: String,
    pub sha256: String,
    pub size: u64,
    pub mtime: i64,
    pub revision: u64,
    pub last_known_operation: FileOperation,
    pub deleted: bool,
}

/// The values of a file entry.
pub struct FileEntryView {
    pub relative_path: Seq<char>,
    pub sha256: Seq<char>,
    pub size: u64,
    pub mtime: i64,
    pub revision: u64,
    pub operation: FileOperation,
    pub deleted: bool,
}

impl View for FileStateEntry {
    type V = FileEntryView;

    open spec fn view(&self) -> FileEntryView {
        FileEntryView {
            relative_path: self.relative_path@,
            sha256: self.sha256@,
            size: self.size,
            mtime: self.mtime,
            revision: self.revision,
            operation: self.last_known_operation,
            deleted: self.deleted,
        }
    }
}

impl FileStateEntry {
    /// A copy of this entry.
    pub fn copy(&self) -> (r: FileStateEntry)
        ensures
            r@ == self@,
    {
        FileStateEntry {
            relative_path: self.relative_path.clone(),
            sha256: self.sha256.clone(),
            size: self.size,
            mtime: self.mtime,
            revision: self.revision,
            last_known_operation: self.last_known_operation,
            deleted: self.deleted,
        }
    }
}

/// One file of a manifest: a file this device holds.
#[derive(Debug)]
pub struct ManifestEntry {
    pub path: String,
    pub sha256: String,
    pub size: u64,
    pub mtime: i64,
    pub revision: u64,
}

/// The values of a manifest entry.
pub struct ManifestView {
    pub path: Seq<char>,
    pub sha256: Seq<char>,
    pub size: u64,
    pub mtime: i64,
    pub revision: u64,
}

impl View for ManifestEntry {
    type V = ManifestView;

    open spec fn view(&self) -> ManifestView {
        ManifestView {
            path: self.path@,
            sha256: self.sha256@,
            size: self.size,
            mtime: self.mtime,
            revision: self.revision,
        }
    }
}

impl ManifestEntry {
    /// A copy of this manifest entry.
    pub fn copy(&self) -> (r: ManifestEntry)
        ensures
            r@ == self@,
    {
        ManifestEntry {
            path: self.path.clone(),
            sha256: self.sha256.clone(),
            size: self.size,
            mtime: self.mtime,
            revision: self.revision,
        }
    }
}

/// The manifest entry of a file entry.
pub open spec fn to_manifest(e: FileEntryView) -> ManifestView {
    ManifestView {
        path: e.relative_path,
        sha256: e.sha256,
        size: e.size,
        mtime: e.mtime,
        revision: e.revision,
    }
}

/// The state this device keeps of the sync folder.
#[derive(Debug)]
pub struct LocalState {
    pub graph_id: Option<String>,
    pub last_event_cursor: Option<String>,
    pub files: Vec<(String, FileStateEntry)>,
    pub updated_at: Option<String>,
}

/// The entry stored under `k`: the last pair whose path is `k`.
pub open spec fn lookup(files: Seq<(String, FileStateEntry)>, k: Seq<char>) -> Option<FileEntryView>
    decreases files.len(),
{
    if files.len() == 0 {
        None
    } else if files.last().0@ == k {
        Some(files.last().1@)
    } else {
        lookup(files.drop_last(), k)
    }
}

/// The map from paths to entries that a list of pairs stands for.
pub open spec fn files_map(files: Seq<(String, FileStateEntry)>) -> Map<Seq<char>, FileEntryView> {
    Map::new(|k: Seq<char>| lookup(files, k) is Some, |k: Seq<char>| lookup(files, k)->Some_0)
}

/// No path occurs twice.
pub open spec fn keys_unique(files: Seq<(String, FileStateEntry)>) -> bool {
    forall|i: int, j: int|
        0 <= i < files.len() && 0 <= j < files.len() && i != j ==> #[trigger] files[i].0@
            != #[trigger] files[j].0@
}

impl View for LocalState {
    type V = Map<Seq<char>, FileEntryView>;

    open spec fn view(&self) -> Map<Seq<char>, FileEntryView> {
        files_map(self.files@)
    }
}

/// The entry written for a file that now exists.
pub open spec fn present_entry(
    path: Seq<char>,
    sha256: Seq<char>,
    size: u64,
    mtime: i64,
    revision: u64,
    operation: FileOperation,
) -> FileEntryView {
    FileEntryView {
        relative_path: path,
        sha256,
        size,
        mtime,
        revision,
        operation,
        deleted: false,
    }
}

/// The entry written for a file that was deleted.
pub open spec fn deleted_entry(path: Seq<char>, revision: u64) -> FileEntryView {
    FileEntryView {
        relative_path: path,
        sha256: Seq::empty(),
        size: 0,
        mtime: 0,
        revision,
        operation: FileOperation::Delete,
        deleted: true,
    }
}

/// The revision the next change of `path` gets: one past the known one, or 1.
pub open spec fn next_revision_of(m: Map<Seq<char>, FileEntryView>, path: Seq<char>) -> int {
    if m.contains_key(path) {
        m[path].revision + 1
    } else {
        1
    }
}

/// The known revision of `path`, if any, leaves room for one more.
pub open spec fn has_revision_room(m: Map<Seq<char>, FileEntryView>, path: Seq<char>) -> bool {
    m.contains_key(path) ==> m[path].revision < u64::MAX
}

/// The manifest entries of the files that are not deleted, in stored order.
pub open spec fn manifest_of(files: Seq<(String, FileStateEntry)>) -> Seq<ManifestView>
    decreases files.len(),
{
    if files.len() == 0 {
        Seq::empty()
    } else {
        let rest = manifest_of(files.drop_last());
        if !files.last().1.deleted {
            rest.push(to_manifest(files.last().1@))
        } else {
            rest
        }
    }
}

/// The map a folder scan yields: every scanned file at revision 1, created.
pub open spec fn scanned_map(scanned: Seq<(String, String, u64, i64)>) -> Map<Seq<char>, FileEntryView>
    decreases scanned.len(),
{
    if scanned.len() == 0 {
        Map::empty()
    } else {
        let l = scanned.last();
        scanned_map(scanned.drop_last()).insert(
            l.0@,
            present_entry(l.0@, l.1@, l.2, l.3, 1, FileOperation::Create),
        )
    }
}

// ---------------------------------------------------------------------------
// Lemmas on the stored pairs
// ---------------------------------------------------------------------------

/// With unique paths, the entry under `k` is the one of the pair whose path is `k`.
pub proof fn lemma_lookup(files: Seq<(String, FileStateEntry)>, k: Seq<char>)
    requires
        keys_unique(files),
    ensures
        (lookup(files, k) is Some) <==> (exists|j: int| 0 <= j < files.len() && #[trigger] files[j].0@ == k),
        forall|j: int| 0 <= j < files.len() && #[trigger] files[j].0@ == k ==> lookup(files, k) == Some(files[j].1@),
    decreases files.len(),
{
    if files.len() > 0 {
        let t = files.drop_last();
        assert(keys_unique(t)) by {
            assert forall|i: int, j: int| 0 <= i < t.len() && 0 <= j < t.len() && i != j implies #[trigger] t[i].0@
                != #[trigger] t[j].0@ by {
                assert(t[i] == files[i] && t[j] == files[j]);
            }
        }
        lemma_lookup(t, k);
        if files.last().0@ == k {
            assert forall|j: int| 0 <= j < files.len() && #[trigger] files[j].0@ == k implies j == files.len() - 1 by {
                if j != files.len() - 1 {
                    assert(files[j].0@ != files[files.len() - 1].0@);
                }
            }
        } else {
            assert forall|j: int| 0 <= j < files.len() && #[trigger] files[j].0@ == k implies j < files.len() - 1
                && t[j] == files[j] by {}
            if exists|j: int| 0 <= j < files.len() && #[trigger] files[j].0@ == k {
                let j = choose|j: int| 0 <= j < files.len() && #[trigger] files[j].0@ == k;
                assert(t[j].0@ == k);
            }
        }
    }
}

/// The map of the pairs after the pair at `i` is replaced by one with the same path.
proof fn lemma_map_after_set(
    files: Seq<(String, FileStateEntry)>,
    i: int,
    x: (String, FileStateEntry),
)
    requires
        keys_unique(files),
        0 <= i < files.len(),
        x.0@ == files[i].0@,
    ensures
        keys_unique(files.update(i, x)),
        files_map(files.update(i, x)) == files_map(files).insert(x.0@, x.1@),
{
    let n = files.update(i, x);
    assert(keys_unique(n)) by {
        assert forall|a: int, b: int| 0 <= a < n.len() && 0 <= b < n.len() && a != b implies #[trigger] n[a].0@
            != #[trigger] n[b].0@ by {
            assert(n[a].0@ == files[a].0@);
            assert(n[b].0@ == files[b].0@);
        }
    }
    assert forall|k: Seq<char>| #[trigger] lookup(n, k) == (if k == x.0@ {
        Some(x.1@)
    } else {
        lookup(files, k)
    }) by {
        lemma_lookup(n, k);
        lemma_lookup(files, k);
        if k == x.0@ {
            assert(n[i].0@ == k);
        } else {
            if lookup(files, k) is Some {
                let j = choose|j: int| 0 <= j < files.len() && #[trigger] files[j].0@ == k;
                assert(n[j] == files[j]);
            }
            if lookup(n, k) is Some {
                let j = choose|j: int| 0 <= j < n.len() && #[trigger] n[j].0@ == k;
                assert(n[j] == files[j]);
            }
        }
    }
    assert(files_map(n) =~= files_map(files).insert(x.0@, x.1@));
}

/// The map of the pairs after a pair with a new path is appended.
proof fn lemma_map_after_push(files: Seq<(String, FileStateEntry)>, x: (String, FileStateEntry))
    requires
        keys_unique(files),
        forall|j: int| 0 <= j < files.len() ==> #[trigger] files[j].0@ != x.0@,
    ensures
        keys_unique(files.push(x)),
        files_map(files.push(x)) == files_map(files).insert(x.0@, x.1@),
{
    let n = files.push(x);
    assert(keys_unique(n)) by {
        assert forall|a: int, b: int| 0 <= a < n.len() && 0 <= b < n.len() && a != b implies #[trigger] n[a].0@
            != #[trigger] n[b].0@ by {
            if a < files.len() && b < files.len() {
                assert(n[a] == files[a] && n[b] == files[b]);
            } else if a < files.len() {
                assert(n[a] == files[a]);
            } else {
                assert(n[b] == files[b]);
            }
        }
    }
    assert(n.drop_last() =~= files);
    assert forall|k: Seq<char>| #[trigger] lookup(n, k) == (if k == x.0@ {
        Some(x.1@)
    } else {
        lookup(files, k)
    }) by {}
    assert(files_map(n) =~= files_map(files).insert(x.0@, x.1@));
}

/// The map of the pairs after the pair at `i` is taken out.
proof fn lemma_map_after_remove(files: Seq<(String, FileStateEntry)>, i: int)
    requires
        keys_unique(files),
        0 <= i < files.len(),
    ensures
        keys_unique(files.remove(i)),
        files_map(files.remove(i)) == files_map(files).remove(files[i].0@),
{
    let n = files.remove(i);
    let key = files[i].0@;
    assert forall|j: int| 0 <= j < n.len() implies #[trigger] n[j] == (if j < i {
        files[j]
    } else {
        files[j + 1]
    }) by {}
    assert(keys_unique(n)) by {
        assert forall|a: int, b: int| 0 <= a < n.len() && 0 <= b < n.len() && a != b implies #[trigger] n[a].0@
            != #[trigger] n[b].0@ by {
            let fa = if a < i { a } else { a + 1 };
            let fb = if b < i { b } else { b + 1 };
            assert(n[a] == files[fa] && n[b] == files[fb]);
        }
    }
    assert forall|k: Seq<char>| #[trigger] lookup(n, k) == (if k == key {
        None
    } else {
        lookup(files, k)
    }) by {
        lemma_lookup(n, k);
        lemma_lookup(files, k);
        if lookup(n, k) is Some {
            let j = choose|j: int| 0 <= j < n.len() && #[trigger] n[j].0@ == k;
            let fj = if j < i { j } else { j + 1 };
            assert(n[j] == files[fj]);
            if k == key {
                assert(files[fj].0@ == files[i].0@);
            }
        }
        if k != key && lookup(files, k) is Some {
            let j = choose|j: int| 0 <= j < files.len() && #[trigger] files[j].0@ == k;
            assert(j != i);
            let nj = if j < i { j } else { j - 1 };
            assert(n[nj] == files[j]);
        }
    }
    assert(files_map(n) =~= files_map(files).remove(key));
}

/// No pairs stand for the empty map, and have no repeated path.
proof fn lemma_empty_map()
    ensures
        files_map(Seq::<(String, FileStateEntry)>::empty()) == Map::<Seq<char>, FileEntryView>::empty(),
        keys_unique(Seq::<(String, FileStateEntry)>::empty()),
{
    assert(files_map(Seq::<(String, FileStateEntry)>::empty()) =~= Map::<Seq<char>, FileEntryView>::empty());
}

impl LocalState {
    /// The state is well formed: no path is stored twice.
    pub open spec fn wf(&self) -> bool {
        keys_unique(self.files@)
    }

    /// An empty state: no graph, no cursor, no files.
    pub fn new() -> (r: LocalState)
        ensures
            r.wf(),
            r@ == Map::<Seq<char>, FileEntryView>::empty(),
            r.graph_id is None,
            r.last_event_cursor is None,
            r.updated_at is None,
    {
        proof {
            lemma_empty_map();
        }
        LocalState { graph_id: None, last_event_cursor: None, files: Vec::new(), updated_at: None }
    }

    /// The position of the pair stored under `path`, if any.
    fn find(&self, path: &str) -> (r: Option<usize>)
        ensures
            match r {
                Some(i) => i < self.files@.len() && self.files@[i as int].0@ == path@,
                None => forall|j: int| 0 <= j < self.files@.len() ==> #[trigger] self.files@[j].0@ != path@,
            },
    {
        let p = chars_of(path);
        let mut i: usize = 0;
        while i < self.files.len()
            invariant
                p@ == path@,
                i <= self.files@.len(),
                forall|j: int| 0 <= j < i ==> #[trigger] self.files@[j].0@ != path@,
            decreases self.files@.len() - i,
        {
            let k = chars_of(self.files[i].0.as_str());
            if chars_eq(k.as_slice(), p.as_slice()) {
                return Some(i);
            }
            i = i + 1;
        }
        None
    }

    /// Stores `entry` under `key`, replacing what was stored there.
    fn insert_entry(&mut self, key: String, entry: FileStateEntry)
        requires
            old(self).wf(),
        ensures
            final(self).wf(),
            final(self)@ == old(self)@.insert(key@, entry@),
            final(self).graph_id == old(self).graph_id,
            final(self).last_event_cursor == old(self).last_event_cursor,
            final(self).updated_at == old(self).updated_at,
    {
        let ghost k = key@;
        let ghost e = entry@;
        match self.find(key.as_str()) {
            Some(i) => {
                proof {
                    lemma_map_after_set(self.files@, i as int, (key, entry));
                }
                self.files.set(i, (key, entry));
            },
            None => {
                proof {
                    lemma_map_after_push(self.files@, (key, entry));
                }
                self.files.push((key, entry));
            },
        }
    }

    /// The entry stored under `path`, copied.
    pub fn entry(&self, path: &str) -> (r: Option<FileStateEntry>)
        requires
            self.wf(),
        ensures
            match r {
                Some(e) => self@.contains_key(path@) && e@ == self@[path@],
                None => !self@.contains_key(path@),
            },
    {
        proof {
            lemma_lookup(self.files@, path@);
        }
        match self.find(path) {
            Some(i) => Some(self.files[i].1.copy()),
            None => None,
        }
    }

    /// Whether no file is known.
    pub fn is_empty(&self) -> (r: bool)
        requires
            self.wf(),
        ensures
            r == (self@.dom() == Set::<Seq<char>>::empty()),
    {
        let r = self.files.len() == 0;
        proof {
            if r {
                assert(self.files@ =~= Seq::<(String, FileStateEntry)>::empty());
                lemma_empty_map();
                assert(self@.dom() =~= Set::<Seq<char>>::empty());
            } else {
                let k = self.files@[0].0@;
                lemma_lookup(self.files@, k);
                assert(self@.dom().contains(k));
            }
        }
        r
    }

    /// The revision the next change of `path` gets: one past the known
    /// revision, or 1 for a file not known yet. The state is not changed.
    pub fn next_revision(&mut self, path: &str) -> (r: u64)
        requires
            old(self).wf(),
            has_revision_room(old(self)@, path@),
        ensures
            r == next_revision_of(old(self)@, path@),
            *final(self) == *old(self),
    {
        proof {
            lemma_lookup(self.files@, path@);
        }
        match self.find(path) {
            Some(i) => self.files[i].1.revision + 1,
            None => 1,
        }
    }

    /// Records that `path` exists with the given content hash, size, time,
    /// revision and last operation.
    pub fn upsert_file(
        &mut self,
        path: &str,
        sha256: &str,
        size: u64,
        mtime: i64,
        revision: u64,
        operation: FileOperation,
    )
        requires
            old(self).wf(),
        ensures
            final(self).wf(),
            final(self)@ == old(self)@.insert(
                path@,
                present_entry(path@, sha256@, size, mtime, revision, operation),
            ),
            final(self).graph_id == old(self).graph_id,
            final(self).last_event_cursor == old(self).last_event_cursor,
            final(self).updated_at == old(self).updated_at,
    {
        let entry = FileStateEntry {
            relative_path: path.to_owned(),
            sha256: sha256.to_owned(),
            size,
            mtime,
            revision,
            last_known_operation: operation,
            deleted: false,
        };
        self.insert_entry(path.to_owned(), entry);
    }

    /// Records that `path` was deleted at `revision`.
    pub fn mark_deleted(&mut self, path: &str, revision: u64)
        requires
            old(self).wf(),
        ensures
            final(self).wf(),
            final(self)@ == old(self)@.insert(path@, deleted_entry(path@, revision)),
            final(self).graph_id == old(self).graph_id,
            final(self).last_event_cursor == old(self).last_event_cursor,
            final(self).updated_at == old(self).updated_at,
    {
        let entry = FileStateEntry {
            relative_path: path.to_owned(),
            sha256: String::new(),
            size: 0,
            mtime: 0,
            revision,
            last_known_operation: FileOperation::Delete,
            deleted: true,
        };
        self.insert_entry(path.to_owned(), entry);
    }

    /// Moves the entry of `old_path` to `new_path`, at `revision`, as a rename.
    /// Nothing changes when `old_path` is not known.
    pub fn rename_path(&mut self, old_path: &str, new_path: &str, revision: u64)
        requires
            old(self).wf(),
        ensures
            final(self).wf(),
            old(self)@.contains_key(old_path@) ==> final(self)@ == old(self)@.remove(old_path@).insert(
                new_path@,
                FileEntryView {
                    relative_path: new_path@,
                    revision,
                    operation: FileOperation::Rename,
                    ..old(self)@[old_path@]
                },
            ),
            !old(self)@.contains_key(old_path@) ==> final(self)@ == old(self)@,
            final(self).graph_id == old(self).graph_id,
            final(self).last_event_cursor == old(self).last_event_cursor,
            final(self).updated_at == old(self).updated_at,
    {
        proof {
            lemma_lookup(self.files@, old_path@);
        }
        match self.find(old_path) {
            Some(i) => {
                proof {
                    lemma_map_after_remove(self.files@, i as int);
                }
                let (_, mut entry) = self.files.remove(i);
                entry.relative_path = new_path.to_owned();
                entry.revision = revision;
                entry.last_known_operation = FileOperation::Rename;
                self.insert_entry(new_path.to_owned(), entry);
            },
            None => {},
        }
    }

    /// The manifest of the files this device holds: one entry for every file
    /// that is not deleted, in stored order.
    pub fn build_manifest(&self) -> (r: Vec<ManifestEntry>)
        ensures
            r@.map_values(|m: ManifestEntry| m@) == manifest_of(self.files@),
    {
        let mut out: Vec<ManifestEntry> = Vec::new();
        let mut i: usize = 0;
        while i < self.files.len()
            invariant
                i <= self.files@.len(),
                out@.map_values(|m: ManifestEntry| m@) == manifest_of(self.files@.take(i as int)),
            decreases self.files@.len() - i,
        {
            let e = &self.files[i].1;
            let ghost prev = out@;
            assert(self.files@.take(i + 1).drop_last() =~= self.files@.take(i as int));
            if !e.deleted {
                out.push(
                    ManifestEntry {
                        path: e.relative_path.clone(),
                        sha256: e.sha256.clone(),
                        size: e.size,
                        mtime: e.mtime,
                        revision: e.revision,
                    },
                );
                assert(out@.map_values(|m: ManifestEntry| m@) =~= prev.map_values(|m: ManifestEntry| m@).push(
                    to_manifest(e@),
                ));
            }
            i = i + 1;
        }
        assert(self.files@.take(self.files@.len() as int) =~= self.files@);
        out
    }

    /// Forgets every file and records the result of a folder scan for graph
    /// `graph_id`: every scanned `(path, hash, size, time)` at revision 1, created.
    pub fn scan_folder(&mut self, graph_id: &str, scanned: Vec<(String, String, u64, i64)>)
        requires
            old(self).wf(),
        ensures
            final(self).wf(),
            final(self)@ == scanned_map(scanned@),
            final(self).graph_id matches Some(g) && g@ == graph_id@,
            final(self).last_event_cursor == old(self).last_event_cursor,
            final(self).updated_at == old(self).updated_at,
    {
        self.graph_id = Some(graph_id.to_owned());
        self.files.clear();
        proof {
            lemma_empty_map();
            assert(self.files@ =~= Seq::<(String, FileStateEntry)>::empty());
        }
        let mut i: usize = 0;
        assert(scanned@.take(0) =~= Seq::<(String, String, u64, i64)>::empty());
        while i < scanned.len()
            invariant
                i <= scanned@.len(),
                self.wf(),
                self@ == scanned_map(scanned@.take(i as int)),
                self.graph_id matches Some(g) && g@ == graph_id@,
                self.last_event_cursor == old(self).last_event_cursor,
                self.updated_at == old(self).updated_at,
            decreases scanned@.len() - i,
        {
            let item = &scanned[i];
            assert(scanned@.take(i + 1).drop_last() =~= scanned@.take(i as int));
            self.upsert_file(item.0.as_str(), item.1.as_str(), item.2, item.3, 1, FileOperation::Create);
            i = i + 1;
        }
        assert(scanned@.take(scanned@.len() as int) =~= scanned@);
    }

    /// Records a local change of `path` to the given content and returns it as a
    /// pending change at the next revision.
    pub fn record_upsert(
        &mut self,
        path: &str,
        sha256: &str,
        size: u64,
        mtime: i64,
        operation: FileOperation,
    ) -> (r: PendingLocalChange)
        requires
            old(self).wf(),
            has_revision_room(old(self)@, path@),
        ensures
            final(self).wf(),
            final(self)@ == old(self)@.insert(
                path@,
                present_entry(path@, sha256@, size, mtime, r.revision, operation),
            ),
            r.revision == next_revision_of(old(self)@, path@),
            r.path@ == path@,
            r.old_path is None,
            r.operation == operation,
            r.sha256 matches Some(h) && h@ == sha256@,
            r.size == size,
            final(self).graph_id == old(self).graph_id,
    {
        let revision = self.next_revision(path);
        self.upsert_file(path, sha256, size, mtime, revision, operation);
        PendingLocalChange {
            path: path.to_owned(),
            old_path: None,
            operation,
            sha256: Some(sha256.to_owned()),
            size,
            revision,
        }
    }

    /// Records a local deletion of `path` and returns it as a pending change at
    /// the next revision.
    pub fn record_delete(&mut self, path: &str) -> (r: PendingLocalChange)
        requires
            old(self).wf(),
            has_revision_room(old(self)@, path@),
        ensures
            final(self).wf(),
            final(self)@ == old(self)@.insert(path@, deleted_entry(path@, r.revision)),
            r.revision == next_revision_of(old(self)@, path@),
            r.path@ == path@,
            r.old_path is None,
            r.operation == FileOperation::Delete,
            r.sha256 is None,
            r.size == 0,
            final(self).graph_id == old(self).graph_id,
    {
        let revision = self.next_revision(path);
        self.mark_deleted(path, revision);
        PendingLocalChange {
            path: path.to_owned(),
            old_path: None,
            operation: FileOperation::Delete,
            sha256: None,
            size: 0,
            revision,
        }
    }

    /// Records a file received from a peer: refused, with nothing changed, when
    /// the written content's hash differs from the expected one; otherwise the
    /// file is recorded at the next revision as updated.
    pub fn accept_download(
        &mut self,
        path: &str,
        expected_hash: &str,
        written_hash: &str,
        size: u64,
        mtime: i64,
    ) -> (r: Result<(), DownloadError>)
        requires
            old(self).wf(),
            has_revision_room(old(self)@, path@),
        ensures
            final(self).wf(),
            written_hash@ != expected_hash@ ==> r == Err::<(), DownloadError>(DownloadError::HashMismatch)
                && final(self)@ == old(self)@,
            written_hash@ == expected_hash@ ==> r is Ok && final(self)@ == old(self)@.insert(
                path@,
                present_entry(
                    path@,
                    written_hash@,
                    size,
                    mtime,
                    next_revision_of(old(self)@, path@) as u64,
                    FileOperation::Update,
                ),
            ),
            final(self).graph_id == old(self).graph_id,
    {
        if !crate::text::str_eq(written_hash, expected_hash) {
            return Err(DownloadError::HashMismatch);
        }
        let revision = self.next_revision(path);
        self.upsert_file(path, written_hash, size, mtime, revision, FileOperation::Update);
        Ok(())
    }

    /// A state holding the given stored values; a path given twice keeps its
    /// last entry.
    pub fn from_parts(
        graph_id: Option<String>,
        last_event_cursor: Option<String>,
        entries: Vec<(String, FileStateEntry)>,
        updated_at: Option<String>,
    ) -> (r: LocalState)
        ensures
            r.wf(),
            r@ == files_map(entries@),
            r.graph_id == graph_id,
            r.last_event_cursor == last_event_cursor,
            r.updated_at == updated_at,
    {
        let mut s = LocalState { graph_id, last_event_cursor, files: Vec::new(), updated_at };
        proof {
            lemma_empty_map();
            assert(entries@.take(0) =~= Seq::<(String, FileStateEntry)>::empty());
        }
        let mut i: usize = 0;
        while i < entries.len()
            invariant
                i <= entries@.len(),
                s.wf(),
                s@ == files_map(entries@.take(i as int)),
                s.graph_id == graph_id,
                s.last_event_cursor == last_event_cursor,
                s.updated_at == updated_at,
            decreases entries@.len() - i,
        {
            let key = entries[i].0.clone();
            let entry = entries[i].1.copy();
            proof {
                lemma_files_map_push(entries@.take(i as int), entries@[i as int]);
                assert(entries@.take(i + 1) =~= entries@.take(i as int).push(entries@[i as int]));
            }
            s.insert_entry(key, entry);
            i = i + 1;
        }
        assert(entries@.take(entries@.len() as int) =~= entries@);
        s
    }
}

/// Appending a pair stores its entry under its path, whatever was there.
proof fn lemma_files_map_push(files: Seq<(String, FileStateEntry)>, x: (String, FileStateEntry))
    ensures
        files_map(files.push(x)) == files_map(files).insert(x.0@, x.1@),
{
    assert(files.push(x).drop_last() =~= files);
    assert(files_map(files.push(x)) =~= files_map(files).insert(x.0@, x.1@));
}

/// Why a file received from a peer was refused.
#[derive(Debug, Clone, Copy, PartialEq, Eq, Structural)]
pub enum DownloadError {
    /// The written content does not have the expected hash.
    HashMismatch,
}

// ---------------------------------------------------------------------------
// Laws
// ---------------------------------------------------------------------------

/// Every manifest entry comes from a live stored entry, and every live stored entry is listed.
proof fn lemma_manifest_entries(files: Seq<(String, FileStateEntry)>)
    ensures
        forall|i: int|
            0 <= i < manifest_of(files).len() ==> exists|j: int|
                0 <= j < files.len() && !files[j].1.deleted && #[trigger] manifest_of(files)[i]
                    == to_manifest(#[trigger] files[j].1@),
        forall|j: int|
            0 <= j < files.len() && !files[j].1.deleted ==> manifest_of(files).contains(
                to_manifest(#[trigger] files[j].1@),
            ),
    decreases files.len(),
{
    if files.len() > 0 {
        let t = files.drop_last();
        lemma_manifest_entries(t);
        let rest = manifest_of(t);
        let l = files.last();
        assert forall|i: int| 0 <= i < manifest_of(files).len() implies exists|j: int|
            0 <= j < files.len() && !files[j].1.deleted && #[trigger] manifest_of(files)[i]
                == to_manifest(#[trigger] files[j].1@) by {
            if i < rest.len() {
                assert(manifest_of(files)[i] == rest[i]);
                let j = choose|j: int| 0 <= j < t.len() && !t[j].1.deleted && #[trigger] rest[i] == to_manifest(
                    #[trigger] t[j].1@,
                );
                assert(files[j] == t[j]);
            } else {
                assert(files[files.len() - 1] == l);
            }
        }
        assert forall|j: int| 0 <= j < files.len() && !files[j].1.deleted implies manifest_of(
            files,
        ).contains(to_manifest(#[trigger] files[j].1@)) by {
            if j < t.len() {
                assert(files[j] == t[j]);
                let k = choose|k: int| 0 <= k < rest.len() && rest[k] == to_manifest(t[j].1@);
                assert(manifest_of(files)[k] == rest[k]);
            } else {
                assert(manifest_of(files) == rest.push(to_manifest(l.1@)));
                assert(manifest_of(files)[rest.len() as int] == to_manifest(l.1@));
            }
        }
    }
}

/// The manifest lists exactly the files that are not deleted: every live entry
/// of the state appears in it, and each of its entries is a live entry.
#[verifier::spinoff_prover]
pub proof fn lemma_manifest_lists_live_files(s: LocalState)
    requires
        s.wf(),
    ensures
        forall|k: Seq<char>|
            #[trigger] s@.contains_key(k) && !s@[k].deleted ==> manifest_of(s.files@).contains(
                to_manifest(s@[k]),
            ),
        forall|i: int|
            0 <= i < manifest_of(s.files@).len() ==> exists|k: Seq<char>|
                #[trigger] s@.contains_key(k) && !s@[k].deleted && #[trigger] manifest_of(s.files@)[i]
                    == to_manifest(s@[k]),
{
    let files = s.files@;
    lemma_manifest_entries(files);
    assert forall|k: Seq<char>| #[trigger] s@.contains_key(k) && !s@[k].deleted implies manifest_of(
        files,
    ).contains(to_manifest(s@[k])) by {
        lemma_lookup(files, k);
        let j = choose|j: int| 0 <= j < files.len() && #[trigger] files[j].0@ == k;
        assert(s@[k] == files[j].1@);
    }
    assert forall|i: int| 0 <= i < manifest_of(files).len() implies exists|k: Seq<char>|
        #[trigger] s@.contains_key(k) && !s@[k].deleted && #[trigger] manifest_of(files)[i] == to_manifest(
            s@[k],
        ) by {
        let j = choose|j: int| 0 <= j < files.len() && !files[j].1.deleted && #[trigger] manifest_of(files)[i]
            == to_manifest(#[trigger] files[j].1@);
        let k = files[j].0@;
        lemma_lookup(files, k);
        assert(s@.contains_key(k));
        assert(s@[k] == files[j].1@);
        assert(s@.contains_key(k) && !s@[k].deleted && manifest_of(files)[i] == to_manifest(s@[k]));
    }
}

/// Every entry is stored under its own relative path.
pub open spec fn paths_consistent(m: Map<Seq<char>, FileEntryView>) -> bool {
    forall|k: Seq<char>| #[trigger] m.contains_key(k) ==> m[k].relative_path == k
}

/// Recording changes keeps every entry under its own path: writing a present or
/// a deleted entry, or renaming.
pub proof fn lemma_changes_keep_paths_consistent(
    m: Map<Seq<char>, FileEntryView>,
    p: Seq<char>,
    q: Seq<char>,
    sha256: Seq<char>,
    size: u64,
    mtime: i64,
    revision: u64,
    operation: FileOperation,
)
    requires
        paths_consistent(m),
    ensures
        paths_consistent(m.insert(p, present_entry(p, sha256, size, mtime, revision, operation))),
        paths_consistent(m.insert(p, deleted_entry(p, revision))),
        m.contains_key(p) ==> paths_consistent(
            m.remove(p).insert(
                q,
                FileEntryView { relative_path: q, revision, operation: FileOperation::Rename, ..m[p] },
            ),
        ),
{
}

/// A folder scan stores every file under its own path: whatever was scanned,
/// each entry of the resulting map names the path it is stored under.
pub proof fn lemma_scan_keeps_paths_consistent(scanned: Seq<(String, String, u64, i64)>)
    ensures
        paths_consistent(scanned_map(scanned)),
    decreases scanned.len(),
{
    if scanned.len() > 0 {
        lemma_scan_keeps_paths_consistent(scanned.drop_last());
        let l = scanned.last();
        lemma_changes_keep_paths_consistent(
            scanned_map(scanned.drop_last()),
            l.0@,
            l.0@,
            l.1@,
            l.2,
            l.3,
            1,
            FileOperation::Create,
        );
    } else {
        assert(scanned_map(scanned) =~= Map::<Seq<char>, FileEntryView>::empty());
    }
}

/// `i` is the last position of `scanned` listing its path.
pub open spec fn last_listing(scanned: Seq<(String, String, u64, i64)>, i: int) -> bool {
    &&& 0 <= i < scanned.len()
    &&& forall|j: int| i < j < scanned.len() ==> (#[trigger] scanned[j]).0@ != scanned[i].0@
}

/// A scanned path is known after the scan.
proof fn lemma_scan_knows(scanned: Seq<(String, String, u64, i64)>, i: int)
    requires
        0 <= i < scanned.len(),
    ensures
        scanned_map(scanned).contains_key(scanned[i].0@),
    decreases scanned.len(),
{
    if i < scanned.len() - 1 {
        let t = scanned.drop_last();
        assert(t[i] == scanned[i]);
        lemma_scan_knows(t, i);
    }
}

/// A path known after the scan was scanned.
proof fn lemma_scan_only_scanned(scanned: Seq<(String, String, u64, i64)>, k: Seq<char>)
    requires
        scanned_map(scanned).contains_key(k),
    ensures
        exists|i: int| 0 <= i < scanned.len() && (#[trigger] scanned[i]).0@ == k,
    decreases scanned.len(),
{
    if scanned.len() == 0 {
        assert(scanned_map(scanned) =~= Map::<Seq<char>, FileEntryView>::empty());
    } else {
        let t = scanned.drop_last();
        if scanned.last().0@ == k {
            assert(scanned[scanned.len() - 1].0@ == k);
        } else {
            lemma_scan_only_scanned(t, k);
            let i = choose|i: int| 0 <= i < t.len() && (#[trigger] t[i]).0@ == k;
            assert(scanned[i] == t[i]);
        }
    }
}

/// The entry of a file's last listing holds what was scanned.
proof fn lemma_scan_entry(scanned: Seq<(String, String, u64, i64)>, i: int)
    requires
        last_listing(scanned, i),
    ensures
        scanned_map(scanned).contains_key(scanned[i].0@),
        scanned_map(scanned)[scanned[i].0@] == (FileEntryView {
            relative_path: scanned[i].0@,
            sha256: scanned[i].1@,
            size: scanned[i].2,
            mtime: scanned[i].3,
            revision: 1,
            operation: FileOperation::Create,
            deleted: false,
        }),
    decreases scanned.len(),
{
    let t = scanned.drop_last();
    if i < scanned.len() - 1 {
        assert(scanned[scanned.len() - 1].0@ != scanned[i].0@);
        assert(t[i] == scanned[i]);
        assert forall|j: int| i < j < t.len() implies (#[trigger] t[j]).0@ != t[i].0@ by {
            assert(t[j] == scanned[j]);
        }
        lemma_scan_entry(t, i);
    }
}

/// What a folder scan stores. A path is known exactly when it was scanned;
/// the entry of a scanned file (its last listing, when it is listed twice)
/// holds that file's very hash, size and time, at revision 1, as a live
/// creation.
pub proof fn lemma_scan_records_each_file(scanned: Seq<(String, String, u64, i64)>)
    ensures
        forall|k: Seq<char>| #[trigger] scanned_map(scanned).contains_key(k) ==> exists|i: int|
            0 <= i < scanned.len() && (#[trigger] scanned[i]).0@ == k,
        forall|i: int| 0 <= i < scanned.len() ==> scanned_map(scanned).contains_key(#[trigger] scanned[i].0@),
        forall|i: int| #[trigger] last_listing(scanned, i) ==> {
            let e = scanned_map(scanned)[scanned[i].0@];
            &&& e.relative_path == scanned[i].0@
            &&& e.sha256 == scanned[i].1@
            &&& e.size == scanned[i].2
            &&& e.mtime == scanned[i].3
            &&& e.revision == 1
            &&& e.operation == FileOperation::Create
            &&& !e.deleted
        },
{
    assert forall|k: Seq<char>| #[trigger] scanned_map(scanned).contains_key(k) implies exists|i: int|
        0 <= i < scanned.len() && (#[trigger] scanned[i]).0@ == k by {
        lemma_scan_only_scanned(scanned, k);
    }
    assert forall|i: int| 0 <= i < scanned.len() implies scanned_map(scanned).contains_key(#[trigger] scanned[i].0@) by {
        lemma_scan_knows(scanned, i);
    }
    assert forall|i: int| #[trigger] last_listing(scanned, i) implies {
        let e = scanned_map(scanned)[scanned[i].0@];
        &&& e.relative_path == scanned[i].0@
        &&& e.sha256 == scanned[i].1@
        &&& e.size == scanned[i].2
        &&& e.mtime == scanned[i].3
        &&& e.revision == 1
        &&& e.operation == FileOperation::Create
        &&& !e.deleted
    } by {
        lemma_scan_entry(scanned, i);
    }
}

/// A deleted file leaves the manifest: when every entry is stored under its
/// own path and the entry of `p` is deleted, no manifest entry names `p`.
pub proof fn lemma_deleted_file_not_in_manifest(s: LocalState, p: Seq<char>)
    requires
        s.wf(),
        paths_consistent(s@),
        s@.contains_key(p),
        s@[p].deleted,
    ensures
        forall|i: int| 0 <= i < manifest_of(s.files@).len() ==> (#[trigger] manifest_of(s.files@)[i]).path != p,
{
    lemma_manifest_lists_live_files(s);
    assert forall|i: int| 0 <= i < manifest_of(s.files@).len() implies (#[trigger] manifest_of(
        s.files@,
    )[i]).path != p by {
        let k = choose|k: Seq<char>|
            #[trigger] s@.contains_key(k) && !s@[k].deleted && #[trigger] manifest_of(s.files@)[i]
                == to_manifest(s@[k]);
        assert(s@[k].relative_path == k);
    }
}

/// What a write records is read back: after a file is recorded at some
/// revision, its entry holds what was written and its next revision is one past.
pub proof fn lemma_write_then_read(
    m: Map<Seq<char>, FileEntryView>,
    p: Seq<char>,
    sha256: Seq<char>,
    size: u64,
    mtime: i64,
    revision: u64,
    operation: FileOperation,
)
    ensures
        ({
            let after = m.insert(p, present_entry(p, sha256, size, mtime, revision, operation));
            &&& after.contains_key(p)
            &&& after[p] == present_entry(p, sha256, size, mtime, revision, operation)
            &&& next_revision_of(after, p) == revision + 1
            &&& forall|k: Seq<char>| k != p ==> #[trigger] after.contains_key(k) == m.contains_key(k)
            &&& forall|k: Seq<char>| k != p && m.contains_key(k) ==> #[trigger] after[k] == m[k]
        }),
{
}

/// Revisions only grow: the revision a local change gets is above the revision
/// known before.
pub proof fn lemma_revisions_grow(m: Map<Seq<char>, FileEntryView>, p: Seq<char>)
    ensures
        m.contains_key(p) ==> next_revision_of(m, p) > m[p].revision,
        next_revision_of(m, p) >= 1,
{
}

/// A rename moves the entry: afterwards the old path is gone (when it differs
/// from the new one) and the new path holds the old content at the new revision.
pub proof fn lemma_rename_moves_entry(
    m: Map<Seq<char>, FileEntryView>,
    old_path: Seq<char>,
    new_path: Seq<char>,
    revision: u64,
)
    requires
        m.contains_key(old_path),
    ensures
        ({
            let after = m.remove(old_path).insert(
                new_path,
                FileEntryView {
                    relative_path: new_path,
                    revision,
                    operation: FileOperation::Rename,
                    ..m[old_path]
                },
            );
            &&& old_path != new_path ==> !after.contains_key(old_path)
            &&& after.contains_key(new_path)
            &&& after[new_path].sha256 == m[old_path].sha256
            &&& after[new_path].size == m[old_path].size
            &&& after[new_path].deleted == m[old_path].deleted
            &&& after[new_path].revision == revision
        }),
{
}

} // verus!
