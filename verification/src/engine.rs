//! The decisions of the sync engine: its status as the user sees it, which
//! remote files are missing locally, what a remote event asks of the folder,
//! what a file-system notification means, the retry queue, and the back-off
//! between attempts. The engine's loops, network and disk work run around
//! these decisions.
use vstd::prelude::*;

use std::collections::VecDeque;

use crate::config::{copy_opt_string, Config};
use crate::device::{validate_api_url, validate_sync_folder, SetupError};
use crate::events::{FileOperation, SyncEvent};
use crate::filesystem::is_temp_or_ignored;
use crate::paths::{relative_path_from_root, starts_with_path};
use crate::state::{FileStateEntry, ManifestEntry, ManifestView};
use crate::text::str_eq;

verus! {

// ---------------------------------------------------------------------------
// Status
// ---------------------------------------------------------------------------

/// What the user interface shows of synchronization.
#[derive(Debug)]
pub struct SyncStatus {
    pub status: String,
    pub connected: bool,
    pub paused: bool,
    pub last_sync: Option<String>,
    pub folder: Option<String>,
    pub device_name: String,
    pub pending_events: usize,
    pub failed_events: usize,
}

/// `after` differs from `before` at most in its status text, its last sync, and
/// its connection.
pub open spec fn keeps_counters(after: SyncStatus, before: SyncStatus) -> bool {
    &&& after.paused == before.paused
    &&& after.folder == before.folder
    &&& after.device_name == before.device_name
    &&& after.pending_events == before.pending_events
    &&& after.failed_events == before.failed_events
}

impl SyncStatus {
    /// The status of an engine that has not started: idle, disconnected, no
    /// folder, no counts.
    pub fn idle() -> (r: SyncStatus)
        ensures
            r.status@ == "idle"@,
            !r.connected,
            !r.paused,
            r.last_sync is None,
            r.folder is None,
            r.device_name@ == Seq::<char>::empty(),
            r.pending_events == 0,
            r.failed_events == 0,
    {
        SyncStatus {
            status: "idle".to_owned(),
            connected: false,
            paused: false,
            last_sync: None,
            folder: None,
            device_name: String::new(),
            pending_events: 0,
            failed_events: 0,
        }
    }

    /// The status shown when no engine runs: `setup` before setup is complete,
    /// `idle` after; the folder, device name and pause come from the
    /// configuration.
    pub fn without_engine(config: &Config) -> (r: SyncStatus)
        ensures
            r.status@ == (if config.setup_complete {
                "idle"@
            } else {
                "setup"@
            }),
            !r.connected,
            r.paused == config.paused,
            r.last_sync is None,
            r.folder == config.sync_folder,
            r.device_name == config.device_name,
            r.pending_events == 0,
            r.failed_events == 0,
    {
        SyncStatus {
            status: if config.setup_complete {
                "idle".to_owned()
            } else {
                "setup".to_owned()
            },
            connected: false,
            paused: config.paused,
            last_sync: None,
            folder: copy_opt_string(&config.sync_folder),
            device_name: config.device_name.clone(),
            pending_events: 0,
            failed_events: 0,
        }
    }

    /// The engine starts on `folder` as `device_name`: the status is `paused`
    /// when paused, `starting` otherwise.
    pub fn starting(&mut self, folder: String, device_name: String, paused: bool)
        ensures
            final(self).folder == Some(folder),
            final(self).device_name == device_name,
            final(self).paused == paused,
            final(self).status@ == (if paused {
                "paused"@
            } else {
                "starting"@
            }),
            final(self).connected == old(self).connected,
            final(self).last_sync == old(self).last_sync,
            final(self).pending_events == old(self).pending_events,
            final(self).failed_events == old(self).failed_events,
    {
        self.folder = Some(folder);
        self.device_name = device_name;
        self.paused = paused;
        self.status = if paused {
            "paused".to_owned()
        } else {
            "starting".to_owned()
        };
    }

    /// The engine is up: connected, `synced`, last synced just now.
    pub fn started(&mut self)
        ensures
            final(self).connected,
            final(self).status@ == "synced"@,
            final(self).last_sync matches Some(t) && t@ == "Just now"@,
            keeps_counters(*final(self), *old(self)),
    {
        self.connected = true;
        self.status = "synced".to_owned();
        self.last_sync = Some("Just now".to_owned());
    }

    /// A change went through (published, or applied from a peer): `synced`,
    /// last synced just now.
    pub fn synced(&mut self)
        ensures
            final(self).status@ == "synced"@,
            final(self).last_sync matches Some(t) && t@ == "Just now"@,
            final(self).connected == old(self).connected,
            keeps_counters(*final(self), *old(self)),
    {
        self.last_sync = Some("Just now".to_owned());
        self.status = "synced".to_owned();
    }

    /// Publishing a change failed: one more failed event, `degraded`.
    pub fn publish_failed(&mut self)
        requires
            old(self).failed_events < usize::MAX,
        ensures
            final(self).failed_events == old(self).failed_events + 1,
            final(self).status@ == "degraded"@,
            final(self).connected == old(self).connected,
            final(self).paused == old(self).paused,
            final(self).last_sync == old(self).last_sync,
            final(self).folder == old(self).folder,
            final(self).device_name == old(self).device_name,
            final(self).pending_events == old(self).pending_events,
    {
        self.failed_events = self.failed_events + 1;
        self.status = "degraded".to_owned();
    }

    /// Synchronization was paused.
    pub fn paused_by_user(&mut self)
        ensures
            status_paused_from(*final(self), *old(self)),
    {
        self.paused = true;
        self.status = "paused".to_owned();
    }

    /// Synchronization was resumed.
    pub fn resumed_by_user(&mut self)
        ensures
            status_resumed_from(*final(self), *old(self)),
    {
        self.paused = false;
        self.status = "synced".to_owned();
    }

    /// The engine failed to start: `error`, disconnected.
    pub fn start_failed(&mut self)
        ensures
            final(self).status@ == "error"@,
            !final(self).connected,
            keeps_counters(*final(self), *old(self)),
            final(self).last_sync == old(self).last_sync,
    {
        self.status = "error".to_owned();
        self.connected = false;
    }

    /// The retry queue holds `pending` events.
    pub fn set_pending(&mut self, pending: usize)
        ensures
            final(self).pending_events == pending,
            final(self).status == old(self).status,
            final(self).connected == old(self).connected,
            final(self).paused == old(self).paused,
            final(self).last_sync == old(self).last_sync,
            final(self).folder == old(self).folder,
            final(self).device_name == old(self).device_name,
            final(self).failed_events == old(self).failed_events,
    {
        self.pending_events = pending;
    }

    /// A copy of this status.
    pub fn copy(&self) -> (r: SyncStatus)
        ensures
            r == *self,
    {
        SyncStatus {
            status: self.status.clone(),
            connected: self.connected,
            paused: self.paused,
            last_sync: copy_opt_string(&self.last_sync),
            folder: copy_opt_string(&self.folder),
            device_name: self.device_name.clone(),
            pending_events: self.pending_events,
            failed_events: self.failed_events,
        }
    }
}

/// `after` differs from `before` at most in its pause flag and status text.
pub open spec fn keeps_all_but_pause(after: SyncStatus, before: SyncStatus) -> bool {
    &&& after.connected == before.connected
    &&& after.last_sync == before.last_sync
    &&& after.folder == before.folder
    &&& after.device_name == before.device_name
    &&& after.pending_events == before.pending_events
    &&& after.failed_events == before.failed_events
}

/// `after` is `before` paused by the user: paused, `paused`, all else kept.
pub open spec fn status_paused_from(after: SyncStatus, before: SyncStatus) -> bool {
    &&& after.paused
    &&& after.status@ == "paused"@
    &&& keeps_all_but_pause(after, before)
}

/// `after` is `before` resumed by the user: not paused, `synced`, all else kept.
pub open spec fn status_resumed_from(after: SyncStatus, before: SyncStatus) -> bool {
    &&& !after.paused
    &&& after.status@ == "synced"@
    &&& keeps_all_but_pause(after, before)
}

/// `after` is `before` with its pause flag set to `paused` and nothing else changed.
pub open spec fn config_with_pause(after: Config, before: Config, paused: bool) -> bool {
    &&& after.paused == paused
    &&& after.api_url == before.api_url
    &&& after.sync_folder == before.sync_folder
    &&& after.device_id == before.device_id
    &&& after.device_name == before.device_name
    &&& after.graph_id == before.graph_id
    &&& after.auth_token == before.auth_token
    &&& after.enabled == before.enabled
    &&& after.setup_complete == before.setup_complete
    &&& after.stun_servers == before.stun_servers
    &&& after.turn_servers == before.turn_servers
    &&& after.protocol_version == before.protocol_version
}

/// The user pauses synchronization: the configuration records the pause and
/// the status shows it.
pub fn pause_engine(config: &mut Config, status: &mut SyncStatus)
    ensures
        config_with_pause(*final(config), *old(config), true),
        status_paused_from(*final(status), *old(status)),
{
    config.paused = true;
    status.paused_by_user();
}

/// The user resumes synchronization: the configuration forgets the pause and
/// the status shows `synced`.
pub fn resume_engine(config: &mut Config, status: &mut SyncStatus)
    ensures
        config_with_pause(*final(config), *old(config), false),
        status_resumed_from(*final(status), *old(status)),
{
    config.paused = false;
    status.resumed_by_user();
}

/// Whether a local change is sent to the API now: not while paused.
pub fn should_publish(config: &Config) -> (r: bool)
    ensures
        r == !config.paused,
{
    !config.paused
}

/// Pausing and then resuming unpauses the configuration, changing nothing else
/// in it (a configuration that was not paused comes back unchanged), and
/// leaves the status `synced` with its connection, last sync, folder, name and
/// counts as before.
pub proof fn lemma_pause_then_resume(
    c0: Config,
    c1: Config,
    c2: Config,
    s0: SyncStatus,
    s1: SyncStatus,
    s2: SyncStatus,
)
    requires
        config_with_pause(c1, c0, true),
        config_with_pause(c2, c1, false),
        status_paused_from(s1, s0),
        status_resumed_from(s2, s1),
    ensures
        config_with_pause(c2, c0, false),
        !c0.paused ==> c2 == c0,
        status_resumed_from(s2, s0),
{
}

// ---------------------------------------------------------------------------
// Missing files
// ---------------------------------------------------------------------------

/// The views of a list of manifest entries.
pub open spec fn manifest_views(s: Seq<ManifestEntry>) -> Seq<ManifestView> {
    s.map_values(|m: ManifestEntry| m@)
}

/// The local entry for `path`: the last one in the list with that path.
pub open spec fn last_with_path(local: Seq<ManifestView>, path: Seq<char>) -> Option<ManifestView>
    decreases local.len(),
{
    if local.len() == 0 {
        None
    } else if local.last().path == path {
        Some(local.last())
    } else {
        last_with_path(local.drop_last(), path)
    }
}

/// A remote file is missing locally when no local entry has its path, or the
/// local entry for its path has another hash.
pub open spec fn is_missing(local: Seq<ManifestView>, remote: ManifestView) -> bool {
    match last_with_path(local, remote.path) {
        Some(l) => l.sha256 != remote.sha256,
        None => true,
    }
}

/// The remote entries missing locally, in remote order.
pub open spec fn missing_of(local: Seq<ManifestView>, remote: Seq<ManifestView>) -> Seq<ManifestView>
    decreases remote.len(),
{
    if remote.len() == 0 {
        Seq::empty()
    } else {
        let rest = missing_of(local, remote.drop_last());
        if is_missing(local, remote.last()) {
            rest.push(remote.last())
        } else {
            rest
        }
    }
}

/// The local entry with the given path, searching from the end.
fn find_last_with_path(local: &[ManifestEntry], path: &str) -> (r: Option<usize>)
    ensures
        match r {
            Some(i) => i < local@.len() && last_with_path(manifest_views(local@), path@) == Some(
                local@[i as int]@,
            ),
            None => last_with_path(manifest_views(local@), path@) is None,
        },
{
    let mut i: usize = local.len();
    assert(manifest_views(local@).take(i as int) =~= manifest_views(local@));
    while i > 0
        invariant
            i <= local@.len(),
            last_with_path(manifest_views(local@), path@) == last_with_path(
                manifest_views(local@).take(i as int),
                path@,
            ),
        decreases i,
    {
        let ghost pre = manifest_views(local@).take(i as int);
        assert(pre.last() == local@[i - 1]@);
        if str_eq(local[i - 1].path.as_str(), path) {
            return Some(i - 1);
        }
        assert(pre.drop_last() =~= manifest_views(local@).take(i - 1));
        i = i - 1;
    }
    None
}

/// The remote manifest entries this device lacks: those whose path it does not
/// hold, or holds with another hash. The remote order is kept.
pub fn diff_manifests(local: &[ManifestEntry], remote: &[ManifestEntry]) -> (r: Vec<ManifestEntry>)
    ensures
        manifest_views(r@) == missing_of(manifest_views(local@), manifest_views(remote@)),
{
    let mut out: Vec<ManifestEntry> = Vec::new();
    let mut i: usize = 0;
    assert(manifest_views(remote@).take(0) =~= Seq::<ManifestView>::empty());
    while i < remote.len()
        invariant
            i <= remote@.len(),
            manifest_views(out@) == missing_of(
                manifest_views(local@),
                manifest_views(remote@).take(i as int),
            ),
        decreases remote@.len() - i,
    {
        let r = &remote[i];
        let ghost next = manifest_views(remote@).take(i + 1);
        assert(next.drop_last() =~= manifest_views(remote@).take(i as int));
        assert(next.last() == r@);
        let missing = match find_last_with_path(local, r.path.as_str()) {
            Some(j) => !str_eq(local[j].sha256.as_str(), r.sha256.as_str()),
            None => true,
        };
        if missing {
            let ghost before = out@;
            out.push(r.copy());
            assert(manifest_views(out@) =~= manifest_views(before).push(r@));
        }
        i = i + 1;
    }
    assert(manifest_views(remote@).take(remote@.len() as int) =~= manifest_views(remote@));
    out
}

/// No two entries share a path.
pub open spec fn distinct_paths(s: Seq<ManifestView>) -> bool {
    forall|i: int, j: int| 0 <= i < s.len() && 0 <= j < s.len() && i != j ==> #[trigger] s[i].path != #[trigger] s[j].path
}

/// With distinct paths, the entry found for a path is the one that has it.
proof fn lemma_last_with_path_finds(s: Seq<ManifestView>, j: int)
    requires
        distinct_paths(s),
        0 <= j < s.len(),
    ensures
        last_with_path(s, s[j].path) == Some(s[j]),
    decreases s.len(),
{
    if j < s.len() - 1 {
        let t = s.drop_last();
        assert(distinct_paths(t)) by {
            assert forall|a: int, b: int| 0 <= a < t.len() && 0 <= b < t.len() && a != b implies #[trigger] t[a].path
                != #[trigger] t[b].path by {
                assert(t[a] == s[a] && t[b] == s[b]);
            }
        }
        assert(s[s.len() - 1].path != s[j].path);
        assert(t[j] == s[j]);
        lemma_last_with_path_finds(t, j);
    }
}

/// A manifest lacks nothing of itself: comparing a manifest whose paths are
/// distinct with itself finds no missing file.
pub proof fn lemma_nothing_missing_from_itself(m: Seq<ManifestView>)
    requires
        distinct_paths(m),
    ensures
        missing_of(m, m) == Seq::<ManifestView>::empty(),
{
    lemma_missing_of_prefix(m, m.len() as int);
    assert(m.take(m.len() as int) =~= m);
}

/// No entry of a prefix of a manifest is missing from the manifest.
proof fn lemma_missing_of_prefix(m: Seq<ManifestView>, n: int)
    requires
        distinct_paths(m),
        0 <= n <= m.len(),
    ensures
        missing_of(m, m.take(n)) == Seq::<ManifestView>::empty(),
    decreases n,
{
    if n > 0 {
        lemma_missing_of_prefix(m, n - 1);
        assert(m.take(n).drop_last() =~= m.take(n - 1));
        assert(m.take(n).last() == m[n - 1]);
        lemma_last_with_path_finds(m, n - 1);
    } else {
        assert(m.take(0) =~= Seq::<ManifestView>::empty());
    }
}

/// With nothing held locally, every remote file is missing, in remote order.
pub proof fn lemma_everything_missing_from_empty(remote: Seq<ManifestView>)
    ensures
        missing_of(Seq::<ManifestView>::empty(), remote) == remote,
    decreases remote.len(),
{
    if remote.len() > 0 {
        lemma_everything_missing_from_empty(remote.drop_last());
        assert(remote.drop_last().push(remote.last()) =~= remote);
    }
}

/// `j` is the last position of `local` holding `path`.
pub open spec fn last_position_of(local: Seq<ManifestView>, path: Seq<char>, j: int) -> bool {
    &&& 0 <= j < local.len()
    &&& local[j].path == path
    &&& forall|k: int| j < k < local.len() ==> (#[trigger] local[k]).path != path
}

/// The entry found for a path is the one at the last position holding it, and
/// none is found when no position holds it.
proof fn lemma_last_with_path_is_last_position(local: Seq<ManifestView>, path: Seq<char>)
    ensures
        (last_with_path(local, path) is None) <==> (forall|j: int| 0 <= j < local.len() ==> (#[trigger] local[j]).path != path),
        forall|j: int| #[trigger] last_position_of(local, path, j) ==> last_with_path(local, path) == Some(local[j]),
    decreases local.len(),
{
    if local.len() > 0 {
        let t = local.drop_last();
        lemma_last_with_path_is_last_position(t, path);
        assert forall|j: int| #[trigger] last_position_of(local, path, j) implies last_with_path(local, path) == Some(
            local[j],
        ) by {
            if j < local.len() - 1 {
                assert(local[local.len() - 1].path != path);
                assert(t[j] == local[j]);
                assert forall|k: int| j < k < t.len() implies (#[trigger] t[k]).path != path by {
                    assert(t[k] == local[k]);
                }
                assert(last_position_of(t, path, j));
            }
        }
        if local.last().path != path {
            assert forall|j: int| 0 <= j < t.len() implies (#[trigger] t[j]).path == local[j].path by {}
            if forall|j: int| 0 <= j < t.len() ==> (#[trigger] t[j]).path != path {
                assert forall|j: int| 0 <= j < local.len() implies (#[trigger] local[j]).path != path by {
                    if j < t.len() {
                        assert(t[j] == local[j]);
                    }
                }
            } else {
                let j = choose|j: int| 0 <= j < t.len() && (#[trigger] t[j]).path == path;
                assert(local[j] == t[j]);
            }
        } else {
            assert(local[local.len() - 1].path == path);
        }
    }
}

/// An entry is among the missing ones exactly when some remote position holds
/// it and that remote entry is missing.
proof fn lemma_missing_of_members(local: Seq<ManifestView>, remote: Seq<ManifestView>, x: ManifestView)
    ensures
        missing_of(local, remote).contains(x) <==> exists|i: int|
            0 <= i < remote.len() && #[trigger] remote[i] == x && is_missing(local, remote[i]),
    decreases remote.len(),
{
    if remote.len() > 0 {
        let t = remote.drop_last();
        lemma_missing_of_members(local, t, x);
        let rest = missing_of(local, t);
        if exists|i: int| 0 <= i < t.len() && #[trigger] t[i] == x && is_missing(local, t[i]) {
            let i = choose|i: int| 0 <= i < t.len() && #[trigger] t[i] == x && is_missing(local, t[i]);
            assert(remote[i] == t[i]);
            if is_missing(local, remote.last()) {
                let k = rest.index_of(x);
                assert(missing_of(local, remote)[k] == x);
            }
        }
        if exists|i: int| 0 <= i < remote.len() && #[trigger] remote[i] == x && is_missing(local, remote[i]) {
            let i = choose|i: int| 0 <= i < remote.len() && #[trigger] remote[i] == x && is_missing(local, remote[i]);
            if i < t.len() {
                assert(t[i] == remote[i]);
            } else {
                assert(missing_of(local, remote) == rest.push(x));
                assert(missing_of(local, remote)[rest.len() as int] == x);
            }
        }
        if missing_of(local, remote).contains(x) {
            let k = choose|k: int| 0 <= k < missing_of(local, remote).len() && missing_of(local, remote)[k] == x;
            if is_missing(local, remote.last()) && k == rest.len() {
                assert(remote[remote.len() - 1] == x);
            } else {
                assert(rest[k] == x);
                let i = choose|i: int| 0 <= i < t.len() && #[trigger] t[i] == x && is_missing(local, t[i]);
                assert(remote[i] == t[i]);
            }
        }
    }
}

/// What the manifest diff fetches. A remote file is reported missing when no
/// local entry has its path, or when the last local entry with its path holds
/// other content (another hash), whatever the two revisions are. A remote
/// file is not reported when the last local entry with its path holds the
/// same hash. Everything reported is a remote entry.
pub proof fn lemma_diff_fetches_changed_files(local: Seq<ManifestView>, remote: Seq<ManifestView>)
    ensures
        forall|i: int|
            0 <= i < remote.len() && (forall|j: int| 0 <= j < local.len() ==> (#[trigger] local[j]).path != remote[i].path)
                ==> missing_of(local, remote).contains(#[trigger] remote[i]),
        forall|i: int, j: int|
            0 <= i < remote.len() && #[trigger] last_position_of(local, remote[i].path, j) && local[j].sha256
                != remote[i].sha256 ==> missing_of(local, remote).contains(remote[i]),
        forall|i: int, j: int|
            0 <= i < remote.len() && #[trigger] last_position_of(local, remote[i].path, j) && local[j].sha256
                == remote[i].sha256 ==> !missing_of(local, remote).contains(remote[i]),
        forall|x: ManifestView| #[trigger] missing_of(local, remote).contains(x) ==> remote.contains(x),
{
    assert forall|i: int|
        0 <= i < remote.len() && (forall|j: int| 0 <= j < local.len() ==> (#[trigger] local[j]).path != remote[i].path)
        implies missing_of(local, remote).contains(#[trigger] remote[i]) by {
        lemma_last_with_path_is_last_position(local, remote[i].path);
        lemma_missing_of_members(local, remote, remote[i]);
    }
    assert forall|i: int, j: int|
        0 <= i < remote.len() && #[trigger] last_position_of(local, remote[i].path, j) && local[j].sha256 != remote[i].sha256
        implies missing_of(local, remote).contains(remote[i]) by {
        lemma_last_with_path_is_last_position(local, remote[i].path);
        lemma_missing_of_members(local, remote, remote[i]);
    }
    assert forall|i: int, j: int|
        0 <= i < remote.len() && #[trigger] last_position_of(local, remote[i].path, j) && local[j].sha256 == remote[i].sha256
        implies !missing_of(local, remote).contains(remote[i]) by {
        lemma_last_with_path_is_last_position(local, remote[i].path);
        lemma_missing_of_members(local, remote, remote[i]);
        if missing_of(local, remote).contains(remote[i]) {
            let k = choose|k: int| 0 <= k < remote.len() && #[trigger] remote[k] == remote[i] && is_missing(local, remote[k]);
        }
    }
    assert forall|x: ManifestView| #[trigger] missing_of(local, remote).contains(x) implies remote.contains(x) by {
        lemma_missing_of_members(local, remote, x);
        let i = choose|i: int| 0 <= i < remote.len() && #[trigger] remote[i] == x && is_missing(local, remote[i]);
    }
}

// ---------------------------------------------------------------------------
// Remote events
// ---------------------------------------------------------------------------

/// What a remote event asks of the local folder.
#[derive(Debug)]
pub enum RemotePlan {
    /// The event came from this device: nothing to do.
    Ignore,
    /// Delete the file (unless `local_unsynced`: it has local changes at a
    /// revision above the event's), then record it deleted.
    Delete { local_unsynced: bool },
    /// Move the file from `old_path`, then record the rename.
    Rename { old_path: String },
    /// Fetch the content with `hash` from a peer and write it.
    Download { hash: String },
}

/// Why a remote event cannot be applied.
#[derive(Debug, Clone, Copy, PartialEq, Eq, Structural)]
pub enum RemoteError {
    /// No sync folder is configured.
    MissingFolder,
    /// A rename without the path it renames.
    MissingOldPath,
    /// A create or update without a content hash.
    MissingHash,
}

/// The local entry holds changes the remote event has not seen: it is live and
/// at a revision above the event's.
pub open spec fn unsynced(local: Option<FileStateEntry>, event_revision: u64) -> bool {
    local matches Some(e) && !e.deleted && e.revision > event_revision
}

/// The plan for a remote event, given this device's identifier, the configured
/// folder and the local entry for the event's path.
pub open spec fn remote_plan_is(
    r: Result<RemotePlan, RemoteError>,
    event: SyncEvent,
    own_device_id: Seq<char>,
    sync_folder: Option<String>,
    local: Option<FileStateEntry>,
) -> bool {
    if event.device_id@ == own_device_id {
        r matches Ok(RemotePlan::Ignore)
    } else if sync_folder is None {
        r == Err::<RemotePlan, RemoteError>(RemoteError::MissingFolder)
    } else {
        match event.operation {
            FileOperation::Delete => r matches Ok(RemotePlan::Delete { local_unsynced })
                && local_unsynced == unsynced(local, event.revision),
            FileOperation::Rename => match event.old_path {
                Some(o) => r matches Ok(RemotePlan::Rename { old_path }) && old_path@ == o@,
                None => r == Err::<RemotePlan, RemoteError>(RemoteError::MissingOldPath),
            },
            _ => match event.sha256 {
                Some(h) => r matches Ok(RemotePlan::Download { hash }) && hash@ == h@,
                None => r == Err::<RemotePlan, RemoteError>(RemoteError::MissingHash),
            },
        }
    }
}

/// What to do with a remote event: ignore this device's own events; delete,
/// rename, or fetch otherwise.
pub fn plan_remote_event(
    event: &SyncEvent,
    own_device_id: &str,
    sync_folder: &Option<String>,
    local: &Option<FileStateEntry>,
) -> (r: Result<RemotePlan, RemoteError>)
    ensures
        remote_plan_is(r, *event, own_device_id@, *sync_folder, *local),
{
    if str_eq(event.device_id.as_str(), own_device_id) {
        return Ok(RemotePlan::Ignore);
    }
    if sync_folder.is_none() {
        return Err(RemoteError::MissingFolder);
    }
    match event.operation {
        FileOperation::Delete => {
            let local_unsynced = match local {
                Some(e) => !e.deleted && e.revision > event.revision,
                None => false,
            };
            Ok(RemotePlan::Delete { local_unsynced })
        },
        FileOperation::Rename => match &event.old_path {
            Some(o) => Ok(RemotePlan::Rename { old_path: o.clone() }),
            None => Err(RemoteError::MissingOldPath),
        },
        _ => match &event.sha256 {
            Some(h) => Ok(RemotePlan::Download { hash: h.clone() }),
            None => Err(RemoteError::MissingHash),
        },
    }
}

/// What a remote event does, by its kind. This device's own events are
/// ignored; without a sync folder nothing can be applied. Otherwise a create or
/// update that carries a hash is always downloaded with that hash, and a
/// rename that names the old path always moves it, whatever this device holds
/// of the file; a delete is always planned, keeping the local file exactly when
/// the local entry is live at a revision above the event's.
pub proof fn lemma_remote_event_effects(
    r: Result<RemotePlan, RemoteError>,
    event: SyncEvent,
    own_device_id: Seq<char>,
    sync_folder: Option<String>,
    local: Option<FileStateEntry>,
)
    requires
        remote_plan_is(r, event, own_device_id, sync_folder, local),
    ensures
        event.device_id@ == own_device_id ==> r matches Ok(RemotePlan::Ignore),
        event.device_id@ != own_device_id && sync_folder is None ==> r == Err::<RemotePlan, RemoteError>(
            RemoteError::MissingFolder,
        ),
        event.device_id@ != own_device_id && sync_folder is Some ==> {
            &&& (event.operation == FileOperation::Create || event.operation == FileOperation::Update)
                ==> match event.sha256 {
                Some(h) => r matches Ok(RemotePlan::Download { hash }) && hash@ == h@,
                None => r == Err::<RemotePlan, RemoteError>(RemoteError::MissingHash),
            }
            &&& event.operation == FileOperation::Rename ==> match event.old_path {
                Some(o) => r matches Ok(RemotePlan::Rename { old_path }) && old_path@ == o@,
                None => r == Err::<RemotePlan, RemoteError>(RemoteError::MissingOldPath),
            }
            &&& event.operation == FileOperation::Delete ==> (r matches Ok(RemotePlan::Delete { local_unsynced })
                && local_unsynced == (local matches Some(e) && !e.deleted && e.revision > event.revision))
        },
        r is Ok ==> (r matches Ok(RemotePlan::Ignore)) == (event.device_id@ == own_device_id),
{
}

/// The local entry only matters to a remote delete: for any other event, two
/// devices that hold different entries for the file plan the same.
pub proof fn lemma_remote_plan_ignores_local_unless_delete(
    r1: Result<RemotePlan, RemoteError>,
    r2: Result<RemotePlan, RemoteError>,
    event: SyncEvent,
    own_device_id: Seq<char>,
    sync_folder: Option<String>,
    local1: Option<FileStateEntry>,
    local2: Option<FileStateEntry>,
)
    requires
        remote_plan_is(r1, event, own_device_id, sync_folder, local1),
        remote_plan_is(r2, event, own_device_id, sync_folder, local2),
        event.operation != FileOperation::Delete,
    ensures
        r1 is Ok <==> r2 is Ok,
        r1 matches Ok(RemotePlan::Ignore) <==> r2 matches Ok(RemotePlan::Ignore),
        r1 matches Ok(RemotePlan::Download { hash }) ==> r2 matches Ok(RemotePlan::Download { hash: h2 })
            && hash@ == h2@,
        r1 matches Ok(RemotePlan::Rename { old_path }) ==> r2 matches Ok(RemotePlan::Rename { old_path: o2 })
            && old_path@ == o2@,
{
}

// ---------------------------------------------------------------------------
// File-system notifications
// ---------------------------------------------------------------------------

/// What a file-system notification about one path asks of the engine.
#[derive(Debug)]
pub enum WatchAction {
    /// Nothing: the path is ignored, outside the folder, or not a file.
    Skip,
    /// Record the deletion of this relative path.
    RecordDelete(String),
    /// Record the content of this relative path.
    RecordUpsert(String),
}

/// The action for a notification about `path` below `folder`: ignored paths
/// and paths outside the folder are skipped; a removal records a deletion; a
/// change to a regular file records its content.
pub open spec fn watch_action_is(
    r: WatchAction,
    folder: Seq<char>,
    path: Seq<char>,
    is_remove: bool,
    is_file: bool,
) -> bool {
    if crate::filesystem::temp_or_ignored(path) || !crate::paths::path_starts_with(path, folder) {
        r is Skip
    } else if is_remove || is_file {
        match crate::paths::relative_from_root(folder, path) {
            Ok(rel) => if is_remove {
                r matches WatchAction::RecordDelete(p) && p@ == rel
            } else {
                r matches WatchAction::RecordUpsert(p) && p@ == rel
            },
            Err(_) => r is Skip,
        }
    } else {
        r is Skip
    }
}

/// The action for a file-system notification about `path` below `folder`;
/// `is_remove` tells a removal, `is_file` whether the path is a regular file.
pub fn classify_watch_path(folder: &str, path: &str, is_remove: bool, is_file: bool) -> (r: WatchAction)
    ensures
        watch_action_is(r, folder@, path@, is_remove, is_file),
{
    if is_temp_or_ignored(path) {
        return WatchAction::Skip;
    }
    if !starts_with_path(path, folder) {
        return WatchAction::Skip;
    }
    if is_remove {
        return match relative_path_from_root(folder, path) {
            Ok(rel) => WatchAction::RecordDelete(rel),
            Err(_) => WatchAction::Skip,
        };
    }
    if is_file {
        return match relative_path_from_root(folder, path) {
            Ok(rel) => WatchAction::RecordUpsert(rel),
            Err(_) => WatchAction::Skip,
        };
    }
    WatchAction::Skip
}

/// What a file-system notification records. Nothing is recorded for an
/// ignored (temporary, editor or download) file or a path outside the folder,
/// whether the notification is a removal or not, nor for a path that is
/// neither removed nor a regular file. A deletion is recorded only for a
/// removal and an upsert only for a regular file that was not removed, each
/// under the path relative to the folder; every removal or file change of a
/// path that is not ignored, lies in the folder and reads back relative to it
/// is recorded.
pub proof fn lemma_watch_records(
    r: WatchAction,
    folder: Seq<char>,
    path: Seq<char>,
    is_remove: bool,
    is_file: bool,
)
    requires
        watch_action_is(r, folder, path, is_remove, is_file),
    ensures
        crate::filesystem::temp_or_ignored(path) ==> r is Skip,
        !crate::paths::path_starts_with(path, folder) ==> r is Skip,
        !is_remove && !is_file ==> r is Skip,
        r matches WatchAction::RecordDelete(p) ==> {
            &&& is_remove
            &&& !crate::filesystem::temp_or_ignored(path)
            &&& crate::paths::path_starts_with(path, folder)
            &&& crate::paths::relative_from_root(folder, path) == Ok::<Seq<char>, crate::paths::PathError>(p@)
        },
        r matches WatchAction::RecordUpsert(p) ==> {
            &&& !is_remove
            &&& is_file
            &&& !crate::filesystem::temp_or_ignored(path)
            &&& crate::paths::path_starts_with(path, folder)
            &&& crate::paths::relative_from_root(folder, path) == Ok::<Seq<char>, crate::paths::PathError>(p@)
        },
        !crate::filesystem::temp_or_ignored(path) && crate::paths::path_starts_with(path, folder)
            && crate::paths::relative_from_root(folder, path) is Ok && (is_remove || is_file) ==> !(r is Skip),
{
}

// ---------------------------------------------------------------------------
// Starting
// ---------------------------------------------------------------------------

/// Why the engine does not start.
#[derive(Debug, Clone, Copy, PartialEq, Eq, Structural)]
pub enum StartError {
    /// Setup has not been completed.
    SetupIncomplete,
    /// No sync folder is configured.
    FolderNotConfigured,
    /// The folder or the API address was refused.
    Invalid(SetupError),
}

/// Whether the engine may start with `config`, given what the file system says
/// of the folder: setup complete, a folder configured and accepted, an API
/// address accepted; in that order.
pub open spec fn start_check_is(
    r: Result<String, StartError>,
    config: Config,
    folder_exists: bool,
    folder_is_dir: bool,
) -> bool {
    if !config.setup_complete {
        r == Err::<String, StartError>(StartError::SetupIncomplete)
    } else {
        match config.sync_folder {
            None => r == Err::<String, StartError>(StartError::FolderNotConfigured),
            Some(f) => match crate::device::sync_folder_check(f@, folder_exists, folder_is_dir) {
                Err(e) => r == Err::<String, StartError>(StartError::Invalid(e)),
                Ok(_) => match crate::device::api_url_check(config.api_url@) {
                    Err(e) => r == Err::<String, StartError>(StartError::Invalid(e)),
                    Ok(_) => r matches Ok(folder) && folder == f,
                },
            },
        }
    }
}

/// The folder the engine starts on, or why it does not start.
pub fn check_start(config: &Config, folder_exists: bool, folder_is_dir: bool) -> (r: Result<String, StartError>)
    ensures
        start_check_is(r, *config, folder_exists, folder_is_dir),
{
    if !config.setup_complete {
        return Err(StartError::SetupIncomplete);
    }
    let folder = match &config.sync_folder {
        Some(f) => f.clone(),
        None => return Err(StartError::FolderNotConfigured),
    };
    match validate_sync_folder(folder.as_str(), folder_exists, folder_is_dir) {
        Err(e) => return Err(StartError::Invalid(e)),
        Ok(_) => {},
    }
    match validate_api_url(config.api_url.as_str()) {
        Err(e) => return Err(StartError::Invalid(e)),
        Ok(_) => {},
    }
    Ok(folder)
}

// ---------------------------------------------------------------------------
// Retry queue and back-off
// ---------------------------------------------------------------------------

/// The events whose publication failed, oldest first.
#[derive(Debug)]
pub struct RetryQueue {
    pub events: VecDeque<SyncEvent>,
}

impl RetryQueue {
    /// An empty queue.
    pub fn new() -> (r: RetryQueue)
        ensures
            r.events@ == Seq::<SyncEvent>::empty(),
    {
        RetryQueue { events: VecDeque::new() }
    }

    /// Queues an event behind the others.
    pub fn push(&mut self, event: SyncEvent)
        ensures
            final(self).events@ == old(self).events@.push(event),
    {
        self.events.push_back(event);
    }

    /// Takes the oldest event, if any.
    pub fn pop(&mut self) -> (r: Option<SyncEvent>)
        ensures
            old(self).events@.len() == 0 ==> r is None && final(self).events@ == old(self).events@,
            old(self).events@.len() > 0 ==> r == Some(old(self).events@[0]) && final(self).events@
                == old(self).events@.drop_first(),
    {
        self.events.pop_front()
    }

    /// Takes every queued event, oldest first, for one round of retries: each
    /// is tried once in the round, and one that fails again waits for the next.
    pub fn take_round(&mut self) -> (r: Vec<SyncEvent>)
        ensures
            r@ == old(self).events@,
            final(self).events@ == Seq::<SyncEvent>::empty(),
    {
        let mut out: Vec<SyncEvent> = Vec::new();
        while self.events.len() > 0
            invariant
                out@ + self.events@ == old(self).events@,
            decreases self.events@.len(),
        {
            let ghost before = self.events@;
            match self.events.pop_front() {
                Some(e) => {
                    out.push(e);
                    assert(out@ + self.events@ =~= old(self).events@) by {
                        assert(before =~= seq![e] + self.events@);
                    }
                },
                None => {},
            }
        }
        assert(out@ + self.events@ =~= out@);
        out
    }

    /// The number of queued events.
    pub fn len(&self) -> (r: usize)
        ensures
            r == self.events@.len(),
    {
        self.events.len()
    }
}

/// Events leave the queue in the order they came: after `a` then `b` are
/// queued behind `q`, taking from the front yields `q`'s events, then `a`, then `b`.
pub proof fn lemma_queue_is_fifo(q: Seq<SyncEvent>, a: SyncEvent, b: SyncEvent)
    ensures
        q.push(a).push(b) == q + seq![a, b],
        (q + seq![a, b])[q.len() as int] == a,
        (q + seq![a, b])[q.len() + 1int] == b,
{
    assert(q.push(a).push(b) =~= q + seq![a, b]);
}

/// The first `n` events of a round that failed again, in order.
pub open spec fn round_failures(round: Seq<SyncEvent>, published: Seq<bool>, n: int) -> Seq<SyncEvent>
    decreases n,
{
    if n <= 0 {
        Seq::empty()
    } else if published[n - 1] {
        round_failures(round, published, n - 1)
    } else {
        round_failures(round, published, n - 1).push(round[n - 1])
    }
}

/// A round of retries tries each queued event once and keeps exactly the
/// failures: when `take_round` hands out the queue (`round`, leaving it
/// empty) and each event is then published once in order, `record_publish_outcome`
/// queueing it again when `published[i]` is false, the queue afterwards holds
/// the events that failed again, in their order, and never more than the round
/// had.
pub proof fn lemma_retry_round_keeps_failures(
    round: Seq<SyncEvent>,
    published: Seq<bool>,
    queues: Seq<Seq<SyncEvent>>,
)
    requires
        published.len() == round.len(),
        queues.len() == round.len() + 1,
        queues[0] == Seq::<SyncEvent>::empty(),
        forall|i: int|
            0 <= i < round.len() ==> #[trigger] queues[i + 1] == (if published[i] {
                queues[i]
            } else {
                queues[i].push(round[i])
            }),
    ensures
        queues.last() == round_failures(round, published, round.len() as int),
        queues.last().len() <= round.len(),
{
    assert forall|n: int| 0 <= n <= round.len() implies #[trigger] queues[n] == round_failures(
        round,
        published,
        n,
    ) && queues[n].len() <= n by {
        lemma_round_prefix(round, published, queues, n);
    }
    assert(queues.last() == queues[round.len() as int]);
}

/// The queue after the first `n` events of a round.
proof fn lemma_round_prefix(
    round: Seq<SyncEvent>,
    published: Seq<bool>,
    queues: Seq<Seq<SyncEvent>>,
    n: int,
)
    requires
        published.len() == round.len(),
        queues.len() == round.len() + 1,
        queues[0] == Seq::<SyncEvent>::empty(),
        forall|i: int|
            0 <= i < round.len() ==> #[trigger] queues[i + 1] == (if published[i] {
                queues[i]
            } else {
                queues[i].push(round[i])
            }),
        0 <= n <= round.len(),
    ensures
        queues[n] == round_failures(round, published, n),
        queues[n].len() <= n,
    decreases n,
{
    if n > 0 {
        lemma_round_prefix(round, published, queues, n - 1);
        assert(queues[(n - 1) + 1] == (if published[n - 1] {
            queues[n - 1]
        } else {
            queues[n - 1].push(round[n - 1])
        }));
    }
}

/// Records how publishing `event` went: on success the status becomes `synced`;
/// on failure the event waits in the retry queue, one more failed event is
/// counted, and the status becomes `degraded`.
pub fn record_publish_outcome(
    status: &mut SyncStatus,
    queue: &mut RetryQueue,
    event: SyncEvent,
    published: bool,
)
    requires
        !published ==> old(status).failed_events < usize::MAX,
    ensures
        published ==> final(queue).events@ == old(queue).events@ && final(status).status@ == "synced"@
            && final(status).failed_events == old(status).failed_events
            && (final(status).last_sync matches Some(t) && t@ == "Just now"@),
        !published ==> final(queue).events@ == old(queue).events@.push(event)
            && final(status).status@ == "degraded"@ && final(status).failed_events
            == old(status).failed_events + 1 && final(status).last_sync == old(status).last_sync,
        final(status).paused == old(status).paused,
        final(status).pending_events == old(status).pending_events,
        final(status).connected == old(status).connected,
        final(status).folder == old(status).folder,
        final(status).device_name == old(status).device_name,
{
    if published {
        status.synced();
    } else {
        queue.push(event);
        status.publish_failed();
    }
}

/// The first wait between attempts, in seconds.
pub const INITIAL_BACKOFF_SECS: u64 = 2;

/// The longest wait between attempts, in seconds.
pub const MAX_BACKOFF_SECS: u64 = 60;

/// The wait after another failed attempt: twice the last, at most a minute.
pub fn next_backoff_secs(secs: u64) -> (r: u64)
    ensures
        r == (if 2 * secs < MAX_BACKOFF_SECS {
            2 * secs
        } else {
            MAX_BACKOFF_SECS as int
        }),
{
    if secs < MAX_BACKOFF_SECS / 2 {
        secs * 2
    } else {
        MAX_BACKOFF_SECS
    }
}

/// The back-off stays between its first value and a minute, and never shrinks.
pub proof fn lemma_backoff_bounded(secs: u64)
    requires
        INITIAL_BACKOFF_SECS <= secs <= MAX_BACKOFF_SECS,
    ensures
        ({
            let n = if 2 * secs < MAX_BACKOFF_SECS {
                2 * secs
            } else {
                MAX_BACKOFF_SECS as int
            };
            INITIAL_BACKOFF_SECS <= n <= MAX_BACKOFF_SECS && n >= secs
        }),
{
}

/// The wait after a failed attempt that follows a wait of `secs`: twice as
/// long, at most a minute.
pub open spec fn backoff_after(secs: u64) -> u64 {
    if 2 * secs < MAX_BACKOFF_SECS {
        (2 * secs) as u64
    } else {
        MAX_BACKOFF_SECS
    }
}

// ---------------------------------------------------------------------------
// Background loop
// ---------------------------------------------------------------------------

/// The wait while synchronization is paused, in seconds.
pub const PAUSED_WAIT_SECS: u64 = 2;

/// The wait at the end of every round, in seconds.
pub const ROUND_WAIT_SECS: u64 = 5;

/// What the background loop has just seen.
#[derive(Debug, Clone, Copy, PartialEq, Eq, Structural)]
pub enum LoopEvent {
    /// A new round begins; `paused` tells whether synchronization is paused.
    RoundBegins { paused: bool },
    /// The round's retries are done; `graph_known` tells whether a graph is registered.
    RetriesDone { graph_known: bool },
    /// Polling for remote events finished; `ok` tells whether it succeeded.
    Polled { ok: bool },
    /// The back-off wait is over.
    BackedOff,
}

/// What the background loop does next.
#[derive(Debug, Clone, Copy, PartialEq, Eq, Structural)]
pub enum LoopAction {
    /// Wait this many seconds, then begin a new round.
    WaitThenRestart(u64),
    /// Take every queued event (`RetryQueue::take_round`) and publish each once.
    RetryRound,
    /// Ask the API for remote events and apply them.
    Poll,
    /// Wait this many seconds after a failed poll.
    BackOff(u64),
    /// Record how many events wait for retry, wait this many seconds, then
    /// begin a new round.
    EndRound(u64),
}

/// One step of the background loop: while paused it waits two seconds and
/// starts over; otherwise a round retries the queued events once each, polls
/// when a graph is registered, waits out the back-off after a failed poll
/// (which then doubles, up to a minute) or resets it after a good one, and
/// ends with a five-second wait.
pub open spec fn loop_step(event: LoopEvent, backoff: u64) -> (LoopAction, u64) {
    match event {
        LoopEvent::RoundBegins { paused } => if paused {
            (LoopAction::WaitThenRestart(PAUSED_WAIT_SECS), backoff)
        } else {
            (LoopAction::RetryRound, backoff)
        },
        LoopEvent::RetriesDone { graph_known } => if graph_known {
            (LoopAction::Poll, backoff)
        } else {
            (LoopAction::EndRound(ROUND_WAIT_SECS), backoff)
        },
        LoopEvent::Polled { ok } => if ok {
            (LoopAction::EndRound(ROUND_WAIT_SECS), INITIAL_BACKOFF_SECS)
        } else {
            (LoopAction::BackOff(backoff), backoff_after(backoff))
        },
        LoopEvent::BackedOff => (LoopAction::EndRound(ROUND_WAIT_SECS), backoff),
    }
}

/// The background loop's next action after `event`, with the back-off it
/// keeps between rounds (see `loop_step`).
pub fn background_step(backoff: &mut u64, event: LoopEvent) -> (r: LoopAction)
    ensures
        (r, *final(backoff)) == loop_step(event, *old(backoff)),
{
    match event {
        LoopEvent::RoundBegins { paused } => if paused {
            LoopAction::WaitThenRestart(PAUSED_WAIT_SECS)
        } else {
            LoopAction::RetryRound
        },
        LoopEvent::RetriesDone { graph_known } => if graph_known {
            LoopAction::Poll
        } else {
            LoopAction::EndRound(ROUND_WAIT_SECS)
        },
        LoopEvent::Polled { ok } => if ok {
            *backoff = INITIAL_BACKOFF_SECS;
            LoopAction::EndRound(ROUND_WAIT_SECS)
        } else {
            let wait = *backoff;
            *backoff = next_backoff_secs(wait);
            LoopAction::BackOff(wait)
        },
        LoopEvent::BackedOff => LoopAction::EndRound(ROUND_WAIT_SECS),
    }
}

/// An unpaused round always comes to its end: it retries the queued events,
/// polls when a graph is registered, waits out the back-off after a failed
/// poll (doubling it, up to a minute) or resets it after a good one, and ends
/// with the five-second wait that records the queue length. No step repeats
/// within the round.
pub proof fn lemma_unpaused_round(backoff: u64, poll_ok: bool)
    ensures
        loop_step(LoopEvent::RoundBegins { paused: false }, backoff) == (LoopAction::RetryRound, backoff),
        loop_step(LoopEvent::RetriesDone { graph_known: false }, backoff) == (
            LoopAction::EndRound(ROUND_WAIT_SECS),
            backoff,
        ),
        loop_step(LoopEvent::RetriesDone { graph_known: true }, backoff) == (LoopAction::Poll, backoff),
        poll_ok ==> loop_step(LoopEvent::Polled { ok: poll_ok }, backoff) == (
            LoopAction::EndRound(ROUND_WAIT_SECS),
            INITIAL_BACKOFF_SECS,
        ),
        !poll_ok ==> loop_step(LoopEvent::Polled { ok: poll_ok }, backoff) == (
            LoopAction::BackOff(backoff),
            backoff_after(backoff),
        ),
        loop_step(LoopEvent::BackedOff, backoff_after(backoff)) == (
            LoopAction::EndRound(ROUND_WAIT_SECS),
            backoff_after(backoff),
        ),
{
}

/// Failed polls never wait longer than a minute, and the wait never shrinks
/// below its first value: from any back-off in that range, every step keeps it
/// there.
pub proof fn lemma_loop_backoff_in_range(event: LoopEvent, backoff: u64)
    requires
        INITIAL_BACKOFF_SECS <= backoff <= MAX_BACKOFF_SECS,
    ensures
        INITIAL_BACKOFF_SECS <= loop_step(event, backoff).1 <= MAX_BACKOFF_SECS,
        loop_step(event, backoff).0 matches LoopAction::BackOff(w) ==> w <= MAX_BACKOFF_SECS,
{
}

} // verus!
