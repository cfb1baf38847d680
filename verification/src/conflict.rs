//! Conflict handling for remote changes: the name of a conflict copy, and when
//! a remote write or delete must keep the local file.
use vstd::prelude::*;

use crate::events::FileOperation;
use crate::paths::{file_name, join_chars, parent};
use crate::state::FileStateEntry;
use crate::text::{chars_of, push_str, string_from_chars};

verus! {

/// The upper-case label of an operation, as the API spells it.
pub fn operation_label(op: FileOperation) -> (r: &'static str)
    ensures
        r@ == match op {
            FileOperation::Create => "CREATE"@,
            FileOperation::Update => "UPDATE"@,
            FileOperation::Delete => "DELETE"@,
            FileOperation::Rename => "RENAME"@,
        },
{
    match op {
        FileOperation::Create => "CREATE",
        FileOperation::Update => "UPDATE",
        FileOperation::Delete => "DELETE",
        FileOperation::Rename => "RENAME",
    }
}

/// The position of the last `.` in a file name, if any.
pub open spec fn last_dot(name: Seq<char>) -> int
    decreases name.len(),
{
    if name.len() == 0 {
        -1
    } else if name.last() == '.' {
        name.len() - 1
    } else {
        last_dot(name.drop_last())
    }
}

/// The stem of a file name: the part before the last `.`, or the whole name
/// when it has no `.` or its only `.` comes first.
pub open spec fn stem_of(name: Seq<char>) -> Seq<char> {
    if last_dot(name) <= 0 {
        name
    } else {
        name.take(last_dot(name))
    }
}

/// The extension of a file name: the part after the last `.`, unless the name
/// has no `.` or its only `.` comes first.
pub open spec fn extension_of(name: Seq<char>) -> Option<Seq<char>> {
    if last_dot(name) <= 0 {
        None
    } else {
        Some(name.skip(last_dot(name) + 1))
    }
}

/// The path of the conflict copy of `original` made for `device_name` on
/// `date`: `<stem> (conflict - <device> - <date>)<.ext>` next to the original
/// (`file` stands in for a missing stem, `.` for a missing directory).
pub open spec fn conflict_copy_of(original: Seq<char>, device_name: Seq<char>, date: Seq<char>) -> Seq<
    char,
> {
    let name = crate::paths::file_name_of(original);
    let stem = match name {
        Some(n) => stem_of(n),
        None => "file"@,
    };
    let ext = match name {
        Some(n) => match extension_of(n) {
            Some(e) => "."@ + e,
            None => Seq::empty(),
        },
        None => Seq::empty(),
    };
    let dir = match crate::paths::parent_of(original) {
        Some(p) => p,
        None => "."@,
    };
    crate::paths::path_join(
        dir,
        stem + " (conflict - "@ + device_name + " - "@ + date + ")"@ + ext,
    )
}

/// The last `.` is a position in the name, or -1.
proof fn lemma_last_dot_bounds(name: Seq<char>)
    ensures
        -1 <= last_dot(name) < name.len(),
    decreases name.len(),
{
    if name.len() > 0 {
        lemma_last_dot_bounds(name.drop_last());
    }
}

/// The position of the last `.` in `name`, if any.
fn find_last_dot(name: &Vec<char>) -> (r: Option<usize>)
    ensures
        match r {
            Some(i) => i == last_dot(name@) && i < name@.len(),
            None => last_dot(name@) == -1,
        },
{
    let mut i: usize = name.len();
    proof {
        assert(name@.take(i as int) =~= name@);
    }
    while i > 0
        invariant
            i <= name@.len(),
            last_dot(name@) == last_dot(name@.take(i as int)),
        decreases i,
    {
        if name[i - 1] == '.' {
            return Some(i - 1);
        }
        assert(name@.take(i as int).drop_last() =~= name@.take(i - 1));
        i = i - 1;
    }
    None
}

/// The conflict copy path of `original` for `device_name` on `date`.
pub fn conflict_copy_path_on(original: &str, device_name: &str, date: &str) -> (r: String)
    ensures
        r@ == conflict_copy_of(original@, device_name@, date@),
{
    let name = file_name(original);
    let mut leaf: Vec<char> = Vec::new();
    let mut ext: Vec<char> = Vec::new();
    match &name {
        Some(n) => {
            let c = chars_of(n.as_str());
            let d = find_last_dot(&c);
            let has_ext = match d {
                Some(k) => k > 0,
                None => false,
            };
            if !has_ext {
                crate::text::push_all(&mut leaf, c.as_slice());
                assert(leaf@ =~= stem_of(n@));
            } else {
                let du = d.unwrap();
                let clen = c.len();
                assert(du < clen);
                crate::text::push_all(&mut leaf, c.split_at(du).0);
                assert(leaf@ =~= stem_of(n@));
                ext.push('.');
                crate::text::push_all(&mut ext, c.split_at(du + 1).1);
                assert(ext@ =~= "."@ + n@.skip(du + 1)) by {
                    reveal_strlit(".");
                }
            }
        },
        None => {
            push_str(&mut leaf, "file");
        },
    }
    push_str(&mut leaf, " (conflict - ");
    push_str(&mut leaf, device_name);
    push_str(&mut leaf, " - ");
    push_str(&mut leaf, date);
    push_str(&mut leaf, ")");
    crate::text::push_all(&mut leaf, ext.as_slice());
    let dir = match parent(original) {
        Some(p) => chars_of(p.as_str()),
        None => chars_of("."),
    };
    let v = join_chars(dir.as_slice(), leaf.as_slice());
    string_from_chars(v.as_slice())
}

/// An ASCII decimal digit.
pub open spec fn is_digit(c: char) -> bool {
    '0' <= c <= '9'
}

/// A date written as `<year>-MM-DD`: the year (four digits for the years
/// 1000 to 9999, more with a sign outside them), `-`, a two-digit month, `-`,
/// and a two-digit day.
pub open spec fn is_date_text(d: Seq<char>) -> bool {
    let n = d.len() as int;
    &&& n >= 10
    &&& d[n - 6] == '-'
    &&& is_digit(d[n - 5])
    &&& is_digit(d[n - 4])
    &&& d[n - 3] == '-'
    &&& is_digit(d[n - 2])
    &&& is_digit(d[n - 1])
}

/// Today's date in UTC: the system clock (`std::time::SystemTime::now`) turned
/// into a `chrono::DateTime<Utc>` through its `From<SystemTime>`, which also
/// takes clock readings before 1970, and written with `format("%Y-%m-%d")`.
/// Trusted: the text has the `<year>-MM-DD` form that chrono writes for this
/// format (a year of at least four characters, then a two-digit month and
/// day). Which day it is depends on the clock and is not stated.
/// (The conversion fails only for a clock reading beyond chrono's range of
/// about 262,000 years either side of year 0.)
#[verifier::external_body]
pub(crate) fn utc_today() -> (r: String)
    ensures
        is_date_text(r@),
{
    chrono::DateTime::<chrono::Utc>::from(std::time::SystemTime::now()).format("%Y-%m-%d").to_string()
}

/// The conflict copy path of `original` for `device_name`, dated today.
pub fn conflict_copy_path(original: &str, device_name: &str) -> (r: String)
    ensures
        exists|date: Seq<char>| is_date_text(date) && r@ == conflict_copy_of(original@, device_name@, date),
{
    let date = utc_today();
    conflict_copy_path_on(original, device_name, date.as_str())
}

/// A remote write must first copy the local file aside: the destination exists
/// and the known local entry is live, holds another hash, and is at a revision
/// no lower than the remote one.
pub open spec fn write_conflicts(
    dest_exists: bool,
    local: Option<FileStateEntry>,
    remote_hash: Seq<char>,
    remote_revision: u64,
) -> bool {
    &&& dest_exists
    &&& local matches Some(e) && !e.deleted && e.sha256@ != remote_hash && e.revision >= remote_revision
}

/// Whether a remote write conflicts with the local file (see `write_conflicts`).
pub fn remote_write_conflicts(
    dest_exists: bool,
    local: &Option<FileStateEntry>,
    remote_hash: &str,
    remote_revision: u64,
) -> (r: bool)
    ensures
        r == write_conflicts(dest_exists, *local, remote_hash@, remote_revision),
{
    if !dest_exists {
        return false;
    }
    match local {
        Some(e) => !e.deleted && !crate::text::str_eq(e.sha256.as_str(), remote_hash) && e.revision
            >= remote_revision,
        None => false,
    }
}

/// What to do with a local file when a remote delete of it arrives.
#[derive(Debug, Clone, Copy, PartialEq, Eq, Structural)]
pub enum DeletePlan {
    /// The file is already gone.
    AlreadyGone,
    /// The file has unsynced local changes: keep it and make a conflict copy.
    KeepWithConflictCopy,
    /// The file has unsynced local changes: keep it.
    Keep,
    /// Delete the file.
    Delete,
}

/// The plan for a remote delete: nothing when the file is gone; keep it (with a
/// conflict copy when the local entry is live) when it has unsynced local
/// changes; delete it otherwise.
pub open spec fn delete_plan_of(dest_exists: bool, local: Option<FileStateEntry>, local_unsynced: bool) -> DeletePlan {
    if !dest_exists {
        DeletePlan::AlreadyGone
    } else if local_unsynced {
        if local matches Some(e) && !e.deleted {
            DeletePlan::KeepWithConflictCopy
        } else {
            DeletePlan::Keep
        }
    } else {
        DeletePlan::Delete
    }
}

/// The plan for a remote delete (see `delete_plan_of`). A remote delete removes
/// the local file exactly when it exists and holds no unsynced local change.
pub fn remote_delete_plan(dest_exists: bool, local: &Option<FileStateEntry>, local_unsynced: bool) -> (r: DeletePlan)
    ensures
        r == delete_plan_of(dest_exists, *local, local_unsynced),
        (r == DeletePlan::Delete) == (dest_exists && !local_unsynced),
{
    if !dest_exists {
        return DeletePlan::AlreadyGone;
    }
    if local_unsynced {
        match local {
            Some(e) => {
                if !e.deleted {
                    DeletePlan::KeepWithConflictCopy
                } else {
                    DeletePlan::Keep
                }
            },
            None => DeletePlan::Keep,
        }
    } else {
        DeletePlan::Delete
    }
}

impl DeletePlan {
    /// Whether the plan kept a file with unsynced local changes (the result the
    /// remote delete reports).
    pub fn kept_local(&self) -> (r: bool)
        ensures
            r == (*self == DeletePlan::KeepWithConflictCopy || *self == DeletePlan::Keep),
    {
        match self {
            DeletePlan::KeepWithConflictCopy => true,
            DeletePlan::Keep => true,
            _ => false,
        }
    }
}

} // verus!
