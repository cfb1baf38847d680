//! Which files in the sync folder take part in synchronization.
use vstd::prelude::*;

use crate::paths::{file_name, relative_path_from_root, PathError};
use crate::text::{chars_eq, chars_of, ends_with_chars, starts_with_chars};

verus! {

/// The Unicode lower-case form of a string (what `str::to_lowercase` returns).
pub uninterp spec fn lowercase(s: Seq<char>) -> Seq<char>;

/// The Unicode lower-case form of `s`, through `str::to_lowercase`. Trusted:
/// the result is the lower-case form named `lowercase`, a function of `s` alone.
#[verifier::external_body]
fn to_lowercase(s: &str) -> (r: String)
    ensures
        r@ == lowercase(s@),
{
    s.to_lowercase()
}

/// The name suffixes (compared in lower case) of editor, download and backup files.
pub open spec fn temp_suffix(lower: Seq<char>) -> bool {
    ||| crate::text::has_suffix(lower, ".tmp"@)
    ||| crate::text::has_suffix(lower, "~"@)
    ||| crate::text::has_suffix(lower, ".swp"@)
    ||| crate::text::has_suffix(lower, ".swx"@)
    ||| crate::text::has_suffix(lower, ".lock"@)
    ||| crate::text::has_suffix(lower, ".crdownload"@)
    ||| crate::text::has_suffix(lower, ".part"@)
    ||| crate::text::has_suffix(lower, ".partial"@)
    ||| crate::text::has_suffix(lower, ".download"@)
    ||| crate::text::has_suffix(lower, ".bak"@)
    ||| crate::text::has_suffix(lower, ".temp"@)
}

/// A file name that synchronization skips, given the name and its lower-case
/// form: the Finder's `.DS_Store`, Emacs lock files `.#...`, names ending in `#`,
/// and temporary, partial-download, swap, lock and backup files.
pub open spec fn ignored_name(name: Seq<char>, lower: Seq<char>) -> bool {
    ||| (crate::text::has_prefix(name, "."@) && name != ".gitkeep"@ && (name == ".DS_Store"@
        || crate::text::has_prefix(name, ".#"@)))
    ||| temp_suffix(lower)
    ||| crate::text::has_suffix(name, "#"@)
}

/// A path that synchronization skips: one without a file name, or whose file
/// name is ignored.
pub open spec fn temp_or_ignored(path: Seq<char>) -> bool {
    match crate::paths::file_name_of(path) {
        None => true,
        Some(name) => ignored_name(name, lowercase(name)),
    }
}

/// Whether `s` ends with the text `suffix`.
fn ends_with_str(s: &Vec<char>, suffix: &str) -> (r: bool)
    ensures
        r == crate::text::has_suffix(s@, suffix@),
{
    let p = chars_of(suffix);
    ends_with_chars(s.as_slice(), p.as_slice())
}

/// Whether a file name, given with its lower-case form, is one that
/// synchronization skips.
pub fn is_ignored_name(name: &str, lower: &str) -> (r: bool)
    ensures
        r == ignored_name(name@, lower@),
{
    let n = chars_of(name);
    let l = chars_of(lower);
    let dot = chars_of(".");
    if starts_with_chars(n.as_slice(), dot.as_slice()) && !chars_eq(
        n.as_slice(),
        chars_of(".gitkeep").as_slice(),
    ) {
        if chars_eq(n.as_slice(), chars_of(".DS_Store").as_slice()) || starts_with_chars(
            n.as_slice(),
            chars_of(".#").as_slice(),
        ) {
            return true;
        }
    }
    ends_with_str(&l, ".tmp") || ends_with_str(&l, "~") || ends_with_str(&l, ".swp")
        || ends_with_str(&l, ".swx") || ends_with_str(&l, ".lock") || ends_with_str(
        &l,
        ".crdownload",
    ) || ends_with_str(&l, ".part") || ends_with_str(&l, ".partial") || ends_with_str(
        &l,
        ".download",
    ) || ends_with_str(&l, ".bak") || ends_with_str(&l, ".temp") || ends_with_str(&n, "#")
}

/// Whether a path is one that synchronization skips: it has no file name, or its
/// file name is ignored.
pub fn is_temp_or_ignored(path: &str) -> (r: bool)
    ensures
        r == temp_or_ignored(path@),
{
    match file_name(path) {
        None => true,
        Some(name) => {
            let lower = to_lowercase(name.as_str());
            is_ignored_name(name.as_str(), lower.as_str())
        },
    }
}

/// What a walk of the sync folder does with one directory entry.
#[derive(Debug)]
pub enum WalkStep {
    /// A directory: walk into it.
    Descend,
    /// An ignored file: pass over it.
    Skip,
    /// A file to hash and record under this relative path.
    Record(String),
    /// The entry's path cannot be read relative to the root: the walk fails.
    Refuse(PathError),
}

/// The step for the entry at `path` below `root`; `is_dir` tells a directory.
pub open spec fn walk_step_is(r: WalkStep, root: Seq<char>, path: Seq<char>, is_dir: bool) -> bool {
    if is_dir {
        r is Descend
    } else if temp_or_ignored(path) {
        r is Skip
    } else {
        match crate::paths::relative_from_root(root, path) {
            Ok(rel) => r matches WalkStep::Record(p) && p@ == rel,
            Err(e) => r matches WalkStep::Refuse(x) && x == e,
        }
    }
}

/// What a walk of the sync folder does with the entry at `path` below `root`:
/// walk into directories, pass over ignored files, and record every other
/// file under its path relative to the root.
pub fn walk_step(root: &str, path: &str, is_dir: bool) -> (r: WalkStep)
    ensures
        walk_step_is(r, root@, path@, is_dir),
{
    if is_dir {
        return WalkStep::Descend;
    }
    if is_temp_or_ignored(path) {
        return WalkStep::Skip;
    }
    match relative_path_from_root(root, path) {
        Ok(rel) => WalkStep::Record(rel),
        Err(e) => WalkStep::Refuse(e),
    }
}

} // verus!
