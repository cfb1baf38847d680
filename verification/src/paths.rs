//! Paths inside the sync folder.
//!
//! Paths are handled as text. Their structure follows the Unix rules of
//! `std::path::Path`: a path splits on `/` into components; empty components and
//! `.` components are dropped, except that a leading `/` is the root component and
//! a leading `.` (alone or followed by `/`) is a current-directory component.
//! Relative paths that leave this module are normalized: `\` is read as `/`, any
//! `..` is refused, absolute paths are refused, and the remaining parts are joined
//! with `/`.
use vstd::prelude::*;

use crate::text::{
    chars_eq, chars_of, contains_dotdot, has_char, has_dotdot, push_all, replace_char, replace_chars, string_from_chars,
};

verus! {

/// Why a path was refused.
#[derive(Debug, Clone, Copy, PartialEq, Eq, Structural)]
pub enum PathError {
    /// The path holds `..` somewhere.
    Traversal,
    /// The path is absolute where a relative path was expected.
    Absolute,
    /// The path does not lie below the sync root.
    OutsideRoot,
    /// The resolved path leaves the sync directory.
    EscapesRoot,
}

// ---------------------------------------------------------------------------
// The component model
// ---------------------------------------------------------------------------

/// The `/`-separated segments of `s`, empty ones included (at least one).
pub open spec fn segments(s: Seq<char>) -> Seq<Seq<char>>
    decreases s.len(),
{
    if s.len() == 0 {
        seq![Seq::<char>::empty()]
    } else {
        let rest = segments(s.drop_last());
        if s.last() == '/' {
            rest.push(Seq::<char>::empty())
        } else {
            rest.update(rest.len() - 1, rest.last().push(s.last()))
        }
    }
}

/// A segment that names something: not empty and not `.`.
pub open spec fn is_part(seg: Seq<char>) -> bool {
    seg.len() > 0 && seg != seq!['.']
}

/// The segments that name something, in order.
pub open spec fn parts(segs: Seq<Seq<char>>) -> Seq<Seq<char>>
    decreases segs.len(),
{
    if segs.len() == 0 {
        Seq::empty()
    } else {
        let rest = parts(segs.drop_last());
        if is_part(segs.last()) {
            rest.push(segs.last())
        } else {
            rest
        }
    }
}

/// The given parts joined with `/`.
pub open spec fn join_slash(ps: Seq<Seq<char>>) -> Seq<char>
    decreases ps.len(),
{
    if ps.len() == 0 {
        Seq::empty()
    } else if ps.len() == 1 {
        ps[0]
    } else {
        join_slash(ps.drop_last()) + seq!['/'] + ps.last()
    }
}

/// The components of a path: `/` for the root, `.` for a leading current
/// directory, then every part (a `..` part is the parent directory).
pub open spec fn components(p: Seq<char>) -> Seq<Seq<char>> {
    let body = parts(segments(p));
    if p.len() > 0 && p[0] == '/' {
        seq![seq!['/']] + body
    } else if p.len() > 0 && p[0] == '.' && (p.len() == 1 || p[1] == '/') {
        seq![seq!['.']] + body
    } else {
        body
    }
}

/// A path written from its components.
pub open spec fn render(comps: Seq<Seq<char>>) -> Seq<char> {
    if comps.len() > 0 && comps[0] == seq!['/'] {
        seq!['/'] + join_slash(comps.skip(1))
    } else {
        join_slash(comps)
    }
}

/// `base` joined onto `root` (a relative `rel` is appended after a separator,
/// an absolute one replaces the root).
pub open spec fn path_join(root: Seq<char>, rel: Seq<char>) -> Seq<char> {
    if rel.len() > 0 && rel[0] == '/' {
        rel
    } else if root.len() == 0 || root.last() == '/' {
        root + rel
    } else {
        root + seq!['/'] + rel
    }
}

/// The components of `base` begin the components of `p`.
pub open spec fn path_starts_with(p: Seq<char>, base: Seq<char>) -> bool {
    components(base).is_prefix_of(components(p))
}

/// The last component of a path, when it names something.
pub open spec fn file_name_of(p: Seq<char>) -> Option<Seq<char>> {
    let comps = components(p);
    if comps.len() > 0 && comps.last() != seq!['/'] && comps.last() != seq!['.']
        && comps.last() != seq!['.', '.'] {
        Some(comps.last())
    } else {
        None
    }
}

/// The path without its last component, when the last component is not the root.
pub open spec fn parent_of(p: Seq<char>) -> Option<Seq<char>> {
    let comps = components(p);
    if comps.len() > 0 && comps.last() != seq!['/'] {
        Some(render(comps.drop_last()))
    } else {
        None
    }
}

/// The normalized form of a relative path, or why it is refused.
pub open spec fn normalized(path: Seq<char>) -> Result<Seq<char>, PathError> {
    let r = replace_char(path, '\\', '/');
    if contains_dotdot(r) {
        Err(PathError::Traversal)
    } else if r.len() > 0 && r[0] == '/' {
        Err(PathError::Absolute)
    } else {
        Ok(join_slash(parts(segments(r))))
    }
}

/// The views of a sequence of character vectors.
pub open spec fn views(v: Seq<Vec<char>>) -> Seq<Seq<char>> {
    v.map_values(|x: Vec<char>| x@)
}

/// The view of a string result.
pub open spec fn result_view<E>(r: Result<String, E>) -> Result<Seq<char>, E> {
    match r {
        Ok(s) => Ok(s@),
        Err(e) => Err(e),
    }
}

// ---------------------------------------------------------------------------
// Lemmas
// ---------------------------------------------------------------------------

/// Splitting at `/` always yields at least one segment.
pub proof fn lemma_segments_nonempty(s: Seq<char>)
    ensures
        segments(s).len() >= 1,
    decreases s.len(),
{
    if s.len() > 0 {
        lemma_segments_nonempty(s.drop_last());
    }
}

// ---------------------------------------------------------------------------
// Executable pieces
// ---------------------------------------------------------------------------

/// The `/`-separated segments of `s`.
pub fn split_segments(s: &[char]) -> (r: Vec<Vec<char>>)
    ensures
        views(r@) == segments(s@),
{
    let mut segs: Vec<Vec<char>> = Vec::new();
    segs.push(Vec::new());
    let mut i: usize = 0;
    assert(s@.take(0) =~= Seq::<char>::empty());
    assert(views(segs@) =~= segments(s@.take(0)));
    while i < s.len()
        invariant
            i <= s@.len(),
            segs@.len() >= 1,
            views(segs@) == segments(s@.take(i as int)),
        decreases s@.len() - i,
    {
        let c = s[i];
        let ghost prev = s@.take(i as int);
        let ghost next = s@.take(i + 1);
        assert(next.drop_last() =~= prev);
        assert(next.last() == c);
        proof {
            lemma_segments_nonempty(prev);
        }
        if c == '/' {
            segs.push(Vec::new());
            assert(views(segs@) =~= segments(next));
        } else {
            let mut last = segs.pop().unwrap();
            last.push(c);
            segs.push(last);
            assert(views(segs@) =~= segments(next));
        }
        i = i + 1;
    }
    assert(s@.take(s@.len() as int) =~= s@);
    segs
}

/// The segments that name something.
pub fn keep_parts(segs: &Vec<Vec<char>>) -> (r: Vec<Vec<char>>)
    ensures
        views(r@) == parts(views(segs@)),
{
    let mut out: Vec<Vec<char>> = Vec::new();
    let mut i: usize = 0;
    assert(views(segs@).take(0) =~= Seq::<Seq<char>>::empty());
    while i < segs.len()
        invariant
            i <= segs@.len(),
            views(out@) == parts(views(segs@).take(i as int)),
        decreases segs@.len() - i,
    {
        let seg = &segs[i];
        let ghost prev = views(segs@).take(i as int);
        let ghost next = views(segs@).take(i + 1);
        assert(next.drop_last() =~= prev);
        assert(next.last() == seg@);
        let is_dot = seg.len() == 1 && seg[0] == '.';
        if seg.len() > 0 && !is_dot {
            assert(seg@ != seq!['.']) by {
                if seg@ == seq!['.'] {
                    assert(seg@.len() == 1 && seg@[0] == '.');
                }
            }
            out.push(copy_chars(seg));
            assert(views(out@) =~= parts(next));
        } else {
            assert(!is_part(seg@)) by {
                if seg@.len() > 0 {
                    assert(seg@ =~= seq!['.']);
                }
            }
            assert(views(out@) =~= parts(next));
        }
        i = i + 1;
    }
    assert(views(segs@).take(segs@.len() as int) =~= views(segs@));
    out
}

/// The parts `lo..hi` joined with `/`.
pub fn join_range(ps: &Vec<Vec<char>>, lo: usize, hi: usize) -> (r: Vec<char>)
    requires
        lo <= hi <= ps@.len(),
    ensures
        r@ == join_slash(views(ps@).subrange(lo as int, hi as int)),
{
    let mut out: Vec<char> = Vec::new();
    let mut i: usize = lo;
    assert(views(ps@).subrange(lo as int, lo as int) =~= Seq::<Seq<char>>::empty());
    while i < hi
        invariant
            lo <= i <= hi <= ps@.len(),
            out@ == join_slash(views(ps@).subrange(lo as int, i as int)),
        decreases hi - i,
    {
        let ghost prev = views(ps@).subrange(lo as int, i as int);
        let ghost next = views(ps@).subrange(lo as int, i + 1);
        assert(next.drop_last() =~= prev);
        if i > lo {
            out.push('/');
        }
        push_all(&mut out, ps[i].as_slice());
        assert(out@ =~= join_slash(next));
        i = i + 1;
    }
    out
}

/// The given parts joined with `/`.
pub fn join_with_slash(ps: &Vec<Vec<char>>) -> (r: Vec<char>)
    ensures
        r@ == join_slash(views(ps@)),
{
    let r = join_range(ps, 0, ps.len());
    assert(views(ps@).subrange(0, ps@.len() as int) =~= views(ps@));
    r
}

/// A copy of a character vector.
pub fn copy_chars(v: &Vec<char>) -> (r: Vec<char>)
    ensures
        r@ == v@,
{
    let r = v.clone();
    assert(r@ =~= v@);
    r
}

/// The one-character vector `[c]`.
pub fn single(c: char) -> (r: Vec<char>)
    ensures
        r@ == seq![c],
{
    let mut r: Vec<char> = Vec::new();
    r.push(c);
    assert(r@ =~= seq![c]);
    r
}

/// Appends the vectors of `more` to `out`.
pub fn push_all_vecs(out: &mut Vec<Vec<char>>, more: &Vec<Vec<char>>)
    ensures
        views(final(out)@) == views(old(out)@) + views(more@),
{
    let ghost start = views(out@);
    let mut i: usize = 0;
    while i < more.len()
        invariant
            i <= more@.len(),
            views(out@) == start + views(more@).take(i as int),
        decreases more@.len() - i,
    {
        let ghost before = out@;
        let x = copy_chars(&more[i]);
        out.push(x);
        assert(out@ == before.push(x));
        assert(views(out@) =~= views(before).push(x@));
        assert(views(more@).take(i + 1) =~= views(more@).take(i as int).push(x@));
        assert(views(out@) =~= start + views(more@).take(i + 1));
        i = i + 1;
    }
    assert(views(more@).take(more@.len() as int) =~= views(more@));
}

/// The components of a path.
pub fn path_components(p: &[char]) -> (r: Vec<Vec<char>>)
    ensures
        views(r@) == components(p@),
{
    let segs = split_segments(p);
    let body = keep_parts(&segs);
    let mut out: Vec<Vec<char>> = Vec::new();
    if p.len() > 0 && p[0] == '/' {
        out.push(single('/'));
        assert(views(out@) =~= seq![seq!['/']]);
    } else if p.len() > 0 && p[0] == '.' && (p.len() == 1 || p[1] == '/') {
        out.push(single('.'));
        assert(views(out@) =~= seq![seq!['.']]);
    } else {
        assert(views(out@) =~= Seq::<Seq<char>>::empty());
    }
    push_all_vecs(&mut out, &body);
    assert(views(out@) =~= components(p@));
    out
}

/// Whether the components in `a` begin the components in `b`.
pub fn components_prefix(a: &Vec<Vec<char>>, b: &Vec<Vec<char>>) -> (r: bool)
    ensures
        r == views(a@).is_prefix_of(views(b@)),
{
    if a.len() > b.len() {
        return false;
    }
    let mut i: usize = 0;
    while i < a.len()
        invariant
            a@.len() <= b@.len(),
            i <= a@.len(),
            forall|j: int| 0 <= j < i ==> views(a@)[j] == views(b@)[j],
        decreases a@.len() - i,
    {
        if !chars_eq(a[i].as_slice(), b[i].as_slice()) {
            assert(views(b@).subrange(0, a@.len() as int)[i as int] != views(a@)[i as int]);
            return false;
        }
        i = i + 1;
    }
    assert(views(a@) =~= views(b@).subrange(0, a@.len() as int));
    true
}

/// Whether a character vector is the one-character sequence `c`.
fn is_single(v: &Vec<char>, c: char) -> (r: bool)
    ensures
        r == (v@ == seq![c]),
{
    let r = v.len() == 1 && v[0] == c;
    proof {
        if v@ == seq![c] {
            assert(v@.len() == 1);
        }
        if r {
            assert(v@ =~= seq![c]);
        }
    }
    r
}

/// The path written from the components `lo..hi`.
pub fn render_range(comps: &Vec<Vec<char>>, lo: usize, hi: usize) -> (r: Vec<char>)
    requires
        lo <= hi <= comps@.len(),
    ensures
        r@ == render(views(comps@).subrange(lo as int, hi as int)),
{
    let ghost cs = views(comps@).subrange(lo as int, hi as int);
    if lo < hi && is_single(&comps[lo], '/') {
        let mut out: Vec<char> = single('/');
        let rest = join_range(comps, lo + 1, hi);
        push_all(&mut out, rest.as_slice());
        assert(cs.skip(1) =~= views(comps@).subrange(lo + 1, hi as int));
        assert(out@ =~= seq!['/'] + join_slash(cs.skip(1)));
        out
    } else {
        join_range(comps, lo, hi)
    }
}

/// The normalized form of a relative path given as characters.
pub fn normalize_chars(chars: &[char]) -> (r: Result<Vec<char>, PathError>)
    ensures
        match r {
            Ok(v) => normalized(chars@) == Ok::<Seq<char>, PathError>(v@),
            Err(e) => normalized(chars@) == Err::<Seq<char>, PathError>(e),
        },
{
    let replaced = replace_chars(chars, '\\', '/');
    if has_dotdot(replaced.as_slice()) {
        return Err(PathError::Traversal);
    }
    if replaced.len() > 0 && replaced[0] == '/' {
        return Err(PathError::Absolute);
    }
    let segs = split_segments(replaced.as_slice());
    let ps = keep_parts(&segs);
    Ok(join_with_slash(&ps))
}

/// The normalized form of a relative path: `\` read as `/`, `.` and empty
/// parts dropped, parts joined with `/`. A path holding `..` is refused, and so
/// is an absolute one.
pub fn normalize_relative_path(path: &str) -> (r: Result<String, PathError>)
    ensures
        result_view(r) == normalized(path@),
{
    let chars = chars_of(path);
    match normalize_chars(chars.as_slice()) {
        Ok(v) => Ok(string_from_chars(v.as_slice())),
        Err(e) => Err(e),
    }
}

/// The path of `absolute` relative to `root`, or why there is none.
pub open spec fn relative_from_root(root: Seq<char>, absolute: Seq<char>) -> Result<Seq<char>, PathError> {
    let rc = components(root);
    let ac = components(absolute);
    if rc.is_prefix_of(ac) {
        normalized(render(ac.skip(rc.len() as int)))
    } else {
        Err(PathError::OutsideRoot)
    }
}

/// The normalized path of `absolute` below `root`: the components of `root`
/// must begin those of `absolute`; the rest is normalized.
pub fn relative_path_from_root(root: &str, absolute: &str) -> (r: Result<String, PathError>)
    ensures
        result_view(r) == relative_from_root(root@, absolute@),
{
    let rc = path_components(chars_of(root).as_slice());
    let ac = path_components(chars_of(absolute).as_slice());
    if !components_prefix(&rc, &ac) {
        return Err(PathError::OutsideRoot);
    }
    let rest = render_range(&ac, rc.len(), ac.len());
    assert(views(ac@).subrange(rc@.len() as int, ac@.len() as int) =~= views(ac@).skip(
        views(rc@).len() as int,
    ));
    match normalize_chars(rest.as_slice()) {
        Ok(v) => Ok(string_from_chars(v.as_slice())),
        Err(e) => Err(e),
    }
}

/// `rel` joined onto `root`, as characters.
pub fn join_chars(root: &[char], rel: &[char]) -> (r: Vec<char>)
    ensures
        r@ == path_join(root@, rel@),
{
    let mut out: Vec<char> = Vec::new();
    if rel.len() > 0 && rel[0] == '/' {
        push_all(&mut out, rel);
        assert(out@ =~= rel@);
        return out;
    }
    push_all(&mut out, root);
    if root.len() > 0 && root[root.len() - 1] != '/' {
        out.push('/');
    }
    push_all(&mut out, rel);
    assert(out@ =~= path_join(root@, rel@));
    out
}

/// `rel` joined onto `root` (a relative `rel` follows a separator; an absolute
/// one replaces the root).
pub fn join_path(root: &str, rel: &str) -> (r: String)
    ensures
        r@ == path_join(root@, rel@),
{
    let v = join_chars(chars_of(root).as_slice(), chars_of(rel).as_slice());
    string_from_chars(v.as_slice())
}

/// Where a relative path lands below the sync root, or why it is refused.
pub open spec fn safe_path(root: Seq<char>, relative: Seq<char>) -> Result<Seq<char>, PathError> {
    match normalized(relative) {
        Ok(n) => Ok(path_join(root, n)),
        Err(e) => Err(e),
    }
}

/// The destination of a relative path below the sync root: the normalized
/// path joined onto the root. The check against the canonical directories on
/// disk is `confine_to_root`.
pub fn resolve_safe_path(root: &str, relative: &str) -> (r: Result<String, PathError>)
    ensures
        result_view(r) == safe_path(root@, relative@),
{
    match normalize_chars(chars_of(relative).as_slice()) {
        Ok(n) => {
            let v = join_chars(chars_of(root).as_slice(), n.as_slice());
            Ok(string_from_chars(v.as_slice()))
        },
        Err(e) => Err(e),
    }
}

/// Whether the components of `base` begin the components of `path`.
pub fn starts_with_path(path: &str, base: &str) -> (r: bool)
    ensures
        r == path_starts_with(path@, base@),
{
    let pc = path_components(chars_of(path).as_slice());
    let bc = path_components(chars_of(base).as_slice());
    components_prefix(&bc, &pc)
}

/// Keeps `candidate` when the canonical form of its directory lies below the
/// canonical sync root; refuses it otherwise.
pub fn confine_to_root(candidate: String, canonical_root: &str, canonical_parent: &str) -> (r: Result<
    String,
    PathError,
>)
    ensures
        path_starts_with(canonical_parent@, canonical_root@) ==> r == Ok::<String, PathError>(
            candidate,
        ),
        !path_starts_with(canonical_parent@, canonical_root@) ==> r == Err::<String, PathError>(
            PathError::EscapesRoot,
        ),
{
    if starts_with_path(canonical_parent, canonical_root) {
        Ok(candidate)
    } else {
        Err(PathError::EscapesRoot)
    }
}

/// Whether a path is absolute (it begins at the root).
pub fn is_absolute_path(path: &str) -> (r: bool)
    ensures
        r == (path@.len() > 0 && path@[0] == '/'),
{
    let c = chars_of(path);
    c.len() > 0 && c[0] == '/'
}

/// The last component of a path, when it names something.
pub fn file_name(path: &str) -> (r: Option<String>)
    ensures
        match r {
            Some(s) => file_name_of(path@) == Some(s@),
            None => file_name_of(path@) is None,
        },
{
    let comps = path_components(chars_of(path).as_slice());
    let n = comps.len();
    if n == 0 {
        return None;
    }
    let last = &comps[n - 1];
    if is_single(last, '/') || is_single(last, '.') {
        return None;
    }
    if last.len() == 2 && last[0] == '.' && last[1] == '.' {
        assert(last@ =~= seq!['.', '.']);
        return None;
    }
    assert(last@ != seq!['.', '.']) by {
        if last@ == seq!['.', '.'] {
            assert(last@.len() == 2 && last@[0] == '.' && last@[1] == '.');
        }
    }
    Some(string_from_chars(last.as_slice()))
}

/// The path without its last component, when that component is not the root.
pub fn parent(path: &str) -> (r: Option<String>)
    ensures
        match r {
            Some(s) => parent_of(path@) == Some(s@),
            None => parent_of(path@) is None,
        },
{
    let comps = path_components(chars_of(path).as_slice());
    let n = comps.len();
    if n == 0 || is_single(&comps[n - 1], '/') {
        return None;
    }
    let v = render_range(&comps, 0, n - 1);
    assert(views(comps@).subrange(0, n - 1) =~= views(comps@).drop_last());
    Some(string_from_chars(v.as_slice()))
}

// ---------------------------------------------------------------------------
// Normalization is stable
// ---------------------------------------------------------------------------

/// A segment fit to stand in a normalized path: it names something and holds no
/// separator, no backslash and no `..`.
pub open spec fn clean_part(seg: Seq<char>) -> bool {
    &&& is_part(seg)
    &&& !has_char(seg, '/')
    &&& !has_char(seg, '\\')
    &&& !contains_dotdot(seg)
}

/// The segments of a text without a backslash and `..` hold neither, nor `/`.
proof fn lemma_segments_clean(s: Seq<char>)
    requires
        !has_char(s, '\\'),
        !contains_dotdot(s),
    ensures
        segments(s).len() >= 1,
        forall|k: int|
            0 <= k < segments(s).len() ==> {
                &&& !has_char(#[trigger] segments(s)[k], '/')
                &&& !has_char(segments(s)[k], '\\')
                &&& !contains_dotdot(segments(s)[k])
            },
        segments(s).last().len() <= s.len(),
        segments(s).last() == s.skip(s.len() - segments(s).last().len()),
    decreases s.len(),
{
    lemma_segments_nonempty(s);
    if s.len() > 0 {
        let t = s.drop_last();
        let c = s.last();
        assert(!has_char(t, '\\')) by {
            if has_char(t, '\\') {
                let i = choose|i: int| 0 <= i < t.len() && t[i] == '\\';
                assert(s[i] == '\\');
            }
        }
        assert(!contains_dotdot(t)) by {
            if contains_dotdot(t) {
                let i = choose|i: int| 0 <= i && i + 1 < t.len() && #[trigger] t[i] == '.' && t[i + 1] == '.';
                assert(s[i] == '.' && s[i + 1] == '.');
            }
        }
        lemma_segments_clean(t);
        let rest = segments(t);
        if c == '/' {
            assert(segments(s) == rest.push(Seq::<char>::empty()));
            assert(s.skip(s.len() - 0) =~= Seq::<char>::empty());
        } else {
            let old_last = rest.last();
            let new_last = old_last.push(c);
            assert(segments(s) == rest.update(rest.len() - 1, new_last));
            assert(c != '\\') by {
                assert(s[s.len() - 1] == c);
            }
            assert(!has_char(new_last, '/')) by {
                if has_char(new_last, '/') {
                    let i = choose|i: int| 0 <= i < new_last.len() && new_last[i] == '/';
                    if i < old_last.len() {
                        assert(old_last[i] == '/');
                    }
                }
            }
            assert(!has_char(new_last, '\\')) by {
                if has_char(new_last, '\\') {
                    let i = choose|i: int| 0 <= i < new_last.len() && new_last[i] == '\\';
                    if i < old_last.len() {
                        assert(old_last[i] == '\\');
                    }
                }
            }
            assert(!contains_dotdot(new_last)) by {
                if contains_dotdot(new_last) {
                    let i = choose|i: int|
                        0 <= i && i + 1 < new_last.len() && #[trigger] new_last[i] == '.' && new_last[i
                            + 1] == '.';
                    if i + 1 < old_last.len() {
                        assert(old_last[i] == '.' && old_last[i + 1] == '.');
                    } else {
                        let off = t.len() - old_last.len();
                        assert(t[off + i] == old_last[i]);
                        assert(s[off + i] == '.');
                        assert(s[off + i + 1] == '.');
                    }
                }
            }
            assert(new_last =~= s.skip(s.len() - new_last.len()));
            assert forall|k: int| 0 <= k < segments(s).len() implies {
                &&& !has_char(#[trigger] segments(s)[k], '/')
                &&& !has_char(segments(s)[k], '\\')
                &&& !contains_dotdot(segments(s)[k])
            } by {
                if k < rest.len() - 1 {
                    assert(segments(s)[k] == rest[k]);
                }
            }
        }
    }
}

/// The parts kept from clean segments are clean.
proof fn lemma_parts_clean(segs: Seq<Seq<char>>)
    requires
        forall|k: int|
            0 <= k < segs.len() ==> {
                &&& !has_char(#[trigger] segs[k], '/')
                &&& !has_char(segs[k], '\\')
                &&& !contains_dotdot(segs[k])
            },
    ensures
        forall|k: int| 0 <= k < parts(segs).len() ==> clean_part(#[trigger] parts(segs)[k]),
    decreases segs.len(),
{
    if segs.len() > 0 {
        let t = segs.drop_last();
        assert forall|k: int| 0 <= k < t.len() implies {
            &&& !has_char(#[trigger] t[k], '/')
            &&& !has_char(t[k], '\\')
            &&& !contains_dotdot(t[k])
        } by {
            assert(t[k] == segs[k]);
        }
        lemma_parts_clean(t);
        let l = segs.last();
        assert(segs[segs.len() - 1] == l);
        let rest = parts(t);
        assert forall|k: int| 0 <= k < parts(segs).len() implies clean_part(#[trigger] parts(segs)[k]) by {
            if is_part(l) {
                assert(parts(segs) == rest.push(l));
                if k < rest.len() {
                    assert(parts(segs)[k] == rest[k]);
                }
            } else {
                assert(parts(segs) == rest);
            }
        }
    }
}

/// Keeping the parts of a list of parts changes nothing.
proof fn lemma_parts_of_parts(ps: Seq<Seq<char>>)
    requires
        forall|k: int| 0 <= k < ps.len() ==> is_part(#[trigger] ps[k]),
    ensures
        parts(ps) == ps,
    decreases ps.len(),
{
    if ps.len() > 0 {
        lemma_parts_of_parts(ps.drop_last());
        assert(ps.drop_last().push(ps.last()) =~= ps);
    }
}

/// A text without `/` is a single segment.
proof fn lemma_segments_single(b: Seq<char>)
    requires
        !has_char(b, '/'),
    ensures
        segments(b) == seq![b],
    decreases b.len(),
{
    if b.len() > 0 {
        let t = b.drop_last();
        assert(!has_char(t, '/')) by {
            if has_char(t, '/') {
                let i = choose|i: int| 0 <= i < t.len() && t[i] == '/';
                assert(b[i] == '/');
            }
        }
        lemma_segments_single(t);
        assert(b[b.len() - 1] != '/');
        assert(t.push(b.last()) =~= b);
    } else {
        assert(b =~= Seq::<char>::empty());
    }
}

/// Appending `/` and a text without `/` appends one segment.
proof fn lemma_segments_after_slash(a: Seq<char>, b: Seq<char>)
    requires
        !has_char(b, '/'),
    ensures
        segments(a + seq!['/'] + b) == segments(a).push(b),
    decreases b.len(),
{
    let x = a + seq!['/'] + b;
    if b.len() == 0 {
        assert(x.drop_last() =~= a);
        assert(b =~= Seq::<char>::empty());
    } else {
        let t = b.drop_last();
        assert(!has_char(t, '/')) by {
            if has_char(t, '/') {
                let i = choose|i: int| 0 <= i < t.len() && t[i] == '/';
                assert(b[i] == '/');
            }
        }
        lemma_segments_after_slash(a, t);
        assert(x.drop_last() =~= a + seq!['/'] + t);
        assert(b[b.len() - 1] != '/');
        assert(x.last() == b.last());
        assert(t.push(b.last()) =~= b);
        assert(segments(a).push(t).update(segments(a).len() as int, t.push(b.last())) =~= segments(
            a,
        ).push(b));
    }
}

/// Joining two texts without `..` at a `/` makes no `..`.
proof fn lemma_dotdot_split(x: Seq<char>, y: Seq<char>)
    requires
        !contains_dotdot(x),
        !contains_dotdot(y),
    ensures
        !contains_dotdot(x + seq!['/'] + y),
{
    let z = x + seq!['/'] + y;
    if contains_dotdot(z) {
        let i = choose|i: int| 0 <= i && i + 1 < z.len() && #[trigger] z[i] == '.' && z[i + 1] == '.';
        if i + 1 < x.len() {
            assert(x[i] == '.' && x[i + 1] == '.');
        } else if i + 1 == x.len() {
            assert(z[i + 1] == '/');
        } else if i == x.len() {
            assert(z[i] == '/');
        } else {
            let j = i - x.len() - 1;
            assert(y[j] == z[i]);
            assert(y[j + 1] == z[i + 1]);
        }
    }
}

/// Clean parts joined with `/` form a clean relative text with the same parts.
proof fn lemma_join_clean(ps: Seq<Seq<char>>)
    requires
        forall|k: int| 0 <= k < ps.len() ==> clean_part(#[trigger] ps[k]),
    ensures
        !has_char(join_slash(ps), '\\'),
        !contains_dotdot(join_slash(ps)),
        ps.len() > 0 ==> join_slash(ps).len() > 0 && join_slash(ps)[0] != '/',
        parts(segments(join_slash(ps))) == ps,
    decreases ps.len(),
{
    if ps.len() == 0 {
        assert(join_slash(ps) =~= Seq::<char>::empty());
        assert(segments(join_slash(ps)) == seq![Seq::<char>::empty()]);
        let e = seq![Seq::<char>::empty()];
        assert(e.drop_last() =~= Seq::<Seq<char>>::empty());
        assert(e.last() == Seq::<char>::empty());
        assert(!is_part(Seq::<char>::empty()));
        assert(parts(e) == parts(e.drop_last()));
        assert(parts(e) =~= Seq::<Seq<char>>::empty());
    } else if ps.len() == 1 {
        let p = ps[0];
        assert(clean_part(ps[0]));
        lemma_segments_single(p);
        assert(p[0] != '/');
        let sp = seq![p];
        assert(sp.drop_last() =~= Seq::<Seq<char>>::empty());
        assert(sp.last() == p);
        assert(is_part(p));
        assert(parts(sp) == parts(sp.drop_last()).push(p));
        assert(parts(sp) =~= sp);
        assert(seq![p] =~= ps);
    } else {
        let t = ps.drop_last();
        let l = ps.last();
        assert(clean_part(ps[ps.len() - 1]));
        assert forall|k: int| 0 <= k < t.len() implies clean_part(#[trigger] t[k]) by {
            assert(t[k] == ps[k]);
        }
        lemma_join_clean(t);
        let j = join_slash(t);
        assert(join_slash(ps) == j + seq!['/'] + l);
        lemma_dotdot_split(j, l);
        assert(!has_char(j + seq!['/'] + l, '\\')) by {
            let z = j + seq!['/'] + l;
            if has_char(z, '\\') {
                let i = choose|i: int| 0 <= i < z.len() && z[i] == '\\';
                if i < j.len() {
                    assert(j[i] == '\\');
                } else if i > j.len() {
                    assert(l[i - j.len() - 1] == '\\');
                }
            }
        }
        lemma_segments_after_slash(j, l);
        assert(segments(join_slash(ps)).drop_last() =~= segments(j));
        assert(parts(segments(join_slash(ps))) =~= t.push(l));
        assert(t.push(l) =~= ps);
    }
}

/// Normalization is stable: a normalized path normalizes to itself. Every path
/// that leaves `normalize_relative_path` is therefore in the form the sync
/// protocol transmits.
pub proof fn lemma_normalized_is_fixed_point(path: Seq<char>)
    requires
        normalized(path) is Ok,
    ensures
        normalized(normalized(path)->Ok_0) == normalized(path),
        !contains_dotdot(normalized(path)->Ok_0),
        !has_char(normalized(path)->Ok_0, '\\'),
        normalized(path)->Ok_0.len() > 0 ==> normalized(path)->Ok_0[0] != '/',
{
    let r = replace_char(path, '\\', '/');
    assert(!has_char(r, '\\')) by {
        if has_char(r, '\\') {
            let i = choose|i: int| 0 <= i < r.len() && r[i] == '\\';
        }
    }
    lemma_segments_clean(r);
    lemma_parts_clean(segments(r));
    let ps = parts(segments(r));
    let q = join_slash(ps);
    lemma_join_clean(ps);
    assert(replace_char(q, '\\', '/') =~= q) by {
        assert forall|i: int| 0 <= i < q.len() implies q[i] != '\\' by {}
    }
    if ps.len() == 0 {
        assert(q =~= Seq::<char>::empty());
    }
    assert forall|k: int| 0 <= k < ps.len() implies is_part(#[trigger] ps[k]) by {
        assert(clean_part(ps[k]));
    }
    lemma_parts_of_parts(ps);
}

// ---------------------------------------------------------------------------
// Resolving and relativizing undo each other
// ---------------------------------------------------------------------------

/// Keeping parts distributes over concatenation.
proof fn lemma_parts_append(x: Seq<Seq<char>>, y: Seq<Seq<char>>)
    ensures
        parts(x + y) == parts(x) + parts(y),
    decreases y.len(),
{
    if y.len() == 0 {
        assert(x + y =~= x);
        assert(parts(x) + parts(y) =~= parts(x));
    } else {
        lemma_parts_append(x, y.drop_last());
        assert((x + y).drop_last() =~= x + y.drop_last());
        assert((x + y).last() == y.last());
        if is_part(y.last()) {
            assert(parts(x) + parts(y.drop_last()).push(y.last()) =~= (parts(x) + parts(
                y.drop_last(),
            )).push(y.last()));
        }
    }
}

/// The segments of a text, `/`, and joined clean parts.
proof fn lemma_segments_slash_join(a: Seq<char>, ps: Seq<Seq<char>>)
    requires
        ps.len() > 0,
        forall|k: int| 0 <= k < ps.len() ==> clean_part(#[trigger] ps[k]),
    ensures
        segments(a + seq!['/'] + join_slash(ps)) == segments(a) + ps,
    decreases ps.len(),
{
    if ps.len() == 1 {
        assert(clean_part(ps[0]));
        lemma_segments_after_slash(a, ps[0]);
        assert(segments(a).push(ps[0]) =~= segments(a) + ps);
    } else {
        let t = ps.drop_last();
        let l = ps.last();
        assert(clean_part(ps[ps.len() - 1]));
        assert forall|k: int| 0 <= k < t.len() implies clean_part(#[trigger] t[k]) by {
            assert(t[k] == ps[k]);
        }
        lemma_segments_slash_join(a, t);
        let b = a + seq!['/'] + join_slash(t);
        assert(a + seq!['/'] + join_slash(ps) =~= b + seq!['/'] + l);
        lemma_segments_after_slash(b, l);
        assert((segments(a) + t).push(l) =~= segments(a) + ps);
    }
}

/// The parts of a text, `/`, and joined clean parts, and its first characters.
proof fn lemma_parts_segments_join(a: Seq<char>, ps: Seq<Seq<char>>)
    requires
        forall|k: int| 0 <= k < ps.len() ==> clean_part(#[trigger] ps[k]),
    ensures
        parts(segments(a + seq!['/'] + join_slash(ps))) == parts(segments(a)) + ps,
        (a + seq!['/'] + join_slash(ps))[0] == (if a.len() > 0 { a[0] } else { '/' }),
        (a + seq!['/'] + join_slash(ps)).len() > 1 ==> (a + seq!['/'] + join_slash(ps))[1] == (if a.len()
            > 1 {
            a[1]
        } else if a.len() == 1 {
            '/'
        } else {
            join_slash(ps)[0]
        }),
{
    assert forall|k: int| 0 <= k < ps.len() implies is_part(#[trigger] ps[k]) by {
        assert(clean_part(ps[k]));
    }
    lemma_parts_of_parts(ps);
    if ps.len() == 0 {
        assert(join_slash(ps) =~= Seq::<char>::empty());
        assert((a + seq!['/'] + join_slash(ps)).drop_last() =~= a);
        lemma_segments_nonempty(a);
        assert(segments(a + seq!['/'] + join_slash(ps)) == segments(a).push(Seq::<char>::empty()));
        let sp = segments(a).push(Seq::<char>::empty());
        assert(sp.drop_last() =~= segments(a));
        assert(sp.last() == Seq::<char>::empty());
        assert(!is_part(Seq::<char>::empty()));
        assert(parts(sp) == parts(segments(a)));
        assert(parts(segments(a)) + ps =~= parts(segments(a)));
    } else {
        lemma_segments_slash_join(a, ps);
        lemma_parts_append(segments(a), ps);
    }
}

/// The components of a root with normalized parts joined onto it are the
/// components of the root followed by those parts.
proof fn lemma_components_of_join(root: Seq<char>, ps: Seq<Seq<char>>)
    requires
        forall|k: int| 0 <= k < ps.len() ==> clean_part(#[trigger] ps[k]),
    ensures
        components(path_join(root, join_slash(ps))) == components(root) + ps,
{
    let q = join_slash(ps);
    lemma_join_clean(ps);
    assert forall|k: int| 0 <= k < ps.len() implies is_part(#[trigger] ps[k]) by {
        assert(clean_part(ps[k]));
    }
    lemma_parts_of_parts(ps);
    if ps.len() > 0 {
        assert(clean_part(ps[0]));
        assert(q.len() >= ps[0].len()) by {
            if ps.len() > 1 {
                lemma_join_starts_with_first(ps);
            }
        }
        lemma_join_starts_with_first(ps);
    }
    if root.len() == 0 {
        assert(path_join(root, q) == root + q);
        assert(root + q =~= q);
        if ps.len() > 0 {
            lemma_join_starts_with_first(ps);
            assert(q[0] == ps[0][0]);
            if q[0] == '.' && q.len() > 1 {
                if ps[0].len() == 1 {
                    assert(ps[0] =~= seq!['.']);
                }
                assert(q[1] == ps[0][1]);
                assert(ps[0][1] != '/') by {
                    if ps[0][1] == '/' {
                        assert(has_char(ps[0], '/'));
                    }
                }
            }
            if q.len() == 1 && q[0] == '.' {
                assert(ps[0].len() == 1);
                assert(ps[0] =~= seq!['.']);
                assert(false);
            }
        }
        assert(components(root) =~= Seq::<Seq<char>>::empty()) by {
            lemma_segments_nonempty(root);
            assert(segments(root) == seq![Seq::<char>::empty()]);
            assert(seq![Seq::<char>::empty()].drop_last() =~= Seq::<Seq<char>>::empty());
            assert(parts(segments(root)) == parts(Seq::<Seq<char>>::empty()));
        }
        assert(components(root) + ps =~= ps);
    } else if root.last() == '/' {
        let r = root.drop_last();
        assert(r + seq!['/'] =~= root);
        assert(path_join(root, q) == root + q);
        assert(root + q =~= r + seq!['/'] + q);
        lemma_parts_segments_join(r, ps);
        let e = Seq::<Seq<char>>::empty();
        lemma_parts_segments_join(r, e);
        assert(join_slash(e) =~= Seq::<char>::empty());
        assert(r + seq!['/'] + join_slash(e) =~= root);
        assert(parts(segments(root)) == parts(segments(r)));
        assert(parts(segments(root)) + ps == parts(segments(r)) + ps);
        assert(components(path_join(root, q)) =~= components(root) + ps);
    } else {
        assert(path_join(root, q) == root + seq!['/'] + q);
        lemma_parts_segments_join(root, ps);
        assert(components(path_join(root, q)) =~= components(root) + ps);
    }
}

/// Parts joined with `/` begin with the first part.
proof fn lemma_join_starts_with_first(ps: Seq<Seq<char>>)
    requires
        ps.len() > 0,
    ensures
        join_slash(ps).len() >= ps[0].len(),
        forall|i: int| 0 <= i < ps[0].len() ==> join_slash(ps)[i] == ps[0][i],
        ps.len() == 1 ==> join_slash(ps) == ps[0],
        ps.len() > 1 ==> join_slash(ps).len() > ps[0].len() && join_slash(ps)[ps[0].len() as int]
            == '/',
    decreases ps.len(),
{
    if ps.len() > 1 {
        let t = ps.drop_last();
        lemma_join_starts_with_first(t);
        assert(t[0] == ps[0]);
        if t.len() == 1 {
            assert(join_slash(ps) == t[0] + seq!['/'] + ps.last());
        }
    }
}

/// Resolving a relative path below the root and reading it back relative to the
/// root gives the normalized path again.
pub proof fn lemma_resolve_then_relativize(root: Seq<char>, relative: Seq<char>)
    requires
        normalized(relative) is Ok,
    ensures
        relative_from_root(root, safe_path(root, relative)->Ok_0) == normalized(relative),
{
    let r = replace_char(relative, '\\', '/');
    assert(!has_char(r, '\\')) by {
        if has_char(r, '\\') {
            let i = choose|i: int| 0 <= i < r.len() && r[i] == '\\';
        }
    }
    lemma_segments_clean(r);
    lemma_parts_clean(segments(r));
    let ps = parts(segments(r));
    let q = join_slash(ps);
    assert(normalized(relative) == Ok::<Seq<char>, PathError>(q));
    lemma_components_of_join(root, ps);
    let rc = components(root);
    let ac = components(path_join(root, q));
    assert(rc.is_prefix_of(ac)) by {
        assert(ac.subrange(0, rc.len() as int) =~= rc);
    }
    assert(ac.skip(rc.len() as int) =~= ps);
    if ps.len() > 0 {
        assert(clean_part(ps[0]));
        assert(ps[0] != seq!['/']) by {
            if ps[0] == seq!['/'] {
                assert(ps[0][0] == '/');
                assert(has_char(ps[0], '/'));
            }
        }
    }
    assert(render(ps) == q);
    lemma_normalized_is_fixed_point(relative);
}

/// Writes stay inside the sync folder: a relative path that is accepted
/// resolves to a path whose components begin with those of the root.
pub proof fn lemma_resolved_path_below_root(root: Seq<char>, relative: Seq<char>)
    requires
        safe_path(root, relative) is Ok,
    ensures
        path_starts_with(safe_path(root, relative)->Ok_0, root),
{
    let r = replace_char(relative, '\\', '/');
    assert(!has_char(r, '\\')) by {
        if has_char(r, '\\') {
            let i = choose|i: int| 0 <= i < r.len() && r[i] == '\\';
        }
    }
    lemma_segments_clean(r);
    lemma_parts_clean(segments(r));
    let ps = parts(segments(r));
    lemma_components_of_join(root, ps);
    let rc = components(root);
    let ac = components(path_join(root, join_slash(ps)));
    assert(ac.subrange(0, rc.len() as int) =~= rc);
}

/// No segment holds `c` when `c` is the separator or the text lacks it.
proof fn lemma_segments_lack(s: Seq<char>, c: char)
    requires
        c == '/' || !has_char(s, c),
    ensures
        forall|k: int| 0 <= k < segments(s).len() ==> !has_char(#[trigger] segments(s)[k], c),
    decreases s.len(),
{
    if s.len() > 0 {
        let t = s.drop_last();
        assert(c == '/' || !has_char(t, c)) by {
            if c != '/' && has_char(t, c) {
                let i = choose|i: int| 0 <= i < t.len() && t[i] == c;
                assert(s[i] == c);
            }
        }
        lemma_segments_lack(t, c);
        lemma_segments_nonempty(t);
        let rest = segments(t);
        if s.last() != '/' {
            let x = rest.last();
            assert(x == rest[rest.len() - 1]);
            assert(s.last() != c) by {
                if s.last() == c {
                    assert(s[s.len() - 1] == c);
                }
            }
            assert(!has_char(x.push(s.last()), c)) by {
                if has_char(x.push(s.last()), c) {
                    let i = choose|i: int| 0 <= i < x.push(s.last()).len() && x.push(s.last())[i] == c;
                    if i < x.len() {
                        assert(x[i] == c);
                    }
                }
            }
            assert forall|k: int| 0 <= k < segments(s).len() implies !has_char(#[trigger] segments(s)[k], c) by {
                if k < rest.len() - 1 {
                    assert(segments(s)[k] == rest[k]);
                }
            }
        } else {
            assert forall|k: int| 0 <= k < segments(s).len() implies !has_char(#[trigger] segments(s)[k], c) by {
                if k < rest.len() {
                    assert(segments(s)[k] == rest[k]);
                } else {
                    assert(segments(s)[k] == Seq::<char>::empty());
                }
            }
        }
    }
}

/// The parts kept from segments that lack `c` lack it too, and name something.
proof fn lemma_parts_lack(segs: Seq<Seq<char>>, c: char)
    requires
        forall|j: int| 0 <= j < segs.len() ==> !has_char(#[trigger] segs[j], c),
    ensures
        forall|k: int| 0 <= k < parts(segs).len() ==> !has_char(#[trigger] parts(segs)[k], c) && is_part(
            parts(segs)[k],
        ),
    decreases segs.len(),
{
    if segs.len() > 0 {
        let t = segs.drop_last();
        assert forall|j: int| 0 <= j < t.len() implies !has_char(#[trigger] t[j], c) by {
            assert(t[j] == segs[j]);
        }
        lemma_parts_lack(t, c);
        assert(segs[segs.len() - 1] == segs.last());
        let rest = parts(t);
        assert forall|k: int| 0 <= k < parts(segs).len() implies !has_char(#[trigger] parts(segs)[k], c)
            && is_part(parts(segs)[k]) by {
            if is_part(segs.last()) && k == rest.len() {
            } else {
                assert(parts(segs)[k] == rest[k]);
            }
        }
    }
}

/// Parts joined with `/` hold a character other than `/` only when a part does.
proof fn lemma_join_lack(ps: Seq<Seq<char>>, c: char)
    requires
        c != '/',
        forall|k: int| 0 <= k < ps.len() ==> !has_char(#[trigger] ps[k], c),
    ensures
        !has_char(join_slash(ps), c),
    decreases ps.len(),
{
    if ps.len() > 1 {
        let t = ps.drop_last();
        assert forall|k: int| 0 <= k < t.len() implies !has_char(#[trigger] t[k], c) by {
            assert(t[k] == ps[k]);
        }
        lemma_join_lack(t, c);
        let a = join_slash(t);
        let b = ps.last();
        assert(ps[ps.len() - 1] == b);
        let z = a + seq!['/'] + b;
        if has_char(z, c) {
            let i = choose|i: int| 0 <= i < z.len() && z[i] == c;
            if i < a.len() {
                assert(a[i] == c);
            } else if i > a.len() {
                assert(b[i - a.len() - 1] == c);
            }
        }
    } else if ps.len() == 1 {
        assert(ps[0] == ps[0]);
    }
}

/// A `..` inside one part is a `..` inside the parts joined with `/`.
proof fn lemma_join_keeps_dotdot(ps: Seq<Seq<char>>, k: int)
    requires
        0 <= k < ps.len(),
        contains_dotdot(ps[k]),
    ensures
        contains_dotdot(join_slash(ps)),
    decreases ps.len(),
{
    if ps.len() > 1 {
        let t = ps.drop_last();
        let a = join_slash(t);
        let b = ps.last();
        let z = a + seq!['/'] + b;
        assert(join_slash(ps) == z);
        if k == ps.len() - 1 {
            let i = choose|i: int| 0 <= i && i + 1 < b.len() && #[trigger] b[i] == '.' && b[i + 1] == '.';
            assert(z[a.len() + 1 + i] == '.');
            assert(z[a.len() + 1 + i + 1] == '.');
        } else {
            assert(t[k] == ps[k]);
            lemma_join_keeps_dotdot(t, k);
            let i = choose|i: int| 0 <= i && i + 1 < a.len() && #[trigger] a[i] == '.' && a[i + 1] == '.';
            assert(z[i] == '.');
            assert(z[i + 1] == '.');
        }
    }
}

/// Reading a file's path relative to an absolute root and resolving it below
/// that root again gives the file back (the same components). The path must
/// hold no backslash, which a relative path reads as a separator.
pub proof fn lemma_relativize_then_resolve(root: Seq<char>, p: Seq<char>)
    requires
        root.len() > 0 && root[0] == '/',
        !has_char(p, '\\'),
        relative_from_root(root, p) is Ok,
    ensures
        safe_path(root, relative_from_root(root, p)->Ok_0) is Ok,
        components(safe_path(root, relative_from_root(root, p)->Ok_0)->Ok_0) == components(p),
{
    let rc = components(root);
    let ac = components(p);
    let body = parts(segments(p));
    lemma_segments_lack(p, '/');
    lemma_segments_lack(p, '\\');
    lemma_parts_lack(segments(p), '/');
    lemma_parts_lack(segments(p), '\\');
    assert(rc[0] == seq!['/']);
    assert(rc.is_prefix_of(ac));
    assert(ac[0] == rc[0]);
    assert(p.len() > 0 && p[0] == '/') by {
        if !(p.len() > 0 && p[0] == '/') {
            if p.len() > 0 && p[0] == '.' && (p.len() == 1 || p[1] == '/') {
                assert(ac[0] == seq!['.']);
                assert(seq!['.'][0] != seq!['/'][0]);
            } else {
                assert(ac == body);
                assert(!has_char(body[0], '/'));
                assert(ac[0][0] == '/');
            }
        }
    }
    assert(ac == seq![seq!['/']] + body);
    let n = rc.len() as int;
    let ps = ac.skip(n);
    assert forall|k: int| 0 <= k < ps.len() implies !has_char(#[trigger] ps[k], '/') && !has_char(ps[k], '\\')
        && is_part(ps[k]) by {
        assert(ps[k] == body[k + n - 1]);
    }
    if ps.len() > 0 {
        assert(ps[0] != seq!['/']) by {
            if ps[0] == seq!['/'] {
                assert(ps[0][0] == '/');
            }
        }
    }
    assert(render(ps) == join_slash(ps));
    lemma_join_lack(ps, '\\');
    let j = join_slash(ps);
    assert(replace_char(j, '\\', '/') =~= j) by {
        assert forall|i: int| 0 <= i < j.len() implies j[i] != '\\' by {
            if j[i] == '\\' {
                assert(has_char(j, '\\'));
            }
        }
    }
    assert(!contains_dotdot(j));
    assert forall|k: int| 0 <= k < ps.len() implies clean_part(#[trigger] ps[k]) by {
        if contains_dotdot(ps[k]) {
            lemma_join_keeps_dotdot(ps, k);
        }
    }
    lemma_join_clean(ps);
    assert(relative_from_root(root, p) == Ok::<Seq<char>, PathError>(j));
    lemma_normalized_is_fixed_point(j);
    lemma_components_of_join(root, ps);
    assert(rc + ps =~= ac);
}

} // verus!
