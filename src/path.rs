//! Paths scoped to a sandbox root.
//!
//! A path is a sequence of segments. A caller-supplied relative path is
//! untrusted text: it is split at both `/` and `\`, and then walked segment by
//! segment. Empty segments, `.` and drive designators such as `C:` are
//! dropped, `..` steps back one segment, and a `..` that would step above the
//! root rejects the whole path.
use vstd::prelude::*;
use crate::error::{Error, ErrorKind};

verus! {

pub open spec fn is_sep(c: char) -> bool {
    c == '/' || c == '\\'
}

/// The segments of `s` between separators, empty ones included.
pub open spec fn split_segments(s: Seq<char>) -> Seq<Seq<char>>
    decreases s.len(),
{
    if s.len() == 0 {
        seq![Seq::<char>::empty()]
    } else {
        let prev = split_segments(s.drop_last());
        if is_sep(s.last()) {
            prev.push(Seq::<char>::empty())
        } else {
            prev.update(prev.len() - 1, prev.last().push(s.last()))
        }
    }
}

pub open spec fn is_ascii_alpha(c: char) -> bool {
    ('a' <= c && c <= 'z') || ('A' <= c && c <= 'Z')
}

/// A drive designator such as `C:`.
pub open spec fn is_drive(seg: Seq<char>) -> bool {
    seg.len() == 2 && seg[1] == ':' && is_ascii_alpha(seg[0])
}

pub open spec fn is_dot(seg: Seq<char>) -> bool {
    seg.len() == 1 && seg[0] == '.'
}

pub open spec fn is_dot_dot(seg: Seq<char>) -> bool {
    seg.len() == 2 && seg[0] == '.' && seg[1] == '.'
}

/// A segment that names an entry: none of the segments the walk drops or
/// interprets, and free of separators.
pub open spec fn is_normal_segment(seg: Seq<char>) -> bool {
    &&& seg.len() > 0
    &&& !is_dot(seg)
    &&& !is_dot_dot(seg)
    &&& !is_drive(seg)
    &&& forall|i: int| 0 <= i < seg.len() ==> !is_sep(#[trigger] seg[i])
}

/// One step of the walk: the segments collected so far and the next raw one.
pub open spec fn walk_step(acc: Seq<Seq<char>>, seg: Seq<char>) -> Option<Seq<Seq<char>>> {
    if seg.len() == 0 || is_dot(seg) || is_drive(seg) {
        Some(acc)
    } else if is_dot_dot(seg) {
        if acc.len() == 0 { None } else { Some(acc.drop_last()) }
    } else {
        Some(acc.push(seg))
    }
}

/// Walks raw segments from the root; `None` when a `..` would leave it.
pub open spec fn walk(segs: Seq<Seq<char>>) -> Option<Seq<Seq<char>>>
    decreases segs.len(),
{
    if segs.len() == 0 {
        Some(Seq::empty())
    } else {
        match walk(segs.drop_last()) {
            None => None,
            Some(acc) => walk_step(acc, segs.last()),
        }
    }
}

/// What `relative` resolves to below `root`, or `None` when it escapes.
pub open spec fn resolve_spec(root: Seq<Seq<char>>, relative: Seq<char>) -> Option<Seq<Seq<char>>> {
    match walk(split_segments(relative)) {
        None => None,
        Some(rel) => Some(root + rel),
    }
}

/// `p` is `root` or lies below it.
pub open spec fn is_within(root: Seq<Seq<char>>, p: Seq<Seq<char>>) -> bool {
    p.len() >= root.len() && p.subrange(0, root.len() as int) == root
}

pub open spec fn segments_view(v: Seq<String>) -> Seq<Seq<char>> {
    v.map_values(|s: String| s@)
}

/// No character of a split segment is a separator.
proof fn lemma_split_no_sep(s: Seq<char>)
    ensures
        split_segments(s).len() >= 1,
        forall|k: int, i: int|
            0 <= k < split_segments(s).len() && 0 <= i < split_segments(s)[k].len()
                ==> !is_sep(#[trigger] split_segments(s)[k][i]),
    decreases s.len(),
{
    if s.len() > 0 {
        lemma_split_no_sep(s.drop_last());
        let prev = split_segments(s.drop_last());
        if !is_sep(s.last()) {
            let cur = split_segments(s);
            assert forall|k: int, i: int|
                0 <= k < cur.len() && 0 <= i < cur[k].len() implies !is_sep(#[trigger] cur[k][i]) by {
                if k == prev.len() - 1 {
                    if i < prev.last().len() {
                        assert(cur[k][i] == prev[k][i]);
                    }
                } else {
                    assert(cur[k] == prev[k]);
                }
            }
        }
    }
}

/// Every segment that the walk keeps is normal, provided every raw segment
/// is free of separators.
proof fn lemma_walk_normal(segs: Seq<Seq<char>>)
    requires
        forall|k: int, i: int|
            0 <= k < segs.len() && 0 <= i < segs[k].len() ==> !is_sep(#[trigger] segs[k][i]),
    ensures
        walk(segs) matches Some(acc) ==> forall|k: int| 0 <= k < acc.len() ==> is_normal_segment(
            #[trigger] acc[k],
        ),
    decreases segs.len(),
{
    if segs.len() > 0 {
        let init = segs.drop_last();
        assert forall|k: int, i: int|
            0 <= k < init.len() && 0 <= i < init[k].len() implies !is_sep(#[trigger] init[k][i]) by {
            assert(init[k] == segs[k]);
        }
        lemma_walk_normal(init);
        if let Some(acc) = walk(init) {
            let seg = segs.last();
            assert forall|i: int| 0 <= i < seg.len() implies !is_sep(#[trigger] seg[i]) by {
                assert(seg[i] == segs[segs.len() - 1][i]);
            }
        }
    }
}

/// Once the walk escapes, it stays rejected whatever follows.
proof fn lemma_walk_none_extends(segs: Seq<Seq<char>>, n: int)
    requires
        0 <= n <= segs.len(),
        walk(segs.subrange(0, n)) is None,
    ensures
        walk(segs) is None,
    decreases segs.len() - n,
{
    if n < segs.len() {
        let next = segs.subrange(0, n + 1);
        assert(next.drop_last() =~= segs.subrange(0, n));
        lemma_walk_none_extends(segs, n + 1);
    } else {
        assert(segs.subrange(0, n) =~= segs);
    }
}

/// Resolution never leaves the root: it is either rejected, or yields the
/// root followed by normal segments only.
pub proof fn lemma_resolve_within_root(root: Seq<Seq<char>>, relative: Seq<char>)
    ensures
        resolve_spec(root, relative) matches Some(p) ==> {
            &&& is_within(root, p)
            &&& forall|k: int| root.len() <= k < p.len() ==> is_normal_segment(#[trigger] p[k])
        },
{
    lemma_split_no_sep(relative);
    lemma_walk_normal(split_segments(relative));
    if let Some(p) = resolve_spec(root, relative) {
        let rel = walk(split_segments(relative))->0;
        assert(p.subrange(0, root.len() as int) =~= root);
        assert forall|k: int| root.len() <= k < p.len() implies is_normal_segment(#[trigger] p[k]) by {
            assert(p[k] == rel[k - root.len()]);
        }
    }
}


/// A copy of a path, segment by segment.
pub fn clone_segments(v: &Vec<String>) -> (r: Vec<String>)
    ensures
        r@ == v@,
{
    let mut r: Vec<String> = Vec::new();
    let mut k: usize = 0;
    while k < v.len()
        invariant
            k <= v@.len(),
            r@ == v@.subrange(0, k as int),
        decreases v@.len() - k,
    {
        r.push(v[k].clone());
        assert(r@ =~= v@.subrange(0, k + 1));
        k = k + 1;
    }
    assert(v@.subrange(0, v@.len() as int) =~= v@);
    r
}

fn is_sep_char(c: char) -> (r: bool)
    ensures
        r == is_sep(c),
{
    c == '/' || c == '\\'
}

/// Splits `s` at every separator.
fn split_exec(s: &str) -> (r: Vec<String>)
    ensures
        segments_view(r@) == split_segments(s@),
{
    let n = s.unicode_len();
    let mut done: Vec<String> = Vec::new();
    let mut start: usize = 0;
    let mut i: usize = 0;
    assert(s@.subrange(0, 0) =~= Seq::<char>::empty());
    assert(segments_view(done@) =~= Seq::<Seq<char>>::empty());
    assert(split_segments(Seq::<char>::empty()) =~= seq![Seq::<char>::empty()]);
    assert(s@.subrange(0, 0) =~= Seq::<char>::empty());
    while i < n
        invariant
            n == s@.len(),
            start <= i <= n,
            split_segments(s@.subrange(0, i as int)) == segments_view(done@).push(
                s@.subrange(start as int, i as int),
            ),
        decreases n - i,
    {
        let c = s.get_char(i);
        let ghost prev = s@.subrange(0, i as int);
        let ghost next = s@.subrange(0, i + 1);
        assert(next.drop_last() =~= prev);
        assert(next.last() == c);
        if is_sep_char(c) {
            let seg = String::from_str(s.substring_char(start, i));
            let ghost before = done@;
            done.push(seg);
            assert(segments_view(done@) =~= segments_view(before).push(seg@)) by {
                assert(done@ == before.push(seg));
            }
            start = i + 1;
            assert(s@.subrange(start as int, i + 1) =~= Seq::<char>::empty());
        } else {
            assert(s@.subrange(start as int, i + 1) =~= s@.subrange(start as int, i as int).push(c));
        }
        i = i + 1;
    }
    let seg = String::from_str(s.substring_char(start, n));
    let ghost before = done@;
    done.push(seg);
    assert(s@.subrange(0, n as int) =~= s@);
    assert(segments_view(done@) =~= segments_view(before).push(seg@)) by {
        assert(done@ == before.push(seg));
    }
    done
}

/// Whether `seg` is empty, `.` or a drive designator.
fn is_skipped_segment(seg: &str) -> (r: bool)
    ensures
        r == (seg@.len() == 0 || is_dot(seg@) || is_drive(seg@)),
{
    let n = seg.unicode_len();
    if n == 0 {
        return true;
    }
    if n == 1 {
        return seg.get_char(0) == '.';
    }
    if n == 2 {
        let c = seg.get_char(0);
        let d = seg.get_char(1);
        return d == ':' && (('a' <= c && c <= 'z') || ('A' <= c && c <= 'Z'));
    }
    false
}

fn is_dot_dot_exec(seg: &str) -> (r: bool)
    ensures
        r == is_dot_dot(seg@),
{
    seg.unicode_len() == 2 && seg.get_char(0) == '.' && seg.get_char(1) == '.'
}

/// Walks raw segments from the root, as `walk` does.
fn walk_exec(segs: Vec<String>) -> (r: Option<Vec<String>>)
    ensures
        match r {
            Some(v) => walk(segments_view(segs@)) == Some(segments_view(v@)),
            None => walk(segments_view(segs@)) is None,
        },
{
    let ghost all = segments_view(segs@);
    let mut acc: Vec<String> = Vec::new();
    let mut j: usize = 0;
    while j < segs.len()
        invariant
            j <= segs@.len(),
            all == segments_view(segs@),
            walk(all.subrange(0, j as int)) == Some(segments_view(acc@)),
        decreases segs@.len() - j,
    {
        let seg = &segs[j];
        let ghost prefix = all.subrange(0, j + 1);
        assert(prefix.drop_last() =~= all.subrange(0, j as int));
        assert(prefix.last() == seg@);
        if is_skipped_segment(seg.as_str()) {
        } else if is_dot_dot_exec(seg.as_str()) {
            if acc.len() == 0 {
                proof {
                    lemma_walk_none_extends(all, j + 1);
                }
                return None;
            }
            let ghost before = acc@;
            acc.pop();
            assert(segments_view(acc@) =~= segments_view(before).drop_last());
        } else {
            let ghost before = acc@;
            acc.push(seg.clone());
            assert(segments_view(acc@) =~= segments_view(before).push(seg@));
        }
        j = j + 1;
    }
    assert(all.subrange(0, segs@.len() as int) =~= all);
    Some(acc)
}

/// Joins the untrusted `relative` onto `root`: the root followed by the
/// walked segments of `relative`, or `BadRequest` when a `..` would step
/// above the root.
pub fn resolve(root: &Vec<String>, relative: &str) -> (r: Result<Vec<String>, Error>)
    ensures
        match r {
            Ok(p) => resolve_spec(segments_view(root@), relative@) == Some(segments_view(p@)),
            Err(e) => resolve_spec(segments_view(root@), relative@) is None && e.kind
                == ErrorKind::BadRequest,
        },
{
    let raw = split_exec(relative);
    match walk_exec(raw) {
        None => Err(Error::new(ErrorKind::BadRequest, "Path escapes its root")),
        Some(rel) => {
            let mut p = clone_segments(root);
            let mut m: usize = 0;
            while m < rel.len()
                invariant
                    m <= rel@.len(),
                    p@ == root@ + rel@.subrange(0, m as int),
                decreases rel@.len() - m,
            {
                p.push(rel[m].clone());
                assert(p@ =~= root@ + rel@.subrange(0, m + 1));
                m = m + 1;
            }
            assert(rel@.subrange(0, rel@.len() as int) =~= rel@);
            assert(segments_view(p@) =~= segments_view(root@) + segments_view(rel@));
            Ok(p)
        },
    }
}

} // verus!
