//! Decisions of the instance-scoped file operations: which path each one
//! touches, and whether the caller may touch it. Every path comes out of
//! `resolve`, and every write-class operation goes through the
//! protected-path policy unless the caller may write any file.
use vstd::prelude::*;
use crate::error::{Error, ErrorKind};
use crate::outside::{sanitize_name, sanitized};
use crate::path::{clone_segments, is_dot, is_dot_dot, resolve, resolve_spec, segments_view};
use crate::policy::{is_path_protected, is_protected};
use crate::text::str_eq;
use crate::upload::{unique_file_name, upload_name_ok};

verus! {

/// A write-class operation on `path` is allowed: the caller may write any
/// file, or the path is not protected.
pub open spec fn write_allowed(path: Seq<Seq<char>>, is_dir: bool, can_write_global: bool) -> bool {
    can_write_global || !is_protected(path, is_dir)
}

/// Refuses a write-class operation on a protected `path` to a caller that
/// may not write any file.
pub fn check_write_target(path: &Vec<String>, is_dir: bool, can_write_global: bool) -> (r: Result<(), Error>)
    ensures
        r is Ok <==> write_allowed(segments_view(path@), is_dir, can_write_global),
        r matches Err(e) ==> e.kind == ErrorKind::PermissionDenied,
{
    if !can_write_global && is_path_protected(path, is_dir) {
        return Err(Error::new(ErrorKind::PermissionDenied, "File extension is protected"));
    }
    Ok(())
}

/// Resolves `relative` below `root` as the target of a write-class
/// operation: the path must stay within the root and, when protected
/// (`is_dir` tells whether it names a directory), the caller must be able
/// to write any file.
pub fn resolve_write_target(
    root: &Vec<String>,
    relative: &str,
    is_dir: bool,
    can_write_global: bool,
) -> (r: Result<Vec<String>, Error>)
    ensures
        match r {
            Ok(p) => resolve_spec(segments_view(root@), relative@) == Some(segments_view(p@))
                && write_allowed(segments_view(p@), is_dir, can_write_global),
            Err(e) => match resolve_spec(segments_view(root@), relative@) {
                None => e.kind == ErrorKind::BadRequest,
                Some(p) => e.kind == ErrorKind::PermissionDenied && !write_allowed(
                    p,
                    is_dir,
                    can_write_global,
                ),
            },
        },
{
    let p = resolve(root, relative)?;
    check_write_target(&p, is_dir, can_write_global)?;
    Ok(p)
}

/// Refuses to move from or to a protected path, unless the caller may
/// write any file.
pub fn check_move(
    source: &Vec<String>,
    source_is_dir: bool,
    dest: &Vec<String>,
    dest_is_dir: bool,
    can_write_global: bool,
) -> (r: Result<(), Error>)
    ensures
        r is Ok <==> write_allowed(segments_view(source@), source_is_dir, can_write_global)
            && write_allowed(segments_view(dest@), dest_is_dir, can_write_global),
        r matches Err(e) ==> e.kind == ErrorKind::PermissionDenied,
{
    check_write_target(source, source_is_dir, can_write_global)?;
    check_write_target(dest, dest_is_dir, can_write_global)
}

/// Segment-wise equality of two paths.
pub fn same_path(a: &Vec<String>, b: &Vec<String>) -> (r: bool)
    ensures
        r == (segments_view(a@) == segments_view(b@)),
{
    if a.len() != b.len() {
        return false;
    }
    let mut i: usize = 0;
    while i < a.len()
        invariant
            a@.len() == b@.len(),
            i <= a@.len(),
            forall|k: int| 0 <= k < i ==> a@[k]@ == b@[k]@,
        decreases a@.len() - i,
    {
        if !str_eq(a[i].as_str(), b[i].as_str()) {
            assert(segments_view(a@)[i as int] != segments_view(b@)[i as int]);
            return false;
        }
        i = i + 1;
    }
    assert(segments_view(a@) =~= segments_view(b@));
    true
}

/// A directory may be removed: it is not the root itself, and a caller
/// that may not write any file removes neither a protected directory nor
/// one holding a protected file.
pub open spec fn remove_dir_allowed(
    root: Seq<Seq<char>>,
    path: Seq<Seq<char>>,
    can_write_global: bool,
    files_below: Seq<Seq<Seq<char>>>,
) -> bool {
    &&& path != root
    &&& can_write_global || {
        &&& !is_protected(path, true)
        &&& forall|i: int| 0 <= i < files_below.len() ==> !is_protected(#[trigger] files_below[i], false)
    }
}

pub open spec fn paths_view(v: Seq<Vec<String>>) -> Seq<Seq<Seq<char>>> {
    v.map_values(|p: Vec<String>| segments_view(p@))
}

/// Decides the removal of the directory `relative` below `root`, given the
/// files found below it, and returns the directory to remove.
pub fn remove_instance_dir(
    root: &Vec<String>,
    relative: &str,
    can_write_global: bool,
    files_below: &Vec<Vec<String>>,
) -> (r: Result<Vec<String>, Error>)
    ensures
        match r {
            Ok(p) => {
                &&& resolve_spec(segments_view(root@), relative@) == Some(segments_view(p@))
                &&& remove_dir_allowed(
                    segments_view(root@),
                    segments_view(p@),
                    can_write_global,
                    paths_view(files_below@),
                )
            },
            Err(e) => match resolve_spec(segments_view(root@), relative@) {
                None => e.kind == ErrorKind::BadRequest,
                Some(p) => e.kind == ErrorKind::PermissionDenied && !remove_dir_allowed(
                    segments_view(root@),
                    p,
                    can_write_global,
                    paths_view(files_below@),
                ),
            },
        },
{
    let path = resolve(root, relative)?;
    if same_path(&path, root) {
        return Err(Error::new(ErrorKind::PermissionDenied, "Cannot delete instance root"));
    }
    if !can_write_global {
        if is_path_protected(&path, true) {
            return Err(Error::new(ErrorKind::PermissionDenied, "File extension is protected"));
        }
        let mut i: usize = 0;
        while i < files_below.len()
            invariant
                i <= files_below@.len(),
                !can_write_global,
                resolve_spec(segments_view(root@), relative@) == Some(segments_view(path@)),
                segments_view(path@) != segments_view(root@),
                forall|k: int| 0 <= k < i ==> !is_protected(
                    #[trigger] paths_view(files_below@)[k],
                    false,
                ),
            decreases files_below@.len() - i,
        {
            if is_path_protected(&files_below[i], false) {
                assert(paths_view(files_below@)[i as int] == segments_view(files_below@[i as int]@));
                return Err(Error::new(ErrorKind::PermissionDenied, "File extension is protected"));
            }
            i = i + 1;
        }
    }
    Ok(path)
}

/// Removing a directory that resolves to the root itself is refused,
/// whatever the caller's capabilities and whatever lies below it.
pub proof fn lemma_remove_root_refused(
    root: Seq<Seq<char>>,
    relative: Seq<char>,
    can_write_global: bool,
    files_below: Seq<Seq<Seq<char>>>,
)
    requires
        resolve_spec(root, relative) == Some(root),
    ensures
        !remove_dir_allowed(root, root, can_write_global, files_below),
{
}

/// Some path of `relatives` escapes `root`.
pub open spec fn any_escapes(root: Seq<Seq<char>>, relatives: Seq<String>) -> bool {
    exists|i: int| 0 <= i < relatives.len() && #[trigger] resolve_spec(root, relatives[i]@) is None
}

/// Resolves each of `relatives` below `root`; the first that escapes
/// rejects them all.
pub fn resolve_all(root: &Vec<String>, relatives: &Vec<String>) -> (r: Result<Vec<Vec<String>>, Error>)
    ensures
        match r {
            Ok(ps) => ps@.len() == relatives@.len() && forall|i: int|
                0 <= i < ps@.len() ==> resolve_spec(segments_view(root@), relatives@[i]@) == Some(
                    segments_view(#[trigger] ps@[i]@),
                ),
            Err(e) => e.kind == ErrorKind::BadRequest && exists|i: int|
                0 <= i < relatives@.len() && #[trigger] resolve_spec(
                    segments_view(root@),
                    relatives@[i]@,
                ) is None,
        },
{
    let mut out: Vec<Vec<String>> = Vec::new();
    let mut i: usize = 0;
    while i < relatives.len()
        invariant
            i <= relatives@.len(),
            out@.len() == i,
            forall|k: int|
                0 <= k < i ==> resolve_spec(segments_view(root@), relatives@[k]@) == Some(
                    segments_view(#[trigger] out@[k]@),
                ),
        decreases relatives@.len() - i,
    {
        match resolve(root, relatives[i].as_str()) {
            Ok(p) => out.push(p),
            Err(e) => return Err(e),
        }
        i = i + 1;
    }
    Ok(out)
}

/// Where a copy reads and writes.
#[derive(Debug)]
pub struct CopyPlan {
    pub sources: Vec<Vec<String>>,
    pub dest: Vec<String>,
}

/// Decides a copy of `sources` to `dest`, all relative to `root`. The
/// destination, a directory when `dest_is_dir`, must be writable by the
/// caller.
pub fn copy_instance_files(
    root: &Vec<String>,
    sources: &Vec<String>,
    dest: &str,
    dest_is_dir: bool,
    can_write_global: bool,
) -> (r: Result<CopyPlan, Error>)
    ensures
        match r {
            Ok(plan) => {
                &&& plan.sources@.len() == sources@.len()
                &&& forall|i: int|
                    0 <= i < sources@.len() ==> resolve_spec(segments_view(root@), sources@[i]@)
                        == Some(segments_view(#[trigger] plan.sources@[i]@))
                &&& resolve_spec(segments_view(root@), dest@) == Some(segments_view(plan.dest@))
                &&& write_allowed(segments_view(plan.dest@), dest_is_dir, can_write_global)
            },
            Err(e) => if any_escapes(segments_view(root@), sources@) || resolve_spec(
                segments_view(root@),
                dest@,
            ) is None {
                e.kind == ErrorKind::BadRequest
            } else {
                e.kind == ErrorKind::PermissionDenied && !write_allowed(
                    resolve_spec(segments_view(root@), dest@)->Some_0,
                    dest_is_dir,
                    can_write_global,
                )
            },
        },
{
    let srcs = resolve_all(root, sources)?;
    let d = resolve(root, dest)?;
    assert(!any_escapes(segments_view(root@), sources@)) by {
        assert forall|i: int| 0 <= i < sources@.len() implies !(#[trigger] resolve_spec(
            segments_view(root@),
            sources@[i]@,
        ) is None) by {
            assert(resolve_spec(segments_view(root@), sources@[i]@) == Some(segments_view(srcs@[i]@)));
        }
    }
    check_write_target(&d, dest_is_dir, can_write_global)?;
    Ok(CopyPlan { sources: srcs, dest: d })
}

/// Decides the archiving of `targets` into `dest`, all relative to `root`,
/// with the same rules as a copy: every path is resolved, and the
/// destination must be writable by the caller.
pub fn zip_instance_files(
    root: &Vec<String>,
    targets: &Vec<String>,
    dest: &str,
    dest_is_dir: bool,
    can_write_global: bool,
) -> (r: Result<CopyPlan, Error>)
    ensures
        match r {
            Ok(plan) => {
                &&& plan.sources@.len() == targets@.len()
                &&& forall|i: int|
                    0 <= i < targets@.len() ==> resolve_spec(segments_view(root@), targets@[i]@)
                        == Some(segments_view(#[trigger] plan.sources@[i]@))
                &&& resolve_spec(segments_view(root@), dest@) == Some(segments_view(plan.dest@))
                &&& write_allowed(segments_view(plan.dest@), dest_is_dir, can_write_global)
            },
            Err(e) => if any_escapes(segments_view(root@), targets@) || resolve_spec(
                segments_view(root@),
                dest@,
            ) is None {
                e.kind == ErrorKind::BadRequest
            } else {
                e.kind == ErrorKind::PermissionDenied && !write_allowed(
                    resolve_spec(segments_view(root@), dest@)->Some_0,
                    dest_is_dir,
                    can_write_global,
                )
            },
        },
{
    copy_instance_files(root, targets, dest, dest_is_dir, can_write_global)
}

/// `path` with the leading `root` taken off, when `path` lies within `root`.
pub fn strip_root(root: &Vec<String>, path: &Vec<String>) -> (r: Option<Vec<String>>)
    ensures
        match r {
            Some(rest) => segments_view(path@) == segments_view(root@) + segments_view(rest@),
            None => !crate::path::is_within(segments_view(root@), segments_view(path@)),
        },
{
    if path.len() < root.len() {
        return None;
    }
    let mut i: usize = 0;
    while i < root.len()
        invariant
            root@.len() <= path@.len(),
            i <= root@.len(),
            forall|k: int| 0 <= k < i ==> root@[k]@ == path@[k]@,
        decreases root@.len() - i,
    {
        if !str_eq(root[i].as_str(), path[i].as_str()) {
            assert(segments_view(path@).subrange(0, root@.len() as int)[i as int] != segments_view(root@)[i as int]);
            return None;
        }
        i = i + 1;
    }
    let mut rest: Vec<String> = Vec::new();
    let mut j: usize = root.len();
    while j < path.len()
        invariant
            root@.len() <= j <= path@.len(),
            forall|k: int| 0 <= k < root@.len() ==> root@[k]@ == path@[k]@,
            rest@.len() == j - root@.len(),
            forall|k: int| 0 <= k < rest@.len() ==> rest@[k] == path@[root@.len() + k],
        decreases path@.len() - j,
    {
        rest.push(path[j].clone());
        j = j + 1;
    }
    assert(segments_view(path@) =~= segments_view(root@) + segments_view(rest@));
    Some(rest)
}

/// Where an unzip reads and writes.
#[derive(Debug)]
pub struct UnzipPlan {
    pub archive: Vec<String>,
    pub dest: Option<Vec<String>>,
}

/// Decides the extraction of the archive `archive` below `root`, into the
/// directory `dest` when one is given (else next to the archive). The
/// destination directory must be writable by the caller.
pub fn unzip_instance_file(
    root: &Vec<String>,
    archive: &str,
    dest: Option<&str>,
    can_write_global: bool,
) -> (r: Result<UnzipPlan, Error>)
    ensures
        match r {
            Ok(plan) => {
                &&& resolve_spec(segments_view(root@), archive@) == Some(segments_view(plan.archive@))
                &&& match dest {
                    None => plan.dest is None,
                    Some(d) => plan.dest matches Some(pd) && resolve_spec(segments_view(root@), d@)
                        == Some(segments_view(pd@)) && write_allowed(
                        segments_view(pd@),
                        true,
                        can_write_global,
                    ),
                }
            },
            Err(e) => match dest {
                None => e.kind == ErrorKind::BadRequest && resolve_spec(segments_view(root@), archive@) is None,
                Some(d) => if resolve_spec(segments_view(root@), archive@) is None || resolve_spec(
                    segments_view(root@),
                    d@,
                ) is None {
                    e.kind == ErrorKind::BadRequest
                } else {
                    e.kind == ErrorKind::PermissionDenied && !write_allowed(
                        resolve_spec(segments_view(root@), d@)->Some_0,
                        true,
                        can_write_global,
                    )
                },
            },
        },
{
    let a = resolve(root, archive)?;
    match dest {
        None => Ok(UnzipPlan { archive: a, dest: None }),
        Some(d) => {
            let pd = resolve(root, d)?;
            check_write_target(&pd, true, can_write_global)?;
            Ok(UnzipPlan { archive: a, dest: Some(pd) })
        },
    }
}

/// The sanitized name of an uploaded file, if it names an entry.
pub open spec fn upload_file_name(name: Seq<char>) -> Option<Seq<char>> {
    let s = sanitized(name);
    if s.len() == 0 || is_dot(s) || is_dot_dot(s) { None } else { Some(s) }
}

/// Decides where one uploaded file goes in the directory `dir`, which holds
/// the names `existing`: its sanitized name, or the first free suffixed
/// form of it. A missing or unusable name is a bad request; a protected
/// name is refused to a caller that may not write any file.
pub fn plan_upload(
    dir: &Vec<String>,
    file_name: Option<&str>,
    can_write_global: bool,
    existing: &Vec<String>,
) -> (r: Result<Vec<String>, Error>)
    requires
        existing@.len() < u64::MAX,
    ensures
        match r {
            Ok(p) => {
                let name = upload_file_name(file_name->Some_0@)->Some_0;
                &&& file_name is Some
                &&& upload_file_name(file_name->Some_0@) is Some
                &&& write_allowed(segments_view(dir@).push(name), false, can_write_global)
                &&& segments_view(p@).drop_last() == segments_view(dir@)
                &&& p@.len() == dir@.len() + 1
                &&& upload_name_ok(existing@, name, segments_view(p@).last())
            },
            Err(e) => match file_name {
                None => e.kind == ErrorKind::BadRequest,
                Some(n) => match upload_file_name(n@) {
                    None => e.kind == ErrorKind::BadRequest,
                    Some(s) => e.kind == ErrorKind::PermissionDenied && !write_allowed(
                        segments_view(dir@).push(s),
                        false,
                        can_write_global,
                    ),
                },
            },
        },
{
    let raw = match file_name {
        None => return Err(Error::new(ErrorKind::BadRequest, "Missing file name")),
        Some(n) => n,
    };
    let name = sanitize_name(raw);
    let n = name.as_str().unicode_len();
    if n == 0 || (n == 1 && name.as_str().get_char(0) == '.') || (n == 2 && name.as_str().get_char(0)
        == '.' && name.as_str().get_char(1) == '.') {
        return Err(Error::new(ErrorKind::BadRequest, "Invalid file name"));
    }
    let mut target = clone_segments(dir);
    target.push(name.clone());
    assert(segments_view(target@) =~= segments_view(dir@).push(name@));
    check_write_target(&target, false, can_write_global)?;
    let stored = unique_file_name(name.as_str(), existing);
    let mut p = clone_segments(dir);
    p.push(stored);
    assert(segments_view(p@) =~= segments_view(dir@).push(stored@));
    Ok(p)
}

} // verus!
