//! The protected-path policy: which paths ordinary writers may not modify.
use vstd::prelude::*;
use crate::path::{is_dot_dot, segments_view};
use crate::text::str_eq;

verus! {

/// Index of the last `.` in `s`, or -1 when there is none.
pub open spec fn last_dot(s: Seq<char>) -> int
    decreases s.len(),
{
    if s.len() == 0 {
        -1
    } else if s.last() == '.' {
        s.len() - 1
    } else {
        last_dot(s.drop_last())
    }
}

/// The extension of a file name: what follows its last `.`, unless that dot
/// opens the name (a hidden file such as `.profile` has none).
pub open spec fn extension(name: Seq<char>) -> Option<Seq<char>> {
    if is_dot_dot(name) || last_dot(name) <= 0 {
        None
    } else {
        Some(name.subrange(last_dot(name) + 1, name.len() as int))
    }
}

/// The file name without its extension and the dot before it.
pub open spec fn stem(name: Seq<char>) -> Seq<char> {
    if extension(name) is None {
        name
    } else {
        name.subrange(0, last_dot(name))
    }
}

/// Extensions of executables, scripts and server configuration.
pub open spec fn is_protected_extension(e: Seq<char>) -> bool {
    ||| e == "jar"@
    ||| e == "lua"@
    ||| e == "sh"@
    ||| e == "exe"@
    ||| e == "bat"@
    ||| e == "cmd"@
    ||| e == "msi"@
    ||| e == "lodestone_config"@
    ||| e == "out"@
    ||| e == "inf"@
}

/// Names of directories whose contents the game server loads as code.
pub open spec fn is_protected_dir_name(name: Seq<char>) -> bool {
    name == "mods"@
}

/// A directory is protected by its last segment, a file by its extension;
/// a path without a last segment, and a file without an extension, are
/// protected.
pub open spec fn is_protected(path: Seq<Seq<char>>, is_dir: bool) -> bool {
    if path.len() == 0 {
        true
    } else if is_dir {
        is_protected_dir_name(path.last())
    } else {
        match extension(path.last()) {
            None => true,
            Some(e) => is_protected_extension(e),
        }
    }
}

pub proof fn lemma_last_dot_bounds(s: Seq<char>)
    ensures
        -1 <= last_dot(s) < s.len(),
        last_dot(s) >= 0 ==> s[last_dot(s)] == '.',
        forall|k: int| last_dot(s) < k < s.len() ==> s[k] != '.',
    decreases s.len(),
{
    if s.len() > 0 && s.last() != '.' {
        lemma_last_dot_bounds(s.drop_last());
        assert forall|k: int| last_dot(s) < k < s.len() implies s[k] != '.' by {
            if k < s.len() - 1 {
                assert(s[k] == s.drop_last()[k]);
            }
        }
    }
}

pub fn last_dot_exec(s: &str) -> (r: Option<usize>)
    ensures
        match r {
            Some(i) => last_dot(s@) == i as int && i < s@.len(),
            None => last_dot(s@) == -1,
        },
{
    let mut j: usize = s.unicode_len();
    assert(s@.subrange(0, j as int) =~= s@);
    proof {
        lemma_last_dot_bounds(s@);
    }
    while j > 0
        invariant
            j <= s@.len(),
            last_dot(s@) == last_dot(s@.subrange(0, j as int)),
        decreases j,
    {
        let ghost pre = s@.subrange(0, j as int);
        assert(pre.drop_last() =~= s@.subrange(0, j - 1));
        if s.get_char(j - 1) == '.' {
            return Some(j - 1);
        }
        j = j - 1;
    }
    None
}

/// The extension of `name`, as `extension` states it.
pub fn extension_exec(name: &str) -> (r: Option<&str>)
    ensures
        match r {
            Some(e) => extension(name@) == Some(e@),
            None => extension(name@) is None,
        },
{
    let n = name.unicode_len();
    if n == 2 && name.get_char(0) == '.' && name.get_char(1) == '.' {
        return None;
    }
    match last_dot_exec(name) {
        None => None,
        Some(i) => {
            if i == 0 {
                None
            } else {
                Some(name.substring_char(i + 1, n))
            }
        },
    }
}

/// The stem of `name`, as `stem` states it.
pub fn stem_exec(name: &str) -> (r: &str)
    ensures
        r@ == stem(name@),
{
    let n = name.unicode_len();
    if n == 2 && name.get_char(0) == '.' && name.get_char(1) == '.' {
        return name;
    }
    match last_dot_exec(name) {
        None => name,
        Some(i) => {
            if i == 0 {
                name
            } else {
                name.substring_char(0, i)
            }
        },
    }
}

fn is_protected_extension_exec(e: &str) -> (r: bool)
    ensures
        r == is_protected_extension(e@),
{
    str_eq(e, "jar") || str_eq(e, "lua") || str_eq(e, "sh") || str_eq(e, "exe") || str_eq(e, "bat")
        || str_eq(e, "cmd") || str_eq(e, "msi") || str_eq(e, "lodestone_config") || str_eq(
        e,
        "out",
    ) || str_eq(e, "inf")
}

/// Whether `path` is write-protected; `is_dir` tells whether it names a
/// directory on disk.
pub fn is_path_protected(path: &Vec<String>, is_dir: bool) -> (r: bool)
    ensures
        r == is_protected(segments_view(path@), is_dir),
{
    if path.len() == 0 {
        return true;
    }
    let last = path[path.len() - 1].as_str();
    assert(segments_view(path@).last() == last@);
    if is_dir {
        str_eq(last, "mods")
    } else {
        match extension_exec(last) {
            None => true,
            Some(e) => is_protected_extension_exec(e),
        }
    }
}

/// The policy classifies every path, and a file whose name has no
/// extension is protected: unknown file types fail closed.
pub proof fn lemma_file_without_extension_protected(path: Seq<Seq<char>>)
    requires
        path.len() > 0,
        extension(path.last()) is None,
    ensures
        is_protected(path, false),
{
}

/// A directory is classified by its name alone: the protected names are
/// protected, any other name is not.
pub proof fn lemma_directory_by_name(path: Seq<Seq<char>>)
    requires
        path.len() > 0,
    ensures
        is_protected(path, true) == is_protected_dir_name(path.last()),
{
}

} // verus!
