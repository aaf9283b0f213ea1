use lodestone_core::error::ErrorKind;
use lodestone_core::fs_ops::{check_move, check_write_target, resolve_write_target, remove_instance_dir, resolve_all, copy_instance_files, unzip_instance_file};
use lodestone_core::path::resolve;
use lodestone_core::policy::{extension_exec, is_path_protected, stem_exec};

fn segs(parts: &[&str]) -> Vec<String> {
    parts.iter().map(|s| s.to_string()).collect()
}

fn root() -> Vec<String> {
    segs(&["srv", "instances", "alpha"])
}

#[test]
fn resolve_joins_plain_relative_path() {
    let p = resolve(&root(), "world/region").unwrap();
    assert_eq!(p, segs(&["srv", "instances", "alpha", "world", "region"]));
}

#[test]
fn resolve_drops_dots_and_empty_segments() {
    let p = resolve(&root(), "./a//b/./c/").unwrap();
    assert_eq!(p, segs(&["srv", "instances", "alpha", "a", "b", "c"]));
}

#[test]
fn resolve_steps_back_inside_root() {
    let p = resolve(&root(), "a/b/../c").unwrap();
    assert_eq!(p, segs(&["srv", "instances", "alpha", "a", "c"]));
    let q = resolve(&root(), "a/..").unwrap();
    assert_eq!(q, root());
}

#[test]
fn resolve_rejects_escape_through_parent() {
    let e = resolve(&root(), "../beta/server.jar").unwrap_err();
    assert_eq!(e.kind, ErrorKind::BadRequest);
    let e = resolve(&root(), "a/../../beta").unwrap_err();
    assert_eq!(e.kind, ErrorKind::BadRequest);
    let e = resolve(&root(), "..\\..\\etc").unwrap_err();
    assert_eq!(e.kind, ErrorKind::BadRequest);
}

#[test]
fn resolve_treats_absolute_input_as_relative() {
    let p = resolve(&root(), "/etc/passwd").unwrap();
    assert_eq!(p, segs(&["srv", "instances", "alpha", "etc", "passwd"]));
}

#[test]
fn resolve_strips_drive_letters() {
    let p = resolve(&root(), "C:\\Windows\\win.ini").unwrap();
    assert_eq!(p, segs(&["srv", "instances", "alpha", "Windows", "win.ini"]));
}

#[test]
fn resolve_empty_is_root() {
    assert_eq!(resolve(&root(), "").unwrap(), root());
}

#[test]
fn resolved_paths_stay_below_root() {
    for rel in ["a/../../b", "../..", "x/y/z/../../..", "/..", "C:/../..", "q/./../r", "..a/b", "a..", "."] {
        if let Ok(p) = resolve(&root(), rel) {
            assert!(p.len() >= 3);
            assert_eq!(&p[..3], &root()[..]);
            for seg in &p[3..] {
                assert!(seg != "." && seg != ".." && !seg.is_empty());
            }
        }
    }
}

#[test]
fn extension_and_stem_follow_last_dot() {
    assert_eq!(extension_exec("archive.tar.gz"), Some("gz"));
    assert_eq!(stem_exec("archive.tar.gz"), "archive.tar");
    assert_eq!(extension_exec(".profile"), None);
    assert_eq!(stem_exec(".profile"), ".profile");
    assert_eq!(extension_exec("Makefile"), None);
    assert_eq!(extension_exec("name."), Some(""));
}

#[test]
fn protected_files_by_extension() {
    assert!(is_path_protected(&segs(&["alpha", "server.jar"]), false));
    assert!(is_path_protected(&segs(&["alpha", "start.sh"]), false));
    assert!(is_path_protected(&segs(&["alpha", "x.lodestone_config"]), false));
    assert!(!is_path_protected(&segs(&["alpha", "notes.txt"]), false));
    assert!(!is_path_protected(&segs(&["alpha", "server.properties"]), false));
}

#[test]
fn files_without_extension_are_protected() {
    assert!(is_path_protected(&segs(&["alpha", "Makefile"]), false));
    assert!(is_path_protected(&segs(&["alpha", ".bashrc"]), false));
    assert!(is_path_protected(&segs(&[]), false));
}

#[test]
fn directories_are_protected_by_name() {
    assert!(is_path_protected(&segs(&["alpha", "mods"]), true));
    assert!(!is_path_protected(&segs(&["alpha", "world"]), true));
    assert!(!is_path_protected(&segs(&["alpha", "plugins.jar"]), true));
    assert!(is_path_protected(&segs(&[]), true));
}

#[test]
fn write_gate_depends_on_capability() {
    let jar = segs(&["alpha", "server.jar"]);
    let e = check_write_target(&jar, false, false).unwrap_err();
    assert_eq!(e.kind, ErrorKind::PermissionDenied);
    assert!(check_write_target(&jar, false, true).is_ok());
    assert!(check_write_target(&segs(&["alpha", "a.txt"]), false, false).is_ok());
}

#[test]
fn move_checks_both_ends() {
    let txt = segs(&["alpha", "a.txt"]);
    let jar = segs(&["alpha", "a.jar"]);
    assert!(check_move(&txt, false, &segs(&["alpha", "b.txt"]), false, false).is_ok());
    assert_eq!(check_move(&txt, false, &jar, false, false).unwrap_err().kind, ErrorKind::PermissionDenied);
    assert_eq!(check_move(&jar, false, &txt, false, false).unwrap_err().kind, ErrorKind::PermissionDenied);
    assert!(check_move(&jar, false, &txt, false, true).is_ok());
}

#[test]
fn remove_dir_of_root_is_always_refused() {
    for rel in ["", ".", "/", "world/..", "./a/../"] {
        let e = remove_instance_dir(&root(), rel, true, &vec![]).unwrap_err();
        assert_eq!(e.kind, ErrorKind::PermissionDenied);
        let e = remove_instance_dir(&root(), rel, false, &vec![]).unwrap_err();
        assert_eq!(e.kind, ErrorKind::PermissionDenied);
    }
}

#[test]
fn remove_dir_checks_protected_contents() {
    let below = vec![segs(&["srv", "instances", "alpha", "world", "plugin.jar"])];
    let e = remove_instance_dir(&root(), "world", false, &below).unwrap_err();
    assert_eq!(e.kind, ErrorKind::PermissionDenied);
    let p = remove_instance_dir(&root(), "world", true, &below).unwrap();
    assert_eq!(p, segs(&["srv", "instances", "alpha", "world"]));
    let fine = vec![segs(&["srv", "instances", "alpha", "world", "notes.txt"])];
    assert!(remove_instance_dir(&root(), "world", false, &fine).is_ok());
    let e = remove_instance_dir(&root(), "mods", false, &vec![]).unwrap_err();
    assert_eq!(e.kind, ErrorKind::PermissionDenied);
    let e = remove_instance_dir(&root(), "../beta", true, &vec![]).unwrap_err();
    assert_eq!(e.kind, ErrorKind::BadRequest);
}

#[test]
fn copy_resolves_every_source_and_guards_destination() {
    let plan = copy_instance_files(&root(), &segs(&["a.txt", "w/b.txt"]), "backup", true, false).unwrap();
    assert_eq!(plan.sources.len(), 2);
    assert_eq!(plan.sources[1], segs(&["srv", "instances", "alpha", "w", "b.txt"]));
    assert_eq!(plan.dest, segs(&["srv", "instances", "alpha", "backup"]));
    let e = copy_instance_files(&root(), &segs(&["a.txt", "../x"]), "backup", true, false).unwrap_err();
    assert_eq!(e.kind, ErrorKind::BadRequest);
    let e = copy_instance_files(&root(), &segs(&["a.txt"]), "mods", true, false).unwrap_err();
    assert_eq!(e.kind, ErrorKind::PermissionDenied);
    assert!(copy_instance_files(&root(), &segs(&["a.txt"]), "mods", true, true).is_ok());
    let e = copy_instance_files(&root(), &segs(&["../x"]), "mods", true, false).unwrap_err();
    assert_eq!(e.kind, ErrorKind::BadRequest);
    assert_eq!(resolve_all(&root(), &segs(&["x", "/y"])).unwrap()[1], segs(&["srv", "instances", "alpha", "y"]));
}

#[test]
fn unzip_destination_is_scoped_and_guarded() {
    let plan = unzip_instance_file(&root(), "pack.zip", Some("world"), false).unwrap();
    assert_eq!(plan.archive, segs(&["srv", "instances", "alpha", "pack.zip"]));
    assert_eq!(plan.dest, Some(segs(&["srv", "instances", "alpha", "world"])));
    assert!(unzip_instance_file(&root(), "pack.zip", None, false).unwrap().dest.is_none());
    let e = unzip_instance_file(&root(), "pack.zip", Some("mods"), false).unwrap_err();
    assert_eq!(e.kind, ErrorKind::PermissionDenied);
    let e = unzip_instance_file(&root(), "pack.zip", Some("../../x"), true).unwrap_err();
    assert_eq!(e.kind, ErrorKind::BadRequest);
    let e = unzip_instance_file(&root(), "../pack.zip", Some("mods"), false).unwrap_err();
    assert_eq!(e.kind, ErrorKind::BadRequest);
    let e = unzip_instance_file(&root(), "../pack.zip", None, true).unwrap_err();
    assert_eq!(e.kind, ErrorKind::BadRequest);
}

#[test]
fn write_target_is_resolved_then_guarded() {
    assert_eq!(resolve_write_target(&root(), "w/a.txt", false, false).unwrap(), segs(&["srv", "instances", "alpha", "w", "a.txt"]));
    assert_eq!(resolve_write_target(&root(), "w/a.jar", false, false).unwrap_err().kind, ErrorKind::PermissionDenied);
    assert_eq!(resolve_write_target(&root(), "../a.txt", false, true).unwrap_err().kind, ErrorKind::BadRequest);
    assert_eq!(resolve_write_target(&root(), "mods", true, false).unwrap_err().kind, ErrorKind::PermissionDenied);
}
