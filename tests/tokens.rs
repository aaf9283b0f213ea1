use lodestone_core::download::{download_instance_file, DownloadTokens};
use lodestone_core::error::ErrorKind;
use lodestone_core::fs_ops::{strip_root, zip_instance_files};

fn segs(parts: &[&str]) -> Vec<String> {
    parts.iter().map(|s| s.to_string()).collect()
}

#[test]
fn download_token_maps_to_resolved_path() {
    let mut t = DownloadTokens::new();
    let root = segs(&["srv", "alpha"]);
    let k = download_instance_file(&mut t, &root, "logs/latest.log", "tok1".to_string()).unwrap();
    assert_eq!(k, "tok1");
    assert_eq!(t.get("tok1"), Some(&segs(&["srv", "alpha", "logs", "latest.log"])));
    assert_eq!(t.get("tok2"), None);
}

#[test]
fn download_of_escaping_path_mints_nothing() {
    let mut t = DownloadTokens::new();
    let e = download_instance_file(&mut t, &segs(&["srv", "alpha"]), "../beta/x", "tok".to_string()).unwrap_err();
    assert_eq!(e.kind, ErrorKind::BadRequest);
    assert_eq!(t.get("tok"), None);
}

#[test]
fn reinserted_token_points_to_latest_path() {
    let mut t = DownloadTokens::new();
    t.insert("a".to_string(), segs(&["x"]));
    t.insert("b".to_string(), segs(&["y"]));
    t.insert("a".to_string(), segs(&["z"]));
    assert_eq!(t.get("a"), Some(&segs(&["z"])));
    assert_eq!(t.get("b"), Some(&segs(&["y"])));
}

#[test]
fn strip_root_gives_relative_rest() {
    let root = segs(&["srv", "alpha"]);
    assert_eq!(strip_root(&root, &segs(&["srv", "alpha", "w", "a.txt"])), Some(segs(&["w", "a.txt"])));
    assert_eq!(strip_root(&root, &root), Some(vec![]));
    assert_eq!(strip_root(&root, &segs(&["srv", "beta", "a"])), None);
    assert_eq!(strip_root(&root, &segs(&["srv"])), None);
}

#[test]
fn zip_destination_is_guarded() {
    let root = segs(&["srv", "alpha"]);
    let plan = zip_instance_files(&root, &segs(&["world"]), "backups", true, false).unwrap();
    assert_eq!(plan.dest, segs(&["srv", "alpha", "backups"]));
    let e = zip_instance_files(&root, &segs(&["world"]), "mods", true, false).unwrap_err();
    assert_eq!(e.kind, ErrorKind::PermissionDenied);
    let e = zip_instance_files(&root, &segs(&["../world"]), "b", true, true).unwrap_err();
    assert_eq!(e.kind, ErrorKind::BadRequest);
}
