use tengine_http::paths::starts_with_path;
use std::path::PathBuf;
use tengine_http::remote::storage::{
    manifest_entry, rename_step, sort_files_by_name, sort_versions_newest_first, version_entry, FileEntry,
    RenameStep, Storage, VersionEntry,
};

#[test]
fn version_dir_includes_project_version_segment() {
    let s = Storage::new("/tmp/res".to_string());
    let p = s.version_dir("MyProject", "v1", "Android", "1.0.0").unwrap();
    assert_eq!(
        PathBuf::from(p),
        PathBuf::from("/tmp/res/MyProject/v1/Android/_versions/1.0.0")
    );
}

#[test]
fn rejects_path_traversal_in_components() {
    let s = Storage::new("/tmp/res".to_string());
    assert!(s.version_dir("..", "v1", "Android", "1.0.0").is_err());
    assert!(s.version_dir("p", "..", "Android", "1.0.0").is_err());
    assert!(s.version_dir("p", "v1", "/etc", "1.0.0").is_err());
}

#[test]
fn storage_directories_nest() {
    let s = Storage::new("/data/resources".to_string());
    assert_eq!(s.project_dir("Game").unwrap(), "/data/resources/Game");
    assert_eq!(s.project_version_dir("Game", "v2").unwrap(), "/data/resources/Game/v2");
    assert_eq!(s.platform_dir("Game", "v2", "iOS").unwrap(), "/data/resources/Game/v2/iOS");
    assert_eq!(s.versions_dir("Game", "v2", "iOS").unwrap(), "/data/resources/Game/v2/iOS/_versions");
}

#[test]
fn refused_component_is_named_in_the_error() {
    let s = Storage::new("/tmp/res".to_string());
    assert_eq!(s.project_dir("a/b").unwrap_err(), "Invalid path component: a/b");
    assert_eq!(s.project_dir("").unwrap_err(), "Invalid path component: ");
    assert_eq!(s.project_dir("x\\y").unwrap_err(), "Invalid path component: x\\y");
    assert_eq!(s.project_dir("a..b").unwrap_err(), "Invalid path component: a..b");
}

#[test]
fn rename_step_moves_only_an_existing_directory() {
    assert!(matches!(rename_step(true, false), RenameStep::Move));
    assert!(matches!(rename_step(false, false), RenameStep::Nothing));
    assert!(matches!(rename_step(true, true), RenameStep::TargetExists));
}

#[test]
fn version_listing_is_newest_first_and_stable() {
    let v = vec![
        VersionEntry { version: "a".to_string(), file_count: 1, total_size: 1, modified_timestamp: 5 },
        VersionEntry { version: "b".to_string(), file_count: 1, total_size: 1, modified_timestamp: 9 },
        VersionEntry { version: "c".to_string(), file_count: 1, total_size: 1, modified_timestamp: 5 },
    ];
    let r = sort_versions_newest_first(&v);
    let names: Vec<&str> = r.iter().map(|e| e.version.as_str()).collect();
    assert_eq!(names, vec!["b", "a", "c"]);
}

#[test]
fn files_are_listed_by_name() {
    let v = vec![
        FileEntry { name: "b.bundle".to_string(), size: 1, modified_timestamp: 0 },
        FileEntry { name: "A.bundle".to_string(), size: 1, modified_timestamp: 0 },
        FileEntry { name: "a.bundle".to_string(), size: 1, modified_timestamp: 0 },
    ];
    let r = sort_files_by_name(&v);
    let names: Vec<&str> = r.iter().map(|e| e.name.as_str()).collect();
    assert_eq!(names, vec!["A.bundle", "a.bundle", "b.bundle"]);
}

#[test]
fn version_entry_counts_and_sums() {
    let e = version_entry("1.0.0".to_string(), &vec![10, 20, 30], 77);
    assert_eq!(e.version, "1.0.0");
    assert_eq!(e.file_count, 3);
    assert_eq!(e.total_size, 60);
    assert_eq!(e.modified_timestamp, 77);
}

#[test]
fn manifest_entry_carries_md5() {
    let e = manifest_entry("x.bin".to_string(), b"abc");
    assert_eq!(e.name, "x.bin");
    assert_eq!(e.size, 3);
    assert_eq!(e.md5, "900150983cd24fb0d6963f7d28e17f72");
}

#[test]
fn bundle_version_dirs_are_isolated() {
    let s = Storage::new("/data/resources".to_string());
    let a = s.version_dir("P", "v1", "Android", "1.0.0").unwrap();
    let b = s.version_dir("P", "v2", "Android", "1.0.0").unwrap();
    let c = s.version_dir("P", "v1", "iOS", "1.0.0").unwrap();
    let d = s.version_dir("P", "v1", "Android", "1.0.1").unwrap();
    let e = s.version_dir("Q", "v1", "Android", "1.0.0").unwrap();
    let all = [&a, &b, &c, &d, &e];
    for i in 0..all.len() {
        for j in 0..all.len() {
            assert_eq!(i == j, all[i] == all[j]);
        }
    }
}

#[test]
fn bundle_version_dirs_do_not_nest() {
    let s = Storage::new("/data/resources".to_string());
    let dirs = [
        s.version_dir("P", "v1", "Android", "1.0.0").unwrap(),
        s.version_dir("P", "v1", "Android", "1.0.0.1").unwrap(),
        s.version_dir("P", "v1", "Android", "_versions").unwrap(),
        s.version_dir("P", "v1x", "Android", "1.0.0").unwrap(),
    ];
    for i in 0..dirs.len() {
        for j in 0..dirs.len() {
            assert_eq!(i == j, starts_with_path(&dirs[i], &dirs[j]));
        }
    }
    let versions = s.versions_dir("P", "v1", "Android").unwrap();
    assert!(starts_with_path(&s.version_dir("P", "v1", "Android", ".").unwrap(), &versions));
}
