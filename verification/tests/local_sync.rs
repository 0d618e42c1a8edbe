use tengine_http::local::sync::{server_root_layout, synced, DirItem, ResourceSyncer, VersionDir, WalkEntry};

fn syncer() -> ResourceSyncer {
    ResourceSyncer::new("/u/Bundles", "DefaultPackage", "Android")
}

fn walk(path: &str, dir: &str, name: &str, is_file: bool, t: (u64, u32)) -> WalkEntry {
    WalkEntry { path: path.to_string(), dir: dir.to_string(), name: name.to_string(), is_file, modified: t }
}

#[test]
fn syncer_directories() {
    let s = syncer();
    assert_eq!(s.platform_dir(), "/u/Bundles/Android");
    assert_eq!(s.package_dir(), "/u/Bundles/Android/DefaultPackage");
    assert_eq!(s.version_file_name(), "DefaultPackage.version");
    assert_eq!(s.synced_version_file(), "/u/Bundles/Android/DefaultPackage.version");
    assert_eq!(s.version_dir("1.0.0"), "/u/Bundles/Android/DefaultPackage/1.0.0");
    let t = ResourceSyncer::new("/u/Bundles/", "P", "/abs");
    assert_eq!(t.platform_dir(), "/abs");
}

#[test]
fn newest_version_file_wins_and_later_ties_win() {
    let s = syncer();
    let d = "/u/Bundles/Android/DefaultPackage";
    let entries = vec![
        walk(&format!("{d}/1.0.0/DefaultPackage.version"), &format!("{d}/1.0.0"), "DefaultPackage.version", true, (10, 0)),
        walk(&format!("{d}/1.0.2/DefaultPackage.version"), &format!("{d}/1.0.2"), "DefaultPackage.version", true, (30, 5)),
        walk(&format!("{d}/OutputCache/DefaultPackage.version"), &format!("{d}/OutputCache"), "DefaultPackage.version", true, (99, 0)),
        walk(&format!("{d}/1.0.3/DefaultPackage.version"), &format!("{d}/1.0.3"), "DefaultPackage.version", false, (99, 0)),
        walk(&format!("{d}/1.0.1/DefaultPackage.version"), &format!("{d}/1.0.1"), "DefaultPackage.version", true, (30, 5)),
        walk(&format!("{d}/1.0.4/Other.version"), &format!("{d}/1.0.4"), "Other.version", true, (99, 0)),
    ];
    let (path, dir) = s.find_version_file(&entries).unwrap();
    assert_eq!(dir, format!("{d}/1.0.1"));
    assert_eq!(path, format!("{d}/1.0.1/DefaultPackage.version"));
    assert_eq!(s.latest_index(&entries), Some(4));
    let excluded = vec![
        walk(&format!("{d}/OutputCache/DefaultPackage.version"), &format!("{d}/OutputCache"), "DefaultPackage.version", true, (99, 0)),
        walk(&format!("{d}/1.0.3/DefaultPackage.version"), &format!("{d}/1.0.3"), "DefaultPackage.version", false, (99, 0)),
    ];
    assert!(s.find_version_file(&excluded).is_none());
    assert_eq!(s.latest_index(&excluded), None);
}

#[test]
fn version_files_are_read_trimmed() {
    let s = syncer();
    assert_eq!(s.read_latest_version(Some(Ok("  1.0.2\r\n".to_string()))), Some("1.0.2".to_string()));
    assert_eq!(s.read_latest_version(Some(Err("denied".to_string()))), None);
    assert_eq!(s.read_latest_version(None), None);
    assert_eq!(s.read_synced_version(Some(Ok("\t9\n".to_string()))), Some("9".to_string()));
    assert_eq!(s.read_version(Err("x".to_string())), Err("读取版本文件失败: x".to_string()));
}

#[test]
fn listed_versions_are_filtered_counted_and_newest_first() {
    let s = syncer();
    let dirs = vec![
        VersionDir { name: "1.0.0".to_string(), is_dir: true, has_version_file: true, modified: 5, file_sizes: vec![1, 2, 3] },
        VersionDir { name: "Simulate".to_string(), is_dir: true, has_version_file: true, modified: 50, file_sizes: vec![] },
        VersionDir { name: "notes.txt".to_string(), is_dir: false, has_version_file: false, modified: 60, file_sizes: vec![] },
        VersionDir { name: "1.0.1".to_string(), is_dir: true, has_version_file: true, modified: 9, file_sizes: vec![10] },
        VersionDir { name: "broken".to_string(), is_dir: true, has_version_file: false, modified: 70, file_sizes: vec![] },
        VersionDir { name: "0.9".to_string(), is_dir: true, has_version_file: true, modified: 5, file_sizes: vec![] },
    ];
    let v = s.list_versions(&dirs);
    let names: Vec<&str> = v.iter().map(|e| e.version.as_str()).collect();
    assert_eq!(names, vec!["1.0.1", "1.0.0", "0.9"]);
    assert_eq!((v[1].file_count, v[1].total_size, v[1].modified_timestamp), (3, 6, 5));
    assert_eq!((v[2].file_count, v[2].total_size), (0, 0));
}

#[test]
fn sync_source_decisions() {
    let s = syncer();
    let r = s.sync_source(false, None, false, None).unwrap_err();
    assert!(!r.success);
    assert_eq!(r.message, "平台目录不存在: /u/Bundles/Android");
    assert_eq!(r.version, None);
    let r = s.sync_source(true, Some("2.0"), false, None).unwrap_err();
    assert_eq!(r.message, "版本目录不存在: 2.0");
    assert_eq!(r.version, Some("2.0".to_string()));
    let ok = s.sync_source(true, Some("2.0"), true, None).unwrap();
    assert_eq!((ok.version.as_str(), ok.dir.as_str()), ("2.0", "/u/Bundles/Android/DefaultPackage/2.0"));
    let r = s.sync_source(true, None, false, None).unwrap_err();
    assert_eq!(r.message, "未找到 DefaultPackage.version 文件!");
    let ok = s.sync_source(true, None, false, Some(("/d/1.0.3".to_string(), Ok(" 1.0.3 ".to_string())))).unwrap();
    assert_eq!((ok.version.as_str(), ok.dir.as_str()), ("1.0.3", "/d/1.0.3"));
    let ok = s.sync_source(true, None, false, Some(("/d/x".to_string(), Err("e".to_string())))).unwrap();
    assert_eq!(ok.version, "");
}

#[test]
fn stale_files_and_copies() {
    let s = syncer();
    assert!(s.is_stale_file("DefaultPackage_abc.bundle"));
    assert!(s.is_stale_file("x.bundle"));
    assert!(s.is_stale_file("DefaultPackage.version"));
    assert!(s.is_stale_file("DefaultPackage_1.0.hash"));
    assert!(!s.is_stale_file("DefaultPackage"));
    assert!(!s.is_stale_file("readme.txt"));
    let items = vec![
        DirItem { name: "DefaultPackage_a.bundle".to_string(), is_file: true },
        DirItem { name: "DefaultPackage".to_string(), is_file: false },
        DirItem { name: "old.bundle".to_string(), is_file: false },
        DirItem { name: "keep.txt".to_string(), is_file: true },
        DirItem { name: "DefaultPackage.version".to_string(), is_file: true },
    ];
    assert_eq!(
        s.stale_files(&items),
        vec!["/u/Bundles/Android/DefaultPackage_a.bundle".to_string(), "/u/Bundles/Android/DefaultPackage.version".to_string()]
    );
    let jobs = s.copy_plan("/v/1.0.0", &items);
    let names: Vec<&str> = jobs.iter().map(|j| j.name.as_str()).collect();
    assert_eq!(names, vec!["DefaultPackage_a.bundle", "keep.txt", "DefaultPackage.version"]);
    assert_eq!(jobs[1].from, "/v/1.0.0/keep.txt");
    assert_eq!(jobs[1].to, "/u/Bundles/Android/keep.txt");
}

#[test]
fn sync_result_and_server_root() {
    let r = synced("1.0.0".to_string(), vec!["a".to_string()]);
    assert!(r.success);
    assert_eq!(r.message, "版本 1.0.0 同步完成");
    assert_eq!(r.version, Some("1.0.0".to_string()));
    assert_eq!(r.synced_files, vec!["a".to_string()]);
    let (root, link) = server_root_layout("/u/Bundles", "TEngine");
    assert_eq!(root, "/u/Bundles/_server_root");
    assert_eq!(link, "/u/Bundles/_server_root/TEngine");
}

#[test]
fn only_excluded_directories_hide_version_files() {
    let s = syncer();
    let d = "/u/Bundles/Android/DefaultPackage";
    let f = "DefaultPackage.version";
    let entries = vec![
        walk(&format!("{d}/OutputCache2/{f}"), &format!("{d}/OutputCache2"), f, true, (5, 0)),
        walk(&format!("{d}/1.0.5/_server_root/{f}"), &format!("{d}/1.0.5/_server_root"), f, true, (9, 0)),
        walk(&format!("{d}/Simulate/x/{f}"), &format!("{d}/Simulate/x"), f, true, (9, 0)),
    ];
    let (path, dir) = s.find_version_file(&entries).unwrap();
    assert_eq!(dir, format!("{d}/OutputCache2"));
    assert_eq!(path, format!("{d}/OutputCache2/{f}"));
    let t = ResourceSyncer::new("/home/Simulate/Bundles", "DefaultPackage", "Android");
    let e = "/home/Simulate/Bundles/Android/DefaultPackage";
    let found = vec![walk(&format!("{e}/2.0/{f}"), &format!("{e}/2.0"), f, true, (1, 0))];
    assert_eq!(t.latest_index(&found), Some(0));
}

#[test]
fn sync_of_the_newest_version() {
    let s = syncer();
    assert_eq!(s.sync(false, None).unwrap_err().message, "平台目录不存在: /u/Bundles/Android");
    assert_eq!(s.sync(true, None).unwrap_err().message, "未找到 DefaultPackage.version 文件!");
    let ok = s.sync(true, Some(("/d/3".to_string(), Ok("3\n".to_string())))).unwrap();
    assert_eq!((ok.version.as_str(), ok.dir.as_str()), ("3", "/d/3"));
}
