use tengine_http::remote::serve::{resource_content_type, resource_path, resource_raw_path, spa_asset_path, split_resource_path};
use tengine_http::remote::upload::{IncrementalSession, UploadSession};
use tengine_http::remote::ws::make_log;

#[test]
fn plain_upload_needs_platform_first() {
    let mut s = UploadSession::new();
    let e = s.on_file("20260101_000000").unwrap_err();
    assert_eq!((e.status, e.message.as_str()), (400, "platform field must come before files"));
    s.on_platform("Android".to_string());
    let r = s.on_file("20260101_000000").unwrap();
    assert_eq!((r.platform.as_str(), r.version.as_str()), ("Android", "20260101_000000"));
    s.on_saved();
    s.on_version("1.0.0".to_string());
    let r = s.on_file("later").unwrap();
    assert_eq!(r.version, "1.0.0");
    s.on_saved();
    assert_eq!(s.file_count, 2);
}

#[test]
fn incremental_upload_copies_once_before_new_files() {
    let mut s = IncrementalSession::new();
    s.on_platform("Android".to_string());
    let e = s.on_file("t").unwrap_err();
    assert_eq!((e.status, e.message.as_str()), (400, "base_version 字段必须先于 files"));
    s.on_base_version("1.0.0".to_string());
    s.on_version("1.0.1".to_string());
    s.on_copy_files("[\"a.bundle\", \"b.bundle\"]").unwrap();
    let step = s.on_file("t").unwrap();
    let copy = step.copy.expect("a copy before the first file");
    assert_eq!(copy.copy_files, vec!["a.bundle".to_string(), "b.bundle".to_string()]);
    assert_eq!((copy.base_version.as_str(), copy.version.as_str()), ("1.0.0", "1.0.1"));
    s.on_copied(2);
    s.on_saved();
    let step = s.on_file("t").unwrap();
    assert!(step.copy.is_none());
    assert_eq!(step.save.version, "1.0.1");
    assert!(s.finish("t").unwrap().is_none());
}

#[test]
fn incremental_upload_errors() {
    let mut s = IncrementalSession::new();
    let e = s.on_file("t").unwrap_err();
    assert_eq!((e.status, e.message.as_str()), (400, "platform 字段必须先于 files"));
    let e = s.on_copy_files("not json").unwrap_err();
    assert_eq!(e.status, 400);
    assert!(e.message.starts_with("解析 copy_files 失败: "));
    let e = s.finish("t").unwrap_err();
    assert_eq!((e.status, e.message.as_str()), (400, "缺少 platform 或 base_version"));
}

#[test]
fn incremental_upload_without_files_copies_at_the_end() {
    let mut s = IncrementalSession::new();
    s.on_platform("iOS".to_string());
    s.on_base_version("2.0".to_string());
    let c = s.finish("20260102_030405").unwrap().expect("copy at the end");
    assert_eq!(c.version, "20260102_030405");
    assert!(c.copy_files.is_empty());
}

#[test]
fn resource_paths_split_in_four() {
    let (a, b, c, d) = split_resource_path("v1/MyProject/Android/sub/file.bundle");
    assert_eq!((a.as_str(), b.as_str(), c.as_str(), d.as_str()), ("v1", "MyProject", "Android", "sub/file.bundle"));
    let (a, b, c, d) = split_resource_path("v1/MyProject");
    assert_eq!((a.as_str(), b.as_str(), c.as_str(), d.as_str()), ("v1", "MyProject", "", ""));
    assert_eq!(resource_raw_path("/res/v1/P/Android/a%20b.bundle"), "v1/P/Android/a%20b.bundle");
    assert_eq!(resource_path("/res/v1/P/Android/a%20b.bundle"), "v1/P/Android/a b.bundle");
    assert_eq!(resource_path("/res/v1/P/Android/%E4%B8%AD.bundle"), "v1/P/Android/中.bundle");
    assert_eq!(spa_asset_path("//assets/app.js"), "assets/app.js");
}

#[test]
fn content_types() {
    assert_eq!(resource_content_type("/x/DefaultPackage.version"), "text/plain; charset=utf-8");
    assert_eq!(resource_content_type("/x/a.HASH"), "text/plain; charset=utf-8");
    assert_eq!(resource_content_type("/x/a.json"), "application/json; charset=utf-8");
    assert_eq!(resource_content_type("/x/a.png"), "image/png; charset=utf-8");
    assert_eq!(resource_content_type("/x/a.bundle"), "application/octet-stream; charset=utf-8");
}

#[test]
fn log_lines_keep_their_fields() {
    let m = make_log("12:00:00".to_string(), "upload", 200, "POST", "/api/x", "p1", "done");
    assert_eq!(m.timestamp, "12:00:00");
    assert_eq!(m.kind, "upload");
    assert_eq!(m.status, 200);
    assert_eq!((m.method.as_str(), m.path.as_str(), m.project_id.as_str(), m.message.as_str()), ("POST", "/api/x", "p1", "done"));
}
