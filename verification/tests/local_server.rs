use tengine_http::local::config::AccessTable;
use tengine_http::local::server::{
    access_refused, directory_page, format_size, local_content_type, local_reply, local_request, local_server_url,
    not_found_body, parent_link, EntryKind, ListedEntry, LocalReply, LogEntry,
};
use tengine_http::paths::{components, starts_with_path};

fn float_text(bytes: u64) -> String {
    const KB: u64 = 1024;
    const MB: u64 = 1024 * KB;
    const GB: u64 = 1024 * MB;
    if bytes >= GB {
        format!("{:.1} GB", bytes as f64 / GB as f64)
    } else if bytes >= MB {
        format!("{:.1} MB", bytes as f64 / MB as f64)
    } else if bytes >= KB {
        format!("{:.1} KB", bytes as f64 / KB as f64)
    } else {
        format!("{} B", bytes)
    }
}

#[test]
fn sizes_for_people() {
    assert_eq!(format_size(0), "0 B");
    assert_eq!(format_size(1023), "1023 B");
    assert_eq!(format_size(1024), "1.0 KB");
    assert_eq!(format_size(1536), "1.5 KB");
    assert_eq!(format_size(1280), float_text(1280));
    assert_eq!(format_size(1048576), "1.0 MB");
    assert_eq!(format_size(1073741824), "1.0 GB");
    assert_eq!(format_size(u64::MAX), "17179869184.0 GB");
}

#[test]
fn sizes_agree_with_float_formatting() {
    let mut samples: Vec<u64> = Vec::new();
    for b in 0..5000u64 {
        samples.push(b);
        samples.push(b * 1024 + 512);
        samples.push(b * 52_428 + 7);
        samples.push(b * 107_374_182 + 3);
    }
    for k in 0..64u32 {
        let p = 1u64 << k;
        samples.push(p);
        samples.push(p - 1);
        samples.push(p.wrapping_add(p / 2));
        samples.push(p.wrapping_mul(3) / 2 + 1);
    }
    let mut x: u64 = 0x9e37_79b9_7f4a_7c15;
    for _ in 0..20000 {
        x ^= x << 13;
        x ^= x >> 7;
        x ^= x << 17;
        samples.push(x);
        samples.push(x >> 20);
        samples.push(x >> 35);
    }
    for b in samples {
        assert_eq!(format_size(b), float_text(b), "bytes = {}", b);
    }
}

#[test]
fn path_components_and_prefixes() {
    let c: Vec<String> = components("/a//b/./c/").iter().map(|v| v.iter().collect()).collect();
    assert_eq!(c, vec!["/", "a", "b", "c"]);
    let c: Vec<String> = components("./x/.").iter().map(|v| v.iter().collect()).collect();
    assert_eq!(c, vec![".", "x"]);
    assert!(starts_with_path("/srv/root/Proj/a.bundle", "/srv/root"));
    assert!(starts_with_path("/srv/root", "/srv/root/"));
    assert!(!starts_with_path("/srv/rootx/a", "/srv/root"));
    assert!(!starts_with_path("/etc/passwd", "/srv/root"));
    for (p, b) in [("/srv/root/a", "/srv/root"), ("/srv/rootx", "/srv/root"), ("a/b", "a"), ("/a/./b", "/a/b"), ("/", "/")] {
        assert_eq!(starts_with_path(p, b), std::path::Path::new(p).starts_with(b), "{} under {}", p, b);
    }
}

#[test]
fn requests_are_read_and_answered() {
    let r = local_request("/srv/_server_root", "//TEngine/Android/a%20b.bundle");
    assert_eq!(r.req_path, "TEngine/Android/a%20b.bundle");
    assert_eq!(r.file_path, "/srv/_server_root/TEngine/Android/a b.bundle");
    let root = "/srv/_server_root";
    let bundles = "/u/Bundles";
    let reply = local_reply("TEngine/Android", Some(("/u/Bundles/Android".to_string(), EntryKind::Directory)), root, bundles);
    match &reply {
        LocalReply::Redirect { location } => assert_eq!(location, "/TEngine/Android/"),
        _ => panic!("expected a redirect"),
    }
    assert_eq!(reply.status(), 301);
    let reply = local_reply("TEngine/Android/", Some(("/u/Bundles/Android".to_string(), EntryKind::Directory)), root, bundles);
    match &reply {
        LocalReply::Listing { dir, shown_path } => {
            assert_eq!(dir, "/u/Bundles/Android");
            assert_eq!(shown_path, "/TEngine/Android/");
        }
        _ => panic!("expected a listing"),
    }
    assert_eq!(reply.status(), 200);
    let reply = local_reply("x", Some(("/etc/passwd".to_string(), EntryKind::File)), root, bundles);
    assert!(matches!(reply, LocalReply::Forbidden));
    assert_eq!(reply.status(), 403);
    assert!(matches!(local_reply("x", None, root, bundles), LocalReply::NotFound));
    assert!(matches!(local_reply("x", Some(("/u/Bundles/p".to_string(), EntryKind::Other)), root, bundles), LocalReply::NotFound));
    match local_reply("x", Some(("/u/Bundles/f.bundle".to_string(), EntryKind::File)), root, bundles) {
        LocalReply::File { path } => assert_eq!(path, "/u/Bundles/f.bundle"),
        _ => panic!("expected a file"),
    }
}

#[test]
fn platform_switch_refuses_first_segment() {
    let mut t = AccessTable::new();
    t.insert("Android", true);
    t.insert("iOS", false);
    assert!(!access_refused(&t, "Android/a.bundle"));
    assert!(access_refused(&t, "iOS/a.bundle"));
    assert!(access_refused(&t, "iOS"));
    assert!(!access_refused(&t, "WebGL/a.bundle"));
    assert!(!access_refused(&t, ""));
    t.insert("iOS", true);
    assert!(!access_refused(&t, "iOS/a.bundle"));
}

#[test]
fn parent_links() {
    for p in ["/a/b/", "/a/", "/a", "/a//b//c/", "/a/./b/.", "/..", "//x/", "/a/b/../"] {
        let parent = std::path::Path::new(p).parent().unwrap_or(std::path::Path::new("/")).to_string_lossy().to_string();
        let expected = if parent.is_empty() || parent == "." {
            "/".to_string()
        } else if !parent.ends_with('/') {
            format!("{}/", parent)
        } else {
            parent
        };
        assert_eq!(parent_link(p), expected, "parent of {}", p);
    }
}

#[test]
fn directory_pages_list_directories_first() {
    let entries = vec![
        ListedEntry { name: "b.bundle".to_string(), is_dir: false, size: 2048 },
        ListedEntry { name: "Zeta".to_string(), is_dir: true, size: 0 },
        ListedEntry { name: "a.bundle".to_string(), is_dir: false, size: 10 },
    ];
    let page = directory_page("/TEngine/", &entries);
    assert!(page.starts_with("<!DOCTYPE html>\n<html>\n<head>\n<meta charset=\"utf-8\">\n<title>Index of /TEngine/</title>"));
    assert!(page.contains("<h1>Index of /TEngine/</h1>"));
    let rows = "<tr class=\"dir\"><td><a href=\"/\">📁 ..</a></td><td>-</td><td>-</td></tr>\n\
<tr class=\"dir\"><td><a href=\"/TEngine/Zeta/\">📁 Zeta</a></td><td>-</td><td>-</td></tr>\n\
<tr class=\"file\"><td><a href=\"/TEngine/a.bundle\">📄 a.bundle</a></td><td>10 B</td><td>-</td></tr>\n\
<tr class=\"file\"><td><a href=\"/TEngine/b.bundle\">📄 b.bundle</a></td><td>2.0 KB</td><td>-</td></tr>";
    assert!(page.contains(&format!("<tbody>{}</tbody>", rows)));
    assert!(page.ends_with("</tbody>\n</table>\n</body>\n</html>"));
    let root = directory_page("/", &Vec::new());
    assert!(root.contains("<tbody></tbody>"));
}

#[test]
fn small_pieces() {
    let e = LogEntry::new("10:11:12".to_string(), 404, "GET", "x/y", "p");
    assert_eq!((e.timestamp.as_str(), e.status, e.method.as_str(), e.path.as_str(), e.project_id.as_str()), ("10:11:12", 404, "GET", "x/y", "p"));
    assert_eq!(not_found_body(), "<html><body><h1>404 - Not Found</h1></body></html>");
    assert_eq!(local_server_url(8081, "TEngine"), "http://127.0.0.1:8081/TEngine/");
    assert_eq!(local_content_type("/a/b.json"), "application/json; charset=utf-8");
    assert_eq!(local_content_type("/a/DefaultPackage.version"), "application/octet-stream; charset=utf-8");
}
