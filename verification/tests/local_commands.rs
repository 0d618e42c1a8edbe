use tengine_http::local::commands::{
    combine_sync, combine_version_sync, is_lan_ip, local_addresses, platform_line, prioritize_addresses, trim_end_char,
    upload_url, PlatformVersionInfo, RemoteUploadResult,
};
use tengine_http::local::sync::SyncResult;

fn result(success: bool, message: &str, version: Option<&str>, files: &[&str]) -> SyncResult {
    SyncResult {
        success,
        message: message.to_string(),
        version: version.map(|v| v.to_string()),
        synced_files: files.iter().map(|f| f.to_string()).collect(),
    }
}

#[test]
fn sync_results_are_combined() {
    let platforms = vec!["Android".to_string(), "iOS".to_string(), "WebGL".to_string()];
    let results = vec![
        result(true, "版本 1 同步完成", Some("1"), &["a", "b"]),
        result(false, "平台目录不存在: /x/iOS", None, &[]),
        result(true, "版本 2 同步完成", Some("2"), &["c"]),
    ];
    let r = combine_sync(&platforms, results);
    assert!(r.success);
    assert_eq!(r.message, "[Android] 版本 1 同步完成; [iOS] 平台目录不存在: /x/iOS; [WebGL] 版本 2 同步完成");
    assert_eq!(r.version, Some("2".to_string()));
    assert_eq!(r.synced_files, vec!["a".to_string(), "b".to_string(), "c".to_string()]);
    let results = vec![result(true, "ok", Some("1"), &["a"]), result(false, "no", None, &["z"])];
    let r = combine_sync(&platforms[..2].to_vec(), results);
    assert_eq!(r.version, Some("1".to_string()));
    assert_eq!(r.synced_files, vec!["a".to_string()]);
    let r = combine_sync(&Vec::new(), Vec::new());
    assert!(r.success && r.message.is_empty() && r.version.is_none() && r.synced_files.is_empty());
}

#[test]
fn version_sync_keeps_the_asked_version() {
    let platforms = vec!["Android".to_string()];
    let r = combine_version_sync(&platforms, vec![result(false, "版本目录不存在: 9", Some("9"), &[])], "9".to_string());
    assert!(r.success);
    assert_eq!(r.message, "[Android] 版本目录不存在: 9");
    assert_eq!(r.version, Some("9".to_string()));
    assert!(r.synced_files.is_empty());
    assert_eq!(platform_line("iOS", "m"), "[iOS] m");
}

#[test]
fn private_network_addresses() {
    assert!(is_lan_ip("192.168.1.5"));
    assert!(is_lan_ip("10.0.0.1"));
    assert!(is_lan_ip("172.16.0.1"));
    assert!(is_lan_ip("172.31.255.1"));
    assert!(is_lan_ip("172.+20.0.1"));
    assert!(is_lan_ip("172.016.0.1"));
    assert!(!is_lan_ip("172.32.0.1"));
    assert!(!is_lan_ip("172.15.0.1"));
    assert!(!is_lan_ip("172.300.0.1"));
    assert!(!is_lan_ip("172."));
    assert!(!is_lan_ip("8.8.8.8"));
    assert!(!is_lan_ip("127.0.0.1"));
}

#[test]
fn addresses_from_ifconfig() {
    let text = "lo0: flags=8049<UP,LOOPBACK,RUNNING,MULTICAST> mtu 16384\n\
\tinet 127.0.0.1 netmask 0xff000000\n\
en0: flags=8863<UP,BROADCAST,SMART,RUNNING,SIMPLEX,MULTICAST> mtu 1500\n\
\tinet 10.0.0.7 netmask 0xffffff00 broadcast 10.0.0.255\n\
\tinet6 fe80::1 prefixlen 64\n\
\tinet 192.168.1.20 netmask 0xffffff00 broadcast 192.168.1.255\r\n\
\tinet 8.8.8.8 netmask 0xffffff00\n\
\tinet 10.0.0.7 netmask 0xffffff00\n\
\tinet    172.20.1.1\n";
    let ips = local_addresses(text, false);
    assert_eq!(ips, vec!["10.0.0.7".to_string(), "192.168.1.20".to_string(), "172.20.1.1".to_string()]);
    let ordered = prioritize_addresses(&ips);
    assert_eq!(ordered, vec!["192.168.1.20".to_string(), "10.0.0.7".to_string(), "172.20.1.1".to_string()]);
}

#[test]
fn addresses_from_ipconfig() {
    let text = "Ethernet adapter:\r\n   IPv4 Address. . . . . . . . . . . : 192.168.0.12\r\n   Subnet Mask . . . : 255.255.255.0\r\n   IPv4 地址 . . . . : 10.1.2.3\r\n   IPv4 Address: 8.8.4.4\r\n";
    let ips = local_addresses(text, true);
    assert_eq!(ips, vec!["192.168.0.12".to_string(), "10.1.2.3".to_string()]);
    assert!(local_addresses("", true).is_empty());
}

#[test]
fn upload_addresses() {
    assert_eq!(
        upload_url("http://host:8082///", "p1", "v1"),
        "http://host:8082/api/projects/p1/project-versions/v1/upload"
    );
    assert_eq!(
        upload_url("http://h", "p", "release 1/中"),
        format!("http://h/api/projects/p/project-versions/{}/upload", urlencoding::encode("release 1/中"))
    );
    assert_eq!(upload_url("http://h", "p", "a~b_c.d-e"), "http://h/api/projects/p/project-versions/a~b_c.d-e/upload");
    assert_eq!(upload_url("h", "p", "a b"), "h/api/projects/p/project-versions/a%20b/upload");
    assert_eq!(trim_end_char("x//", '/'), "x");
    assert_eq!(trim_end_char("///", '/'), "");
}

#[test]
fn command_records() {
    let info = PlatformVersionInfo { platform: "Android".to_string(), latest: Some("2".to_string()), synced: None };
    assert_eq!(info.latest.as_deref(), Some("2"));
    let r = RemoteUploadResult { success: true, version: "1".to_string(), platform: "iOS".to_string(), file_count: 3 };
    assert_eq!(r.file_count, 3);
}

#[test]
fn prioritizing_keeps_every_address_once() {
    let ips: Vec<String> = ["10.0.0.1", "192.168.0.2", "172.16.0.3", "192.168.9.9"].iter().map(|s| s.to_string()).collect();
    let ordered = prioritize_addresses(&ips);
    assert_eq!(ordered, vec!["192.168.0.2", "192.168.9.9", "10.0.0.1", "172.16.0.3"]);
    let mut a = ips.clone();
    let mut b = ordered.clone();
    a.sort();
    b.sort();
    assert_eq!(a, b);
    let found = local_addresses("inet 10.0.0.1 x\ninet 10.0.0.1 y\ninet 192.168.0.2 z\n", false);
    assert_eq!(found, vec!["10.0.0.1".to_string(), "192.168.0.2".to_string()]);
}

#[test]
fn url_encoding_matches_the_crate() {
    for s in ["", "v1", "a b", "中文/版本", "~-_.", "100%", "é\u{1F600}", "a+b=c&d"] {
        assert_eq!(tengine_http::local::commands::url_encode(s), urlencoding::encode(s).into_owned());
    }
}
