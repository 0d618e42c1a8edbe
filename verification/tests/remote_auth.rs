use sha2::{Digest, Sha256};
use tengine_http::remote::auth::{
    pass_request, authorize, bearer_token, check_login, expiry_representable, issue_token, token_expiry, LoginRequest,
};
use tengine_http::remote::config::{EnvSettings, Protocol, ServerConfig};

fn digest_text(password: &str) -> String {
    hex::encode(Sha256::digest(password.as_bytes()))
}

fn settings(password: &str) -> EnvSettings {
    EnvSettings {
        admin_password: password.to_string(),
        jwt_secret: None,
        token_expire_hours: None,
        data_dir: None,
        port: None,
        tls_cert: None,
        tls_key: None,
        https_port: None,
    }
}

#[test]
fn server_config_defaults() {
    let c = ServerConfig::from_settings(settings("admin"));
    assert_eq!(c.token_expire_hours, 24);
    assert_eq!(c.data_dir, "/data");
    assert_eq!(c.port, 8082);
    assert_eq!(c.https_port, 8182);
    assert_eq!(c.jwt_secret.len(), 36);
    assert!(c.tls_cert.is_none() && c.tls_key.is_none());
    assert!(!c.tls_configured());
    assert_eq!(c.config_path(), "/data/config.json");
    assert_eq!(c.resources_dir(), "/data/resources");
    let _ = Protocol::Http;
}

#[test]
fn server_config_reads_settings() {
    let mut s = settings("admin");
    s.jwt_secret = Some("s3".to_string());
    s.token_expire_hours = Some("+48".to_string());
    s.data_dir = Some("/srv/tengine/".to_string());
    s.port = Some("9000".to_string());
    s.https_port = Some("70000".to_string());
    s.tls_cert = Some("c.pem".to_string());
    s.tls_key = Some("k.pem".to_string());
    let c = ServerConfig::from_settings(s);
    assert_eq!(c.jwt_secret, "s3");
    assert_eq!(c.token_expire_hours, 48);
    assert_eq!(c.port, 9000);
    assert_eq!(c.https_port, 8182);
    assert!(c.tls_configured());
    assert_eq!(c.config_path(), "/srv/tengine/config.json");
}

#[test]
fn login_with_password_digest_is_accepted() {
    let c = ServerConfig::from_settings(settings("admin"));
    let ok = LoginRequest { password: digest_text("admin") };
    assert_eq!(check_login(&c.password_hash, &ok), Ok(()));
    let wrong = LoginRequest { password: "admin".to_string() };
    assert_eq!(check_login(&c.password_hash, &wrong), Err(401));
    assert_eq!(check_login("not a phc string", &ok), Err(500));
}

#[test]
fn stored_hash_is_argon2_of_the_digest() {
    let c = ServerConfig::from_settings(settings("pässword"));
    assert!(c.password_hash.starts_with("$argon2"));
    let ok = LoginRequest { password: digest_text("pässword") };
    assert_eq!(check_login(&c.password_hash, &ok), Ok(()));
    let other = LoginRequest { password: digest_text("password") };
    assert_eq!(check_login(&c.password_hash, &other), Err(401));
}

#[test]
fn bearer_tokens() {
    assert_eq!(bearer_token("Bearer abc.def"), Some("abc.def".to_string()));
    assert_eq!(bearer_token("Bearer "), Some(String::new()));
    assert_eq!(bearer_token("bearer abc"), None);
    assert_eq!(bearer_token("Basic abc"), None);
    assert!(!authorize(None, "k"));
    assert!(!authorize(Some("Token x"), "k"));
}

#[test]
fn issued_tokens_authorize_until_they_expire() {
    let now = 1_700_000_000i64;
    assert!(expiry_representable(now, 24));
    assert_eq!(token_expiry(now, 24), now + 24 * 3600);
    let resp = issue_token(4_000_000_000, 1, "secret").unwrap();
    assert_eq!(resp.token.split('.').count(), 3);
    let header = format!("Bearer {}", resp.token);
    assert!(authorize(Some(&header), "secret"));
    assert!(!authorize(Some(&header), "other"));
    assert!(!authorize(Some(&resp.token), "secret"));
    let old = issue_token(1_000, 1, "secret").unwrap();
    assert!(!authorize(Some(&format!("Bearer {}", old.token)), "secret"));
}

#[test]
fn token_expiry_limits() {
    assert!(!expiry_representable(0, u64::MAX / 2));
    assert!(expiry_representable(0, u64::MAX));
    assert_eq!(token_expiry(7200, u64::MAX), 3600);
    assert!(!expiry_representable(8_210_266_876_799, 1));
}

#[test]
fn requests_pass_with_a_bearer_token_that_was_accepted() {
    assert!(pass_request(Some("Bearer abc"), true));
    assert!(!pass_request(Some("Bearer abc"), false));
    assert!(!pass_request(Some("Basic abc"), true));
    assert!(!pass_request(None, true));
}
