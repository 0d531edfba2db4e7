use cantrip::credentials::{
    entered_key, permission_warning, resolve_api_key, resolve_url, resolve_url_for_login,
    warns_without_key, with_default_project,
};
use cantrip::{Command, Credentials};

fn creds(key: &str, url: &str) -> Credentials {
    Credentials { api_key: key.to_string(), daemon_url: url.to_string(), default_project: None }
}

#[test]
fn login_url_order() {
    assert_eq!(resolve_url_for_login(Some("http://a/"), Some("http://b")), "http://a");
    assert_eq!(resolve_url_for_login(None, Some("http://b//")), "http://b");
    assert_eq!(resolve_url_for_login(None, Some("")), "https://api.cantrip.ai");
    assert_eq!(resolve_url_for_login(None, None), "https://api.cantrip.ai");
    assert_eq!(resolve_url_for_login(Some(""), Some("http://b")), "");
}

#[test]
fn request_url_order() {
    let c = creds("k", "http://stored/");
    assert_eq!(resolve_url(Some("http://env/"), Some(&c)), "http://env");
    assert_eq!(resolve_url(Some(""), Some(&c)), "http://stored/");
    assert_eq!(resolve_url(None, Some(&creds("k", ""))), "https://api.cantrip.ai");
    assert_eq!(resolve_url(None, None), "https://api.cantrip.ai");
}

#[test]
fn api_key_order() {
    let c = creds("stored", "u");
    assert_eq!(resolve_api_key(Some("env"), Some(&c)), Some("env".to_string()));
    assert_eq!(resolve_api_key(Some(""), Some(&c)), Some("stored".to_string()));
    assert_eq!(resolve_api_key(None, Some(&creds("", "u"))), None);
    assert_eq!(resolve_api_key(None, None), None);
}

#[test]
fn keyless_warning() {
    assert!(warns_without_key(&Command::Whoami));
    assert!(!warns_without_key(&Command::Logout));
    assert!(!warns_without_key(&Command::Login { key: None, url: None }));
}

#[test]
fn prompt_entry() {
    assert_eq!(entered_key("  abc \n"), Some("abc".to_string()));
    assert_eq!(entered_key(" \t\n"), None);
    assert_eq!(entered_key(""), None);
}

#[test]
fn default_project_switch() {
    let c = with_default_project(Some(creds("k", "u")), "p1");
    assert_eq!(c.api_key, "k");
    assert_eq!(c.daemon_url, "u");
    assert_eq!(c.default_project, Some("p1".to_string()));
    let c = with_default_project(None, "p2");
    assert_eq!(c.api_key, "");
    assert_eq!(c.daemon_url, "");
    assert_eq!(c.default_project, Some("p2".to_string()));
}

#[test]
fn permission_warnings() {
    assert_eq!(permission_warning(0o100600, "/c.json"), None);
    assert_eq!(
        permission_warning(0o100644, "/c.json"),
        Some("Warning: credential file has insecure permissions (644). Run: chmod 600 /c.json".to_string())
    );
    assert_eq!(
        permission_warning(0o000, "p"),
        Some("Warning: credential file has insecure permissions (0). Run: chmod 600 p".to_string())
    );
}
