use cantrip::reply::{
    interpret_reply, key_prefix, login_reply, read_login_reply, read_reply, reports_unauthenticated,
    status_text, LoginReply,
};
use cantrip::Json;

fn st(x: &str) -> Json {
    Json::Str(x.to_string())
}

fn obj(members: Vec<(&str, Json)>) -> Json {
    Json::Object(members.into_iter().map(|(k, v)| (k.to_string(), v)).collect())
}

#[test]
fn status_texts() {
    assert_eq!(status_text(404), "404 Not Found");
    assert_eq!(status_text(200), "200 OK");
    assert_eq!(status_text(500), "500 Internal Server Error");
    assert_eq!(status_text(599), "599 <unknown status code>");
}

#[test]
fn success_passes_body_through() {
    let body = obj(vec![("ok", Json::Bool(true))]);
    match interpret_reply(200, body) {
        Ok(v) => assert_eq!(cantrip::json::compact_text(&v), "{\"ok\":true}"),
        Err(e) => panic!("unexpected error {e}"),
    }
}

#[test]
fn error_envelope_in_success_is_error() {
    let r = interpret_reply(200, obj(vec![("error", st("no project"))]));
    assert_eq!(r.err(), Some("no project".to_string()));
    let r = interpret_reply(200, obj(vec![("error", Json::Null)]));
    assert!(r.is_ok());
}

#[test]
fn unauthorized_replies() {
    let hint = "\nHint: your API key may have been revoked. Run `cantrip login` to re-authenticate.";
    let r = interpret_reply(401, obj(vec![("message", st("revoked")), ("error", st("e"))]));
    assert_eq!(r.err(), Some(format!("revoked{hint}")));
    let r = interpret_reply(401, obj(vec![("error", st("bad key"))]));
    assert_eq!(r.err(), Some(format!("bad key{hint}")));
    let r = interpret_reply(401, obj(vec![("message", Json::Null), ("error", st("bad key"))]));
    assert_eq!(r.err(), Some(format!("unauthorized{hint}")));
    let r = interpret_reply(401, Json::Null);
    assert_eq!(r.err(), Some(format!("unauthorized{hint}")));
}

#[test]
fn unavailable_replies() {
    let hint = "\nHint: check https://status.cantrip.ai or try again shortly";
    let r = interpret_reply(503, obj(vec![("message", st("maintenance"))]));
    assert_eq!(r.err(), Some(format!("Cantrip API unavailable: maintenance{hint}")));
    let r = interpret_reply(502, obj(vec![("error", st("ignored"))]));
    assert_eq!(r.err(), Some(format!("Cantrip API unavailable: service unavailable{hint}")));
}

#[test]
fn other_failure_replies() {
    let r = interpret_reply(404, obj(vec![("error", st("no such entity"))]));
    assert_eq!(r.err(), Some("no such entity (HTTP 404 Not Found)".to_string()));
    let r = interpret_reply(402, Json::Array(vec![]));
    assert_eq!(r.err(), Some("request failed (HTTP 402 Payment Required)".to_string()));
    let r = interpret_reply(500, obj(vec![("message", st("oops"))]));
    assert_eq!(r.err(), Some("oops (HTTP 500 Internal Server Error)".to_string()));
}

#[test]
fn whoami_authentication() {
    assert!(reports_unauthenticated(&obj(vec![("authenticated", Json::Bool(false))])));
    assert!(!reports_unauthenticated(&obj(vec![("authenticated", Json::Bool(true))])));
    assert!(!reports_unauthenticated(&obj(vec![("authenticated", st("false"))])));
    assert!(!reports_unauthenticated(&obj(vec![])));
}

#[test]
fn login_replies() {
    match login_reply(200, Some(&obj(vec![("team", st("acme"))]))) {
        LoginReply::Accepted { team } => assert_eq!(team, "acme"),
        other => panic!("unexpected {other:?}"),
    }
    match login_reply(200, None) {
        LoginReply::Accepted { team } => assert_eq!(team, "unknown"),
        other => panic!("unexpected {other:?}"),
    }
    assert!(matches!(login_reply(401, None), LoginReply::Rejected));
    match login_reply(500, Some(&obj(vec![("error", st("db down"))]))) {
        LoginReply::Failed { message } => assert_eq!(message, "db down"),
        other => panic!("unexpected {other:?}"),
    }
    match login_reply(503, None) {
        LoginReply::Failed { message } => {
            assert_eq!(message, "unexpected status 503 Service Unavailable")
        }
        other => panic!("unexpected {other:?}"),
    }
}

#[test]
fn key_prefixes() {
    assert_eq!(key_prefix("ck_live_0123456789abcdef"), "ck_live_0123");
    assert_eq!(key_prefix("short"), "short");
    assert_eq!(key_prefix("exactly12chr"), "exactly12chr");
    assert_eq!(key_prefix("ééééééxyz"), "éééééé");
}

#[test]
fn reading_replies() {
    match read_reply(200, "{\"ok\": true}") {
        Ok(v) => assert_eq!(cantrip::json::compact_text(&v), "{\"ok\":true}"),
        Err(e) => panic!("unexpected error {e}"),
    }
    assert_eq!(
        read_reply(200, "<html>").err(),
        Some("invalid JSON response: expected value at line 1 column 1".to_string())
    );
    assert_eq!(
        read_reply(500, "oops").err(),
        Some("invalid JSON response: expected value at line 1 column 1".to_string())
    );
    assert_eq!(
        read_reply(404, "{\"error\": \"gone\"}").err(),
        Some("gone (HTTP 404 Not Found)".to_string())
    );
    assert_eq!(read_reply(200, "{\"error\": \"no project\"}").err(), Some("no project".to_string()));
}

#[test]
fn reading_login_replies() {
    match read_login_reply(200, "{\"team\": \"acme\"}") {
        LoginReply::Accepted { team } => assert_eq!(team, "acme"),
        other => panic!("unexpected {other:?}"),
    }
    match read_login_reply(200, "not json") {
        LoginReply::Accepted { team } => assert_eq!(team, "unknown"),
        other => panic!("unexpected {other:?}"),
    }
    assert!(matches!(read_login_reply(401, "{}"), LoginReply::Rejected));
    match read_login_reply(500, "{\"error\": \"db down\"}") {
        LoginReply::Failed { message } => assert_eq!(message, "db down"),
        other => panic!("unexpected {other:?}"),
    }
    match read_login_reply(500, "{\"message\": \"db down\"}") {
        LoginReply::Failed { message } => {
            assert_eq!(message, "unexpected status 500 Internal Server Error")
        }
        other => panic!("unexpected {other:?}"),
    }
}
