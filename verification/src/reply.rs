//! Reading the daemon's replies: the error that a reply stands for, the
//! outcome of a login attempt, and the text of an HTTP status.

use vstd::prelude::*;
use vstd::utf8::{encode_utf8, is_char_boundary};

use crate::json::{Json, get_str, json_get, json_str, parse_json, parsed_json, str_member};
use crate::text::{decimal, decimal_string};

verus! {

/// The standard reason phrase of an HTTP status code, where it has one
/// (the phrase that `http::StatusCode::canonical_reason` gives).
pub uninterp spec fn canonical_reason(code: u16) -> Option<Seq<char>>;

/// Calls `http::StatusCode::canonical_reason` (through `ureq::http`) on the
/// status `code`; the contract claims that the phrase returned is the
/// status's reason phrase, and that there is none exactly where the crate
/// gives none.
#[verifier::external_body]
fn reason_phrase(code: u16) -> (r: Option<String>)
    requires
        100 <= code <= 999,
    ensures
        match r {
            Some(s) => canonical_reason(code) == Some(s@),
            None => canonical_reason(code) is None,
        },
{
    match ureq::http::StatusCode::from_u16(code) {
        Ok(status) => match status.canonical_reason() {
            Some(s) => Some(s.to_string()),
            None => None,
        },
        Err(_) => None,
    }
}

/// The value of `o`, or `d` where there is none.
pub open spec fn or_else(o: Option<Seq<char>>, d: Seq<char>) -> Seq<char> {
    match o {
        Some(s) => s,
        None => d,
    }
}

/// How an HTTP status is displayed: its code, a space, and its reason
/// phrase (or `<unknown status code>`).
pub open spec fn status_display(code: u16) -> Seq<char> {
    decimal(code as nat) + " "@ + or_else(canonical_reason(code), "<unknown status code>"@)
}

/// Displays an HTTP status as `http::StatusCode` does, e.g. `404 Not Found`.
pub fn status_text(code: u16) -> (r: String)
    requires
        100 <= code <= 999,
    ensures
        r@ == status_display(code),
{
    let mut out = decimal_string(code as u64);
    out.append(" ");
    match reason_phrase(code) {
        Some(p) => out.append(p.as_str()),
        None => out.append("<unknown status code>"),
    }
    out
}

/// The string member `message` of a reply; where there is no member
/// `message` at all, the string member `error`.
pub open spec fn message_or_error(v: Json) -> Option<Seq<char>> {
    match json_get(v, "message"@) {
        Some(m) => json_str(Some(m)),
        None => str_member(v, "error"@),
    }
}

/// The error that a reply with HTTP status `status` and JSON body `v`
/// stands for, if any: an authorization failure (401), an unavailable
/// service (502, 503), another failure status (400 and above), or an
/// `error` string in a successful reply.
pub open spec fn reply_error(status: u16, v: Json) -> Option<Seq<char>> {
    if status == 401 {
        Some(
            or_else(message_or_error(v), "unauthorized"@)
                + "\nHint: your API key may have been revoked. Run `cantrip login` to re-authenticate."@,
        )
    } else if status == 502 || status == 503 {
        Some(
            "Cantrip API unavailable: "@ + or_else(str_member(v, "message"@), "service unavailable"@)
                + "\nHint: check https://status.cantrip.ai or try again shortly"@,
        )
    } else if status >= 400 {
        Some(
            or_else(message_or_error(v), "request failed"@) + " (HTTP "@ + status_display(status)
                + ")"@,
        )
    } else {
        str_member(v, "error"@)
    }
}

/// The string member `message` of `v`; where there is no member `message`,
/// the string member `error`.
fn get_message_or_error(v: &Json) -> (r: Option<String>)
    ensures
        match r {
            Some(s) => message_or_error(*v) == Some(s@),
            None => message_or_error(*v) is None,
        },
{
    match v.get("message") {
        Some(m) => match m.as_str() {
            Some(s) => Some(s.clone()),
            None => None,
        },
        None => get_str(v, "error"),
    }
}

fn or_default(o: Option<String>, d: &str) -> (r: String)
    ensures
        r@ == or_else(match o {
            Some(s) => Some(s@),
            None => None,
        }, d@),
{
    match o {
        Some(s) => s,
        None => String::from_str(d),
    }
}

/// Reads a reply of the daemon with HTTP status `status` and JSON body
/// `value`: the body where the reply is a success, else the error message
/// that the client reports.
pub fn interpret_reply(status: u16, value: Json) -> (r: Result<Json, String>)
    requires
        100 <= status <= 999,
    ensures
        match r {
            Ok(v) => v == value && reply_error(status, value) is None,
            Err(e) => reply_error(status, value) == Some(e@),
        },
{
    if status == 401 {
        let mut msg = or_default(get_message_or_error(&value), "unauthorized");
        msg.append(
            "\nHint: your API key may have been revoked. Run `cantrip login` to re-authenticate.",
        );
        return Err(msg);
    }
    if status == 502 || status == 503 {
        let mut msg = String::from_str("Cantrip API unavailable: ");
        let detail = or_default(get_str(&value, "message"), "service unavailable");
        msg.append(detail.as_str());
        msg.append("\nHint: check https://status.cantrip.ai or try again shortly");
        return Err(msg);
    }
    if status >= 400 {
        let mut msg = or_default(get_message_or_error(&value), "request failed");
        msg.append(" (HTTP ");
        let shown = status_text(status);
        msg.append(shown.as_str());
        msg.append(")");
        return Err(msg);
    }
    match get_str(&value, "error") {
        Some(e) => Err(e),
        None => Ok(value),
    }
}

/// Whether a `whoami` reply says that the caller is not authenticated: its
/// member `authenticated` is `false`.
pub fn reports_unauthenticated(v: &Json) -> (r: bool)
    ensures
        r == (json_get(*v, "authenticated"@) == Some(Json::Bool(false))),
{
    match v.get("authenticated") {
        Some(a) => match a.as_bool() {
            Some(b) => !b,
            None => false,
        },
        None => false,
    }
}

/// How the daemon answered a login attempt.
#[derive(Debug)]
pub enum LoginReply {
    /// The key is valid; `team` is the caller's team.
    Accepted { team: String },
    /// The key was refused.
    Rejected,
    /// Another failure, with the message to report.
    Failed { message: String },
}

/// The string member `key` of a body that may be missing.
pub open spec fn body_str(body: Option<Json>, key: Seq<char>) -> Option<Seq<char>> {
    match body {
        Some(v) => str_member(v, key),
        None => None,
    }
}

/// A body given by reference, as a value.
pub open spec fn body_value(body: Option<&Json>) -> Option<Json> {
    match body {
        Some(v) => Some(*v),
        None => None,
    }
}

/// `r` is how a login attempt ends with HTTP status `status` and `body`:
/// 200 accepts the key, with the team named by the body's `team` (else
/// `unknown`); 401 rejects it; any other status fails with the body's
/// `error` (else `unexpected status <status>`).
pub open spec fn is_login_reply(r: LoginReply, status: u16, body: Option<Json>) -> bool {
    match r {
        LoginReply::Accepted { team } => status == 200 && team@ == or_else(
            body_str(body, "team"@),
            "unknown"@,
        ),
        LoginReply::Rejected => status == 401,
        LoginReply::Failed { message } => status != 200 && status != 401 && message@ == or_else(
            body_str(body, "error"@),
            "unexpected status "@ + status_display(status),
        ),
    }
}

/// The body of a reply as the client reads it: its JSON value, or nothing
/// where it is not JSON.
pub open spec fn parsed_body(text: Seq<char>) -> Option<Json> {
    match parsed_json(text) {
        Ok(v) => Some(v),
        Err(_) => None,
    }
}

/// Reads the reply to a login attempt, with HTTP status `status` and the
/// body, where it is JSON (see `is_login_reply`).
pub fn login_reply(status: u16, body: Option<&Json>) -> (r: LoginReply)
    requires
        100 <= status <= 999,
    ensures
        is_login_reply(r, status, body_value(body)),
{
    if status == 200 {
        let team = match body {
            Some(v) => get_str(v, "team"),
            None => None,
        };
        LoginReply::Accepted { team: or_default(team, "unknown") }
    } else if status == 401 {
        LoginReply::Rejected
    } else {
        let found = match body {
            Some(v) => get_str(v, "error"),
            None => None,
        };
        let message = match found {
            Some(e) => e,
            None => {
                let mut m = String::from_str("unexpected status ");
                let shown = status_text(status);
                m.append(shown.as_str());
                m
            },
        };
        LoginReply::Failed { message }
    }
}

/// Reads the reply to a login attempt from its HTTP status and the text of
/// its body, which counts as missing where it is not JSON.
pub fn read_login_reply(status: u16, body: &str) -> (r: LoginReply)
    requires
        100 <= status <= 999,
    ensures
        is_login_reply(r, status, parsed_body(body@)),
{
    match parse_json(body) {
        Ok(v) => login_reply(status, Some(&v)),
        Err(_) => login_reply(status, None),
    }
}

/// Reads a reply of the daemon from its HTTP status and the text of its
/// body: a body that is not JSON is reported with the parse error; else as
/// `interpret_reply` reads the parsed value.
pub fn read_reply(status: u16, body: &str) -> (r: Result<Json, String>)
    requires
        100 <= status <= 999,
    ensures
        match parsed_json(body@) {
            Ok(v) => match r {
                Ok(x) => x == v && reply_error(status, v) is None,
                Err(e) => reply_error(status, v) == Some(e@),
            },
            Err(pe) => (r matches Err(e) && e@ == "invalid JSON response: "@ + pe),
        },
{
    match parse_json(body) {
        Ok(v) => interpret_reply(status, v),
        Err(pe) => {
            let mut e = String::from_str("invalid JSON response: ");
            e.append(pe.as_str());
            Err(e)
        },
    }
}

/// The shown prefix of an API key: its first 12 bytes, or the whole key
/// where it is shorter.
pub fn key_prefix(key: &str) -> (r: String)
    requires
        encode_utf8(key@).len() >= 12 ==> is_char_boundary(encode_utf8(key@), 12),
    ensures
        encode_utf8(key@).len() >= 12 ==> encode_utf8(r@) == encode_utf8(key@).take(12),
        encode_utf8(key@).len() < 12 ==> r@ == key@,
{
    if key.as_bytes().len() >= 12 {
        let (head, _) = key.split_at(12);
        assert(encode_utf8(head@) =~= encode_utf8(key@).take(12));
        head.to_owned()
    } else {
        key.to_owned()
    }
}

} // verus!
