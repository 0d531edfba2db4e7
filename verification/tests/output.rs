use cantrip::json::{compact_text, error_document, get_str, parse_json, pretty_text};
use cantrip::output::{format_scalar, human_text, markdown_text};
use cantrip::Json;

fn st(x: &str) -> Json {
    Json::Str(x.to_string())
}

fn num(x: &str) -> Json {
    Json::Number(x.parse::<serde_json::Number>().unwrap())
}

fn obj(members: Vec<(&str, Json)>) -> Json {
    Json::Object(members.into_iter().map(|(k, v)| (k.to_string(), v)).collect())
}

#[test]
fn scalars() {
    assert_eq!(format_scalar(&st("hi")), "hi");
    assert_eq!(format_scalar(&Json::Null), "null");
    assert_eq!(format_scalar(&Json::Bool(true)), "true");
    assert_eq!(format_scalar(&Json::Bool(false)), "false");
    assert_eq!(format_scalar(&num("-1.5")), "-1.5");
    assert_eq!(format_scalar(&Json::Array(vec![num("1"), st("a")])), "[1,\"a\"]");
    assert_eq!(format_scalar(&obj(vec![("k", Json::Null)])), "{\"k\":null}");
}

#[test]
fn compact_escapes_strings() {
    let v = st("a\"b\\c\nd\te\u{1}f\u{1f}/\u{7f}é");
    assert_eq!(compact_text(&v), "\"a\\\"b\\\\c\\nd\\te\\u0001f\\u001f/\u{7f}é\"");
    assert_eq!(compact_text(&st("\u{8}\u{c}\r")), "\"\\b\\f\\r\"");
    let nested = obj(vec![("a", Json::Array(vec![])), ("b", obj(vec![])), ("c", Json::Array(vec![num("1"), num("2")]))]);
    assert_eq!(compact_text(&nested), "{\"a\":[],\"b\":{},\"c\":[1,2]}");
}

#[test]
fn human_rendering() {
    let v = obj(vec![
        ("name", st("Acme")),
        ("count", num("3")),
        ("tags", Json::Array(vec![st("x"), obj(vec![("k", Json::Bool(true))])])),
        ("owner", obj(vec![("id", Json::Null)])),
    ]);
    let expected = "name: Acme\ncount: 3\ntags:\n  [0]\n    x\n  [1]\n    k: true\nowner:\n  id: null\n";
    assert_eq!(human_text(&v), expected);
    assert_eq!(human_text(&st("plain")), "plain\n");
    assert_eq!(human_text(&Json::Array(vec![])), "");
}

#[test]
fn markdown_rendering() {
    let v = obj(vec![
        ("title", st("Acme")),
        ("items", Json::Array(vec![st("a"), num("2"), obj(vec![("z", Json::Null)])])),
        ("meta", obj(vec![("ok", Json::Bool(false))])),
    ]);
    let expected = "**title**: Acme\n\n## items\n\n- a\n- 2\n- {\"z\":null}\n\n## meta\n\n**ok**: false\n\n";
    assert_eq!(markdown_text(&v), expected);
    assert_eq!(markdown_text(&Json::Array(vec![st("x"), Json::Null])), "- x\n- null\n");
    assert_eq!(markdown_text(&num("7")), "7\n");
}

#[test]
fn member_lookup() {
    let v = obj(vec![("error", st("boom")), ("code", num("4"))]);
    assert_eq!(get_str(&v, "error"), Some("boom".to_string()));
    assert_eq!(get_str(&v, "code"), None);
    assert_eq!(get_str(&v, "missing"), None);
    assert!(v.get("code").is_some());
    assert!(st("x").get("error").is_none());
    assert_eq!(v.get("error").and_then(|e| e.as_str()).map(|s| s.as_str()), Some("boom"));
    assert_eq!(Json::Bool(true).as_bool(), Some(true));
    assert_eq!(st("true").as_bool(), None);
}

#[test]
fn escaped_text_has_no_control_characters() {
    let all: String = (0u32..0x20).filter_map(char::from_u32).collect();
    let text = compact_text(&Json::Str(all));
    assert!(text.chars().all(|c| (c as u32) >= 0x20));
    assert!(text.starts_with("\"\\u0000\\u0001"));
}

#[test]
fn parsing_replies() {
    let v = parse_json("{\"b\": [1, 2.5, -3], \"a\": {\"x\": null}, \"s\": \"hi\"}").unwrap();
    assert_eq!(compact_text(&v), "{\"a\":{\"x\":null},\"b\":[1,2.5,-3],\"s\":\"hi\"}");
    assert_eq!(get_str(&v, "s"), Some("hi".to_string()));
    assert_eq!(parse_json("nope").err(), Some("expected ident at line 1 column 2".to_string()));
    assert_eq!(parse_json("").err(), Some("EOF while parsing a value at line 1 column 0".to_string()));
}

#[test]
fn pretty_printing() {
    let v = obj(vec![("a", num("1")), ("b", Json::Array(vec![Json::Bool(true)]))]);
    assert_eq!(pretty_text(&v), "{\n  \"a\": 1,\n  \"b\": [\n    true\n  ]\n}");
    assert_eq!(pretty_text(&Json::Array(vec![])), "[]");
}

#[test]
fn error_documents() {
    let d = error_document("no \"key\"");
    assert_eq!(get_str(&d, "error"), Some("no \"key\"".to_string()));
    assert_eq!(pretty_text(&d), "{\n  \"error\": \"no \\\"key\\\"\"\n}");
}
