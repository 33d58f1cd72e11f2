use cc_proxy::json::Json;
use cc_proxy::util::fix_json::{fix_json, parse_lenient};

fn parse(s: &str) -> Json {
    parse_lenient(s).expect("should parse")
}

fn strict(s: &str) -> serde_json::Value {
    serde_json::from_str(s).unwrap()
}

#[test]
fn strict_json_passes_through() {
    let input = r#"{"a":1,"b":"hello"}"#;
    assert_eq!(fix_json(input), input);
}

#[test]
fn single_quotes_become_double() {
    let input = r#"{'a': 1, 'b': '2'}"#;
    let got = fix_json(input);
    assert_eq!(got, r#"{"a": 1, "b": "2"}"#);
}

#[test]
fn embedded_double_quote_gets_escaped() {
    let input = r#"{'t': 'He said "hi"'}"#;
    let v = strict(&fix_json(input));
    assert_eq!(v["t"], "He said \"hi\"");
}

#[test]
fn escaped_single_quote_becomes_literal() {
    let input = r"{'msg': 'it\'s fine'}";
    let v = strict(&fix_json(input));
    assert_eq!(v["msg"], "it's fine");
}

#[test]
fn newline_escape_preserved() {
    let input = r"{'m': 'line1\nline2'}";
    let v = strict(&fix_json(input));
    assert_eq!(v["m"], "line1\nline2");
}

#[test]
fn backslash_escape_preserved() {
    let input = r"{'path': 'C:\\Users\\root'}";
    let v = strict(&fix_json(input));
    assert_eq!(v["path"], "C:\\Users\\root");
}

#[test]
fn unicode_escape_forwarded() {
    let input = r"{'c': '\u4f60\u597d'}";
    let v = strict(&fix_json(input));
    assert_eq!(v["c"], "你好");
}

#[test]
fn double_quoted_strings_unchanged_when_mixed() {
    let input = r#"{"a": 'mix', "b": "normal"}"#;
    let v = strict(&fix_json(input));
    assert_eq!(v["a"], "mix");
    assert_eq!(v["b"], "normal");
}

#[test]
fn nested_object_with_single_quotes() {
    let input = r#"{'outer': {'inner': 'val'}}"#;
    let v = parse(input);
    assert_eq!(
        v,
        Json::Object(vec![(
            "outer".to_string(),
            Json::Object(vec![("inner".to_string(), Json::Text("val".to_string()))])
        )])
    );
}

#[test]
fn unterminated_single_quote_best_effort() {
    let input = "{'a': 'oops";
    let got = fix_json(input);
    assert!(got.ends_with('"'));
}

#[test]
fn parse_lenient_uses_strict_first() {
    let input = r#"{"message": "it's fine"}"#;
    let v = parse_lenient(input).unwrap();
    assert_eq!(v.str_at("message"), Some("it's fine"));
}

#[test]
fn parse_lenient_falls_back_to_fix() {
    let input = r#"{'name': 'Read', 'path': '/tmp'}"#;
    let v = parse_lenient(input).unwrap();
    assert_eq!(v.str_at("name"), Some("Read"));
    assert_eq!(v.str_at("path"), Some("/tmp"));
}

#[test]
fn empty_object_passes() {
    assert_eq!(fix_json("{}"), "{}");
}

#[test]
fn array_with_single_quoted_strings() {
    let input = r#"['a', 'b', 'c']"#;
    let v = parse(input);
    assert_eq!(
        v,
        Json::Array(vec![
            Json::Text("a".to_string()),
            Json::Text("b".to_string()),
            Json::Text("c".to_string())
        ])
    );
}

#[test]
fn tab_and_cr_escape_preserved() {
    let input = r"{'m': 'a\tb\rc'}";
    let v = strict(&fix_json(input));
    assert_eq!(v["m"], "a\tb\rc");
}

#[test]
fn repairing_twice_is_repairing_once() {
    let once = fix_json(r#"{'t': 'say "hi"', 'u': '\u00e9', "v": 'x\qy'}"#);
    assert_eq!(fix_json(&once), once);
}

#[test]
fn every_kind_of_value_is_read() {
    let v = parse(r#"{"n": null, "b": true, "i": 7, "s": "x", "a": [1, 2], "o": {}}"#);
    assert_eq!(v.get("n"), Some(&Json::Null));
    assert_eq!(v.get("b").and_then(|b| b.as_bool()), Some(true));
    assert_eq!(v.get("i"), Some(&Json::number(7)));
    assert_eq!(v.str_at("s"), Some("x"));
    assert_eq!(v.get("a").and_then(|a| a.as_array()).map(|a| a.len()), Some(2));
    assert_eq!(v.get("o"), Some(&Json::Object(vec![])));
    assert_eq!(v.get("missing"), None);
}

#[test]
fn hopeless_text_is_an_error() {
    assert!(parse_lenient("not valid json {{{").is_err());
}

#[test]
fn fragments_outside_strings_are_kept() {
    assert_eq!(fix_json(r"[1, \x, 'a']"), r#"[1, \x, "a"]"#);
    assert_eq!(fix_json(r"'\u12'"), r#""\u12""#);
}

#[test]
fn parts_are_repaired_apart() {
    let (a, b) = ("{'a': \"it's\"", ", 'b': '\\u00e9'}");
    assert_eq!(fix_json(&format!("{a}{b}")), fix_json(a) + &fix_json(b));
}
