use cc_proxy::util::tool_id::{generate, sanitize, sanitize_or};

#[test]
fn passes_normal_openai_id() {
    assert_eq!(sanitize("call_abc123"), "call_abc123");
}

#[test]
fn passes_dashed_id() {
    assert_eq!(sanitize("call-XYZ-99"), "call-XYZ-99");
}

#[test]
fn replaces_dots() {
    assert_eq!(sanitize("tool.call.1"), "tool_call_1");
}

#[test]
fn replaces_colons_and_slashes() {
    assert_eq!(sanitize("ns:provider/call:1"), "ns_provider_call_1");
}

#[test]
fn replaces_non_ascii() {
    assert_eq!(sanitize("call_你好_1"), "call____1");
}

#[test]
fn replaces_spaces() {
    assert_eq!(sanitize("call 1 2"), "call_1_2");
}

#[test]
fn empty_gets_fallback_toolu() {
    let id = sanitize("");
    assert!(id.starts_with("toolu_"));
    assert!(id.len() > "toolu_".len());
}

#[test]
fn all_invalid_becomes_underscores_not_fallback() {
    assert_eq!(sanitize("!!!"), "___");
}

#[test]
fn unicode_replacement_does_not_panic() {
    let _ = sanitize("🔥🔥🔥");
}

#[test]
fn preserves_full_alphanumeric() {
    assert_eq!(
        sanitize("abcdefghijklmnopqrstuvwxyzABCDEFGHIJKLMNOPQRSTUVWXYZ0123456789_-"),
        "abcdefghijklmnopqrstuvwxyzABCDEFGHIJKLMNOPQRSTUVWXYZ0123456789_-"
    );
}

#[test]
fn sanitizing_twice_is_sanitizing_once() {
    let once = sanitize("ns:provider/call:1");
    assert_eq!(sanitize(&once), once);
}

#[test]
fn generated_ids_are_random_hex() {
    let id = generate();
    assert_eq!(id.len(), 38);
    let hex = &id[6..];
    assert!(hex.chars().all(|c| c.is_ascii_digit() || ('a'..='f').contains(&c)));
    assert_eq!(&hex[12..13], "4");
    assert!("89ab".contains(&hex[16..17]));
    assert_ne!(generate(), generate());
}

#[test]
fn given_fallback_serves_an_empty_id() {
    assert_eq!(sanitize_or("", "fallback"), "fallback");
    assert_eq!(sanitize_or("a.b", "fallback"), "a_b");
}
