use cc_proxy::json::Json;
use cc_proxy::types::claude::Tool;
use cc_proxy::util::tool_name::{build_map, canonical, restore, ToolNameMap};

fn tool(name: &str) -> Tool {
    Tool {
        name: name.to_string(),
        description: None,
        input_schema: Json::Object(vec![]),
    }
}

#[test]
fn canonical_basic() {
    assert_eq!(canonical("Read"), "read");
    assert_eq!(canonical("READ"), "read");
    assert_eq!(canonical("read"), "read");
    assert_eq!(canonical("_Read"), "read");
    assert_eq!(canonical("___Read"), "read");
    assert_eq!(canonical("  Read  "), "read");
    assert_eq!(canonical(""), "");
}

#[test]
fn build_map_skeleton_tools() {
    let tools = vec![tool("Read"), tool("Write"), tool("Grep")];
    let map = build_map(Some(&tools));
    assert_eq!(map.get("read"), Some(&"Read".to_string()));
    assert_eq!(map.get("write"), Some(&"Write".to_string()));
    assert_eq!(map.get("grep"), Some(&"Grep".to_string()));
}

#[test]
fn build_map_none_returns_empty() {
    let map = build_map(None);
    assert!(map.is_empty());
}

#[test]
fn build_map_first_occurrence_wins() {
    let tools = vec![tool("Read"), tool("_read")];
    let map = build_map(Some(&tools));
    assert_eq!(map.get("read"), Some(&"Read".to_string()));
}

#[test]
fn build_map_ignores_empty_names() {
    let tools = vec![tool(""), tool("Read")];
    let map = build_map(Some(&tools));
    assert_eq!(map.len(), 1);
    assert_eq!(map.get("read"), Some(&"Read".to_string()));
}

#[test]
fn restore_lowercase_to_original() {
    let tools = vec![tool("Read")];
    let map = build_map(Some(&tools));
    assert_eq!(restore(&map, "read"), "Read");
}

#[test]
fn restore_uppercase_to_original() {
    let tools = vec![tool("Read")];
    let map = build_map(Some(&tools));
    assert_eq!(restore(&map, "READ"), "Read");
}

#[test]
fn restore_prefixed_underscore_to_original() {
    let tools = vec![tool("Read")];
    let map = build_map(Some(&tools));
    assert_eq!(restore(&map, "_Read"), "Read");
}

#[test]
fn restore_already_correct_is_noop() {
    let tools = vec![tool("Read")];
    let map = build_map(Some(&tools));
    assert_eq!(restore(&map, "Read"), "Read");
}

#[test]
fn restore_unknown_tool_passes_through() {
    let tools = vec![tool("Read")];
    let map = build_map(Some(&tools));
    assert_eq!(restore(&map, "Fly"), "Fly");
}

#[test]
fn restore_empty_map_is_passthrough() {
    let map = build_map(None);
    assert_eq!(restore(&map, "anything"), "anything");
}

#[test]
fn restore_empty_name_is_passthrough() {
    let tools = vec![tool("Read")];
    let map = build_map(Some(&tools));
    assert_eq!(restore(&map, ""), "");
}

#[test]
fn canonical_lowers_beyond_ascii() {
    assert_eq!(canonical("\u{a0}__ÄPFEL\u{3000}"), "äpfel");
}

#[test]
fn underscores_inside_white_space_go() {
    assert_eq!(canonical(" \t_ _Read\n"), " _read");
}

#[test]
fn insert_replaces_and_insert_if_absent_keeps() {
    let mut map = ToolNameMap::new();
    map.insert("a", "1");
    map.insert_if_absent("a", "2");
    map.insert_if_absent("b", "3");
    map.insert("b", "4");
    assert_eq!(map.len(), 2);
    assert_eq!(map.get("a"), Some(&"1".to_string()));
    assert_eq!(map.get("b"), Some(&"4".to_string()));
    assert_eq!(map.get("c"), None);
}
