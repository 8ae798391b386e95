use raixbar::hyprland::{
    extract_json_number, find_json_object_end, parse_workspace_json, workspace_json_is_readable,
    WorkspaceInfo,
};

fn ws(id: i32, active: bool, urgent: bool) -> WorkspaceInfo {
    WorkspaceInfo { id, active, urgent }
}

const SAMPLE: &str = r#"[{
    "id": 3,
    "name": "3",
    "monitor": "eDP-1",
    "windows": 2,
    "hasfullscreen": false,
    "lastwindowtitle": "kitty"
},{
    "id": 1,
    "name": "1",
    "monitor": "eDP-1",
    "windows": 1,
    "urgent": true
},{
    "id": -98,
    "name": "special:magic",
    "monitor": "eDP-1",
    "windows": 1
}]"#;

#[test]
fn workspaces_are_sorted_and_marked() {
    assert!(workspace_json_is_readable(SAMPLE));
    let found = parse_workspace_json(SAMPLE, Some(3));
    assert_eq!(found, vec![ws(-98, false, false), ws(1, false, true), ws(3, true, false)]);
}

#[test]
fn no_active_workspace() {
    let found = parse_workspace_json(SAMPLE, None);
    assert_eq!(found, vec![ws(-98, false, false), ws(1, false, true), ws(3, false, false)]);
}

#[test]
fn urgent_with_space_after_colon() {
    let text = r#"[{"id":2,"urgent": true},{"id":4,"urgent":false}]"#;
    let found = parse_workspace_json(text, Some(4));
    assert_eq!(found, vec![ws(2, false, true), ws(4, true, false)]);
}

#[test]
fn first_object_of_an_id_wins() {
    let text = r#"[{"id":5,"urgent":true},{"id":5},{"id":2}]"#;
    let found = parse_workspace_json(text, None);
    assert_eq!(found, vec![ws(2, false, false), ws(5, false, true)]);
}

#[test]
fn id_that_is_not_a_number_is_skipped() {
    let text = r#"[{"id":"x","name":"a"},{"id":7}]"#;
    let found = parse_workspace_json(text, Some(7));
    assert_eq!(found, vec![ws(7, true, false)]);
}

#[test]
fn empty_output_has_no_workspaces() {
    assert_eq!(parse_workspace_json("", Some(1)), vec![]);
    assert_eq!(parse_workspace_json("[]", None), vec![]);
    assert_eq!(parse_workspace_json(r#"{"id" 4}"#, None), vec![]);
}

#[test]
fn unreadable_json() {
    assert!(!workspace_json_is_readable("\"id\"é:x"));
    assert!(workspace_json_is_readable("\"id\"a:x"));
    assert!(workspace_json_is_readable(""));
}

#[test]
fn object_end_at_closing_brace() {
    assert_eq!(find_json_object_end(r#": 1, "name": "2"}, {"id": 3}"#), 16);
}

#[test]
fn object_end_skips_nested_objects() {
    assert_eq!(find_json_object_end(r#"{"x":{"y":1}} rest"#), 12);
}

#[test]
fn object_end_skips_braces_in_strings() {
    assert_eq!(find_json_object_end(r#""a}": "\"}" }"#), 12);
}

#[test]
fn object_end_counts_bytes() {
    assert_eq!(find_json_object_end("\"é\": 1}"), 7);
}

#[test]
fn object_end_without_brace_is_the_length() {
    assert_eq!(find_json_object_end("abc"), 3);
    assert_eq!(find_json_object_end("é"), 2);
    assert_eq!(find_json_object_end(""), 0);
}

#[test]
fn json_numbers() {
    assert_eq!(extract_json_number(r#"{"id": 3, "name": "3"}"#, "id"), Some(3));
    assert_eq!(extract_json_number(r#"{"id":-1}"#, "id"), Some(-1));
    assert_eq!(extract_json_number(r#"{"name": 1}"#, "id"), None);
    assert_eq!(extract_json_number(r#"{"id": x}"#, "id"), None);
    assert_eq!(extract_json_number(r#"{"id": 99999999999}"#, "id"), None);
    assert_eq!(extract_json_number(r#"{"id" 5}"#, "id"), None);
    assert_eq!(extract_json_number(r#"{"monitorID": 1, "id": 4}"#, "id"), Some(4));
    assert_eq!(extract_json_number(r#"{"id": 12-3}"#, "id"), None);
}
