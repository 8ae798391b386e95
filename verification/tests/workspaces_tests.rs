use raixbar::config::WorkspaceConfig;
use raixbar::hyprland::WorkspaceInfo;
use raixbar::widgets::ClickSetup;
use raixbar::workspaces::{add_workspace_button, update_workspaces};

fn ws(id: i32, active: bool, urgent: bool) -> WorkspaceInfo {
    WorkspaceInfo { id, active, urgent }
}

fn ids(list: &[WorkspaceInfo]) -> Vec<i32> {
    list.iter().map(|w| w.id).collect()
}

#[test]
fn configured_numbers_with_empty_workspaces() {
    let config = WorkspaceConfig::default();
    let found = vec![ws(2, true, false), ws(7, false, false)];
    let shown = update_workspaces(&found, &config);
    assert_eq!(
        shown,
        vec![
            ws(1, false, false),
            ws(2, true, false),
            ws(3, false, false),
            ws(4, false, false),
            ws(5, false, false)
        ]
    );
}

#[test]
fn configured_numbers_without_empty_workspaces() {
    let mut config = WorkspaceConfig::default();
    config.show_empty = false;
    config.numbers = vec![3, 1, 9];
    let found = vec![ws(1, false, true), ws(3, true, false), ws(4, false, false)];
    let shown = update_workspaces(&found, &config);
    assert_eq!(shown, vec![ws(3, true, false), ws(1, false, true)]);
}

#[test]
fn repeated_number_gets_two_buttons() {
    let mut config = WorkspaceConfig::default();
    config.numbers = vec![2, 2];
    let shown = update_workspaces(&vec![], &config);
    assert_eq!(ids(&shown), vec![2, 2]);
}

#[test]
fn last_found_workspace_of_an_id_counts() {
    let mut config = WorkspaceConfig::default();
    config.numbers = vec![4];
    let found = vec![ws(4, false, false), ws(4, true, true)];
    assert_eq!(update_workspaces(&found, &config), vec![ws(4, true, true)]);
}

#[test]
fn no_configured_numbers_shows_every_workspace() {
    let mut config = WorkspaceConfig::default();
    config.numbers = vec![];
    config.show_empty = false;
    let found = vec![ws(-98, false, false), ws(1, true, false), ws(6, false, true)];
    assert_eq!(update_workspaces(&found, &config), found);
    assert_eq!(update_workspaces(&vec![], &config), vec![]);
}

#[test]
fn button_of_a_workspace() {
    let config = WorkspaceConfig::default();
    let b = add_workspace_button(ws(3, true, false), &config);
    assert_eq!(b.text, "3");
    assert!(b.active && !b.urgent);
    assert_eq!(b.left_click, "hyprctl dispatch workspace 3");
    assert_eq!(b.right_click, "");
    assert_eq!(b.middle_click, "");
    assert_eq!(b.clicks, ClickSetup { clicks: true, scroll: false });
    assert!(b.scroll);
    assert_eq!(b.scroll_up, "hyprctl dispatch workspace e-1");
    assert_eq!(b.scroll_down, "hyprctl dispatch workspace e+1");
    assert_eq!(b.width, None);
    assert_eq!(b.height, Some(30));
}

#[test]
fn every_id_placeholder_is_replaced() {
    let mut config = WorkspaceConfig::default();
    config.format = "<{id}:{id}> {ID} {{id}}".to_string();
    config.right_click = "move {id}".to_string();
    config.scroll_switch = false;
    config.height = 0;
    config.width = 12;
    let b = add_workspace_button(ws(-98, false, true), &config);
    assert_eq!(b.text, "<-98:-98> {ID} {-98}");
    assert!(!b.text.contains("{id}"));
    assert_eq!(b.right_click, "move -98");
    assert!(!b.scroll);
    assert_eq!((b.width, b.height), (Some(12), None));
    assert!(b.urgent && !b.active);
}

#[test]
fn button_without_commands() {
    let mut config = WorkspaceConfig::default();
    config.left_click = String::new();
    let b = add_workspace_button(ws(1, false, false), &config);
    assert_eq!(b.clicks, ClickSetup { clicks: false, scroll: false });
}

#[test]
fn every_listed_workspace_in_id_order() {
    let text = r#"[{"id":4},{"id":-98},{"id":1},{"id":4}]"#;
    let found = raixbar::hyprland::parse_workspace_json(text, Some(1));
    let mut config = WorkspaceConfig::default();
    config.numbers = vec![];
    let shown = update_workspaces(&found, &config);
    assert_eq!(ids(&shown), vec![-98, 1, 4]);
    assert_eq!(update_workspaces(&found, &config), shown);
}

#[test]
fn special_workspaces_can_be_hidden() {
    let mut config = WorkspaceConfig::default();
    config.numbers = vec![];
    config.show_special = false;
    let found = vec![ws(-98, false, false), ws(1, true, false), ws(-99, false, true), ws(6, false, false)];
    assert_eq!(ids(&update_workspaces(&found, &config)), vec![1, 6]);
    config.show_special = true;
    assert_eq!(ids(&update_workspaces(&found, &config)), vec![-98, 1, -99, 6]);
    config.numbers = vec![-98, 2];
    config.show_special = false;
    assert_eq!(ids(&update_workspaces(&found, &config)), vec![-98, 2]);
}
