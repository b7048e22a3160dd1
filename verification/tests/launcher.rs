use spear::frecency::FrecencyStore;
use spear::launcher::{
    action_kind, action_shortcut_label, colour_icon_name, file_type_label, info_preview,
    is_image_extension, key_decision, layout_flags, merge_fits, merge_results, navigation_target,
    plan_action, preview_excerpt, query_wants_settings, results_status_text, results_view,
    row_icon_name, selected_item, settings_item, ActionKind, Key, KeyCommand,
};
use spear::plugins::{Action, ResultItem};

fn item(id: &str, score: i32) -> ResultItem {
    ResultItem {
        id: id.to_string(),
        title: id.to_uppercase(),
        subtitle: None,
        icon: None,
        category: "Test".to_string(),
        score,
        actions: vec![Action {
            label: "Go".to_string(),
            action_type: "run-command".to_string(),
            value: format!("echo {}", id),
        }],
    }
}

#[test]
fn settings_queries() {
    for q in ["set", "Settings", "  pref ", "conf", "ear set", "spear settings", "s"] {
        assert!(query_wants_settings(q), "{}", q);
    }
    for q in ["", "   ", "xyz", "settingsx", "configure"] {
        assert!(!query_wants_settings(q), "{}", q);
    }
}

#[test]
fn settings_item_fields() {
    let s = settings_item();
    assert_eq!(s.id, "spear-settings");
    assert_eq!(s.title, "Spear Settings");
    assert_eq!(s.score, 200);
    assert_eq!(s.category, "System");
    assert_eq!(s.icon.as_deref(), Some("preferences-system-symbolic"));
    assert_eq!(s.actions[0].action_type, "open-settings");
    assert_eq!(s.actions[0].value, "");
}

#[test]
fn merge_orders_by_boosted_score_and_keeps_ties() {
    let groups = vec![vec![item("a", 10), item("b", 50)], vec![item("c", 10), item("d", 30)]];
    let mut store = FrecencyStore::default();
    let now: u64 = 1_000_000;
    store.accesses.insert("a".to_string(), vec![now - 100]);
    assert!(merge_fits(&groups, "q", &store, now));
    let r = merge_results(&groups, "q", &store, now);
    let ids: Vec<&str> = r.iter().map(|i| i.id.as_str()).collect();
    assert_eq!(ids, vec!["a", "b", "d", "c"]);
    assert_eq!(r[0].score, 110);
    assert_eq!(r[3].score, 10);
    assert_eq!(r[0].actions[0].value, "echo a");
}

#[test]
fn merge_adds_settings_result_for_settings_query() {
    let groups = vec![vec![item("x", 300), item("y", 5)]];
    let store = FrecencyStore::default();
    let r = merge_results(&groups, "sett", &store, 0);
    let ids: Vec<&str> = r.iter().map(|i| i.id.as_str()).collect();
    assert_eq!(ids, vec!["x", "spear-settings", "y"]);
    let r = merge_results(&Vec::new(), "", &store, 0);
    assert!(r.is_empty());
}

#[test]
fn status_texts() {
    assert_eq!(results_status_text(0), "No results");
    assert_eq!(results_status_text(1), "1 result found");
    assert_eq!(results_status_text(2), "2 results found");
    assert_eq!(results_status_text(137), "137 results found");
    let v = results_view(0, false);
    assert!(v.empty_label_visible && !v.list_visible && !v.actions_enabled);
    assert_eq!(v.status, "No results");
    let v = results_view(0, true);
    assert!(!v.empty_label_visible && v.list_visible);
    let v = results_view(3, false);
    assert!(!v.empty_label_visible && v.list_visible && v.actions_enabled);
}

#[test]
fn keys() {
    let d = key_decision(Key::Escape, false, false, false);
    assert_eq!(d.command, KeyCommand::Hide);
    assert!(!d.consumed);
    assert_eq!(key_decision(Key::Enter, true, false, false).command, KeyCommand::ShowActions);
    assert_eq!(key_decision(Key::Enter, false, true, false).command, KeyCommand::ShowActions);
    let d = key_decision(Key::Enter, false, false, true);
    assert_eq!(d.command, KeyCommand::ActivateSelected);
    assert!(d.consumed);
    assert_eq!(key_decision(Key::Down, false, false, true).command, KeyCommand::MoveInGrid(4));
    assert_eq!(key_decision(Key::Down, false, false, false).command, KeyCommand::MoveInList(1));
    assert_eq!(key_decision(Key::Up, false, false, true).command, KeyCommand::MoveInGrid(-4));
    assert_eq!(key_decision(Key::Up, false, false, false).command, KeyCommand::MoveInList(-1));
    assert_eq!(key_decision(Key::Left, false, false, true).command, KeyCommand::MoveInGrid(-1));
    let d = key_decision(Key::Left, false, false, false);
    assert_eq!(d.command, KeyCommand::Nothing);
    assert!(!d.consumed);
    assert_eq!(key_decision(Key::Right, false, false, true).command, KeyCommand::MoveInGrid(1));
    assert!(!key_decision(Key::Other, true, true, true).consumed);
}

#[test]
fn navigation() {
    assert_eq!(navigation_target(Some(2), 5, 1), Some(3));
    assert_eq!(navigation_target(Some(4), 5, 1), None);
    assert_eq!(navigation_target(Some(0), 5, -1), None);
    assert_eq!(navigation_target(Some(5), 8, -4), Some(1));
    assert_eq!(navigation_target(None, 5, 4), Some(0));
    assert_eq!(navigation_target(None, 0, 1), None);
    assert_eq!(selected_item(-1, 3), None);
    assert_eq!(selected_item(2, 3), Some(2));
    assert_eq!(selected_item(3, 3), None);
}

#[test]
fn actions() {
    assert_eq!(action_kind("open-settings"), ActionKind::OpenSettings);
    assert_eq!(action_kind("launch-app"), ActionKind::LaunchApp);
    assert_eq!(action_kind("open-url"), ActionKind::OpenUrl);
    assert_eq!(action_kind("copy-to-clipboard"), ActionKind::CopyToClipboard);
    assert_eq!(action_kind("run-command"), ActionKind::RunCommand);
    assert_eq!(action_kind("navigate-dir"), ActionKind::NavigateDir);
    assert_eq!(action_kind("dance"), ActionKind::Unknown);
    assert!(!ActionKind::NavigateDir.hides_window());
    assert!(ActionKind::CopyToClipboard.hides_window());

    let it = item("z", 1);
    let p = plan_action(&it, 0);
    assert_eq!(p.record_id, "z");
    let step = p.step.unwrap();
    assert_eq!(step.kind, ActionKind::RunCommand);
    assert_eq!(step.value, "echo z");
    assert!(step.hide_window);
    let p = plan_action(&it, 1);
    assert_eq!(p.record_id, "z");
    assert!(p.step.is_none());
}

#[test]
fn layout_modes() {
    let f = layout_flags("focused");
    assert!(!f.show_search_icon && f.entry_focused_mode && !f.list_minimal_mode);
    let m = layout_flags("minimal");
    assert!(!m.show_search_icon && !m.entry_focused_mode && m.list_minimal_mode);
    let d = layout_flags("default");
    assert!(d.show_search_icon && !d.entry_focused_mode && !d.list_minimal_mode);
}

#[test]
fn shortcut_labels() {
    assert_eq!(action_shortcut_label(0), "↵");
    assert_eq!(action_shortcut_label(1), "⌥2");
    assert_eq!(action_shortcut_label(8), "⌥9");
    assert_eq!(action_shortcut_label(9), "");
}

#[test]
fn icon_names() {
    assert_eq!(colour_icon_name("folder-symbolic"), "folder");
    assert_eq!(colour_icon_name("a-symbolic-symbolic"), "a");
    assert_eq!(colour_icon_name("firefox"), "firefox");
    assert_eq!(row_icon_name("edit-symbolic", Some(true)), "edit");
    assert_eq!(row_icon_name("edit-symbolic", Some(false)), "edit-symbolic");
    assert_eq!(row_icon_name("edit-symbolic", None), "edit");
}

#[test]
fn preview_helpers() {
    assert!(is_image_extension("png"));
    assert!(is_image_extension("jpeg"));
    assert!(!is_image_extension("PNG"));
    assert!(!is_image_extension("txt"));
    let long: String = "é".repeat(600);
    assert_eq!(preview_excerpt(&long).chars().count(), 500);
    assert_eq!(preview_excerpt("short"), "short");
    assert_eq!(file_type_label(true, true), "Directory");
    assert_eq!(file_type_label(false, true), "Symlink");
    assert_eq!(file_type_label(false, false), "File");
}

#[test]
fn info_previews() {
    let mut calc = item("c", 1);
    calc.category = "Calculator".to_string();
    calc.title = "4".to_string();
    calc.subtitle = Some("2+2".to_string());
    let p = info_preview(&calc);
    assert_eq!(p.metadata, vec![("Expression".to_string(), "2+2".to_string())]);
    assert_eq!(
        p.text.unwrap(),
        "\n\n    Result:\n\n    4\n\n    (Press Enter to copy to clipboard)"
    );

    let mut web = item("w", 1);
    web.category = "Web Search".to_string();
    web.actions[0].label = "Search".to_string();
    web.actions[0].value = "https://x".to_string();
    let p = info_preview(&web);
    assert_eq!(p.metadata, vec![("URL".to_string(), "https://x".to_string())]);
    assert_eq!(
        p.text.unwrap(),
        "\n\n    Action: Search\n\n    Link: https://x\n\n    (Press Enter to open in browser)"
    );

    let mut cmd = item("r", 1);
    cmd.category = "Run Command".to_string();
    let p = info_preview(&cmd);
    assert_eq!(p.metadata, vec![("Command".to_string(), "echo r".to_string())]);
    assert_eq!(
        p.text.unwrap(),
        "\n\n    Execute in background subshell:\n\n    $ echo r\n\n    (Press Enter to run)"
    );

    let mut gnome = item("g", 1);
    gnome.category = "GNOME Controls".to_string();
    gnome.title = "Lock".to_string();
    let p = info_preview(&gnome);
    assert_eq!(p.metadata, vec![("Command".to_string(), "echo g".to_string())]);
    assert_eq!(
        p.text.unwrap(),
        "\n\n    GNOME System Action:\n\n    Lock\n\n    (Press Enter to execute)"
    );

    let mut empty_web = item("e", 1);
    empty_web.category = "YouTube Search".to_string();
    empty_web.actions.clear();
    let p = info_preview(&empty_web);
    assert!(p.metadata.is_empty() && p.text.is_none());

    let p = info_preview(&item("o", 1));
    assert!(p.metadata.is_empty() && p.text.is_none());
}
