use spear::plugins::fonts::{font_query_results, font_results, FontSearchPlugin};

fn names(v: &[&str]) -> Vec<String> {
    v.iter().map(|s| s.to_string()).collect()
}

#[test]
fn font_results_match_ignoring_case() {
    let fams = names(&["DejaVu Sans", "Noto Serif", "dejavu mono"]);
    let r = font_results("DEJA", &fams);
    assert_eq!(r.len(), 2);
    assert_eq!(r[0].id, "font-DejaVu Sans");
    assert_eq!(r[0].title, "DejaVu Sans");
    assert_eq!(r[0].subtitle.as_deref(), Some("System Font"));
    assert_eq!(r[0].icon.as_deref(), Some("font-x-generic-symbolic"));
    assert_eq!(r[0].category, "Fonts");
    assert_eq!(r[0].score, 90);
    assert_eq!(r[0].actions.len(), 2);
    assert_eq!(r[0].actions[0].label, "Copy Font Name");
    assert_eq!(r[0].actions[0].action_type, "copy-to-clipboard");
    assert_eq!(r[0].actions[0].value, "DejaVu Sans");
    assert_eq!(r[0].actions[1].label, "Preview Font");
    assert_eq!(r[0].actions[1].action_type, "run-command");
    assert_eq!(r[0].actions[1].value, "gnome-font-viewer --family 'DejaVu Sans'");
    assert_eq!(r[1].title, "dejavu mono");
}

#[test]
fn font_results_stop_at_twenty() {
    let fams: Vec<String> = (0..30).map(|i| format!("Font {}", i)).collect();
    let r = font_results("font", &fams);
    assert_eq!(r.len(), 20);
    assert_eq!(r[0].title, "Font 0");
    assert_eq!(r[19].title, "Font 19");
}

#[test]
fn font_results_none_matching() {
    let fams = names(&["Cantarell", "Inter"]);
    assert!(font_results("mono", &fams).is_empty());
}

#[test]
fn font_plugin_identity() {
    let p = FontSearchPlugin::new();
    assert_eq!(p.id(), "fonts");
    assert_eq!(p.name(), "Font Search");
    assert_eq!(p.mode_keyword(), Some("font"));
    assert!(p.is_mode_only());
}

#[test]
fn font_query_empty_is_empty() {
    let p = FontSearchPlugin::new();
    assert!(p.query("").is_empty());
}

#[test]
fn font_query_on_system_fonts_is_bounded() {
    let p = FontSearchPlugin::new();
    let r = p.query("a");
    assert!(r.len() <= 20);
    for item in &r {
        assert!(item.title.to_lowercase().contains('a'));
        assert_eq!(item.category, "Fonts");
    }
}

#[test]
fn font_query_failed_listing_gives_nothing() {
    assert!(font_query_results("Sans", &None).is_empty());
}

#[test]
fn font_query_empty_query_gives_nothing_even_with_fonts() {
    let fams = Some(vec!["DejaVu Sans".to_string()]);
    assert!(font_query_results("", &fams).is_empty());
}

#[test]
fn font_query_lists_matching_families() {
    let fams = Some(vec![
        "DejaVu Sans".to_string(),
        "Liberation Mono".to_string(),
        "Noto Sans".to_string(),
    ]);
    let r = font_query_results("sans", &fams);
    assert_eq!(r.len(), 2);
    assert_eq!(r[0].title, "DejaVu Sans");
    assert_eq!(r[1].title, "Noto Sans");
    assert_eq!(r[1].id, "font-Noto Sans");
}
