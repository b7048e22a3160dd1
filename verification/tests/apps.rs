use spear::frecency::FrecencyStore;
use spear::plugins::apps::{format_app, AppEntry, AppsPlugin};

fn app(name: &str, id: Option<&str>, desc: Option<&str>, exec: &str, show: bool) -> AppEntry {
    AppEntry {
        name: name.to_string(),
        id: id.map(|s| s.to_string()),
        description: desc.map(|s| s.to_string()),
        executable: exec.to_string(),
        icon: None,
        should_show: show,
    }
}

fn sample() -> Vec<AppEntry> {
    vec![
        app("Firefox", Some("firefox.desktop"), Some("Web Browser"), "firefox", true),
        app("Files", Some("org.gnome.Nautilus.desktop"), Some("Access and organize files"), "nautilus", true),
        app("Fire Starter", None, None, "fire-starter", true),
        app("Hidden Fire", Some("hidden.desktop"), None, "hidden", false),
        app("Terminal", Some("terminal.desktop"), Some("Use the command line"), "gnome-terminal", true),
        app("Camp", Some("camp.desktop"), Some("Light a fire outdoors"), "camp", true),
        app("Tool", Some("tool.desktop"), None, "/usr/bin/firetool", true),
        app("fire", Some("fire.desktop"), None, "fire", true),
    ]
}

#[test]
fn query_ranks_by_match_kind_then_name() {
    let plugin = AppsPlugin::new(sample());
    let store = FrecencyStore::default();
    let r = plugin.query("Fire", &store, 0);
    let titles: Vec<&str> = r.iter().map(|i| i.title.as_str()).collect();
    assert_eq!(titles, vec!["fire", "Fire Starter", "Firefox", "Camp", "Tool"]);
    let scores: Vec<i32> = r.iter().map(|i| i.score).collect();
    assert_eq!(scores, vec![100, 80, 80, 40, 20]);
}

#[test]
fn query_contains_in_name_scores_sixty() {
    let plugin = AppsPlugin::new(sample());
    let store = FrecencyStore::default();
    let r = plugin.query("minal", &store, 0);
    assert_eq!(r.len(), 1);
    assert_eq!(r[0].title, "Terminal");
    assert_eq!(r[0].score, 60);
}

#[test]
fn query_without_match_is_empty() {
    let plugin = AppsPlugin::new(sample());
    let store = FrecencyStore::default();
    assert!(plugin.query("zzz", &store, 0).is_empty());
}

#[test]
fn blank_query_ranks_by_frecency_and_keeps_ten() {
    let mut apps = Vec::new();
    for i in 0..12 {
        apps.push(app(&format!("App {:02}", i), Some(&format!("app{}.desktop", i)), None, "x", true));
    }
    apps.push(app("Zed", Some("zed.desktop"), None, "zed", true));
    apps.push(app("Ghost", Some("ghost.desktop"), None, "ghost", false));
    let plugin = AppsPlugin::new(apps);
    let mut store = FrecencyStore::default();
    let now: u64 = 1_000_000;
    store.accesses.insert("zed.desktop".to_string(), vec![now - 10, now - 20]);
    store.accesses.insert("app5.desktop".to_string(), vec![now - 10]);
    store.accesses.insert("ghost.desktop".to_string(), vec![now; 5]);
    assert!(plugin.frecency_fits(&store, now));
    let r = plugin.query("   ", &store, now);
    assert_eq!(r.len(), 10);
    assert_eq!(r[0].title, "Zed");
    assert_eq!(r[0].score, 200);
    assert_eq!(r[1].title, "App 05");
    assert_eq!(r[1].score, 100);
    assert_eq!(r[2].title, "App 00");
    assert_eq!(r[2].score, 0);
    assert_eq!(r[8].title, "App 07");
    assert_eq!(r[9].title, "App 08");
}

#[test]
fn format_app_fields_and_fallbacks() {
    let a = app("Files", Some("nautilus.desktop"), Some("Browse"), "nautilus", true);
    let item = format_app(&a, 42);
    assert_eq!(item.id, "app-nautilus.desktop");
    assert_eq!(item.title, "Files");
    assert_eq!(item.subtitle.as_deref(), Some("Browse"));
    assert_eq!(item.icon.as_deref(), Some("application-x-executable"));
    assert_eq!(item.category, "Applications");
    assert_eq!(item.score, 42);
    assert_eq!(item.actions.len(), 1);
    assert_eq!(item.actions[0].label, "Launch Files");
    assert_eq!(item.actions[0].action_type, "launch-app");
    assert_eq!(item.actions[0].value, "nautilus.desktop");

    let b = app("Tool", None, None, "/usr/bin/tool", true);
    let item = format_app(&b, 1);
    assert_eq!(item.id, "app-Tool");
    assert_eq!(item.subtitle.as_deref(), Some("/usr/bin/tool"));
    assert_eq!(item.actions[0].value, "Tool");

    let mut c = app("Blank", None, None, "", true);
    c.icon = Some("blank-icon".to_string());
    let item = format_app(&c, 1);
    assert_eq!(item.subtitle, None);
    assert_eq!(item.icon.as_deref(), Some("blank-icon"));
}

#[test]
fn apps_plugin_identity_and_reload() {
    let mut plugin = AppsPlugin::new(Vec::new());
    assert_eq!(plugin.id(), "apps");
    assert_eq!(plugin.name(), "Applications");
    let store = FrecencyStore::default();
    assert!(plugin.query("", &store, 0).is_empty());
    plugin.reload_cache(sample());
    assert_eq!(plugin.query("", &store, 0).len(), 7);
}

#[test]
fn matching_ignores_case_beyond_ascii() {
    let plugin = AppsPlugin::new(vec![app("École", Some("ecole.desktop"), None, "ecole", true)]);
    let store = FrecencyStore::default();
    let r = plugin.query("éCO", &store, 0);
    assert_eq!(r.len(), 1);
    assert_eq!(r[0].score, 80);
}
