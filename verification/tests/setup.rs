use spear::setup::{
    args_contain, autostart_entry, binding_schema, cli_command, config_dir, custom_binding_path,
    desktop_entry_with_binary, frecency_file_path, is_spear_binding_name, join_path_str,
    keybinding_index, keybinding_list, local_bin, next_free_index, parse_keybinding_paths,
    path_list_has_dir, pick_shortcut, plugin_enabled, plugin_list, theme_file_path, CliCommand,
    ExternalPluginLine, InternalPluginLine, PluginSwitches, HELP_MESSAGE,
};

fn strings(v: &[&str]) -> Vec<String> {
    v.iter().map(|s| s.to_string()).collect()
}

#[test]
fn path_joins() {
    assert_eq!(join_path_str("/home/u", ".config"), "/home/u/.config");
    assert_eq!(join_path_str("/home/u/", ".config"), "/home/u/.config");
    assert_eq!(join_path_str("", ".config"), ".config");
    assert_eq!(join_path_str("/home/u", "/etc"), "/etc");
    assert_eq!(local_bin("/home/u"), "/home/u/.local/bin");
    assert_eq!(config_dir("/home/u"), "/home/u/.config/spear");
    assert_eq!(frecency_file_path(Some("/home/u")), "/home/u/.config/spear/frecency.json");
    assert_eq!(frecency_file_path(None), "/home/atharva/.config/spear/frecency.json");
    assert_eq!(theme_file_path("/home/u", "nord"), "/home/u/.config/spear/themes/nord.json");
    for (home, part) in [("/a/b", "c"), ("/a/b/", "c"), ("", "c"), ("rel", "x/y")] {
        let expected = std::path::PathBuf::from(home).join(part);
        assert_eq!(join_path_str(home, part), expected.to_string_lossy());
    }
}

#[test]
fn autostart_text_matches_the_entry_format() {
    let binary = "/home/u/.local/bin/spear";
    let expected = format!(
        "[Desktop Entry]\n\
         Name=Spear Daemon\n\
         Comment=Start Spear launcher daemon in background\n\
         Exec=bash -c \"{binary} --quit ; {binary}\"\n\
         Icon=com.antigravity.spear\n\
         Terminal=false\n\
         Type=Application\n\
         Categories=Utility;\n\
         StartupNotify=false\n\
         X-GNOME-Autostart-enabled=true\n",
        binary = binary
    );
    assert_eq!(autostart_entry(binary, "com.antigravity.spear"), expected);
}

#[test]
fn desktop_entry_points_at_binary() {
    let content = "[Desktop Entry]\nName=Spear\nExec=spear\nIcon=x\nExec=spear\n";
    assert_eq!(
        desktop_entry_with_binary(content, "/opt/spear"),
        content.replace("Exec=spear\n", "Exec=/opt/spear\n")
    );
    assert_eq!(desktop_entry_with_binary("Exec=spear", "/b"), "Exec=spear");
    assert_eq!(desktop_entry_with_binary("", "/b"), "");
}

#[test]
fn keybinding_lists() {
    assert!(parse_keybinding_paths("@as []\n").is_empty());
    assert!(parse_keybinding_paths("[]").is_empty());
    assert!(parse_keybinding_paths("   ").is_empty());
    let out = "['/org/gnome/settings-daemon/plugins/media-keys/custom-keybindings/custom0/', '/org/gnome/settings-daemon/plugins/media-keys/custom-keybindings/custom2/']\n";
    let paths = parse_keybinding_paths(out);
    assert_eq!(
        paths,
        strings(&[
            "/org/gnome/settings-daemon/plugins/media-keys/custom-keybindings/custom0/",
            "/org/gnome/settings-daemon/plugins/media-keys/custom-keybindings/custom2/",
        ])
    );
    assert_eq!(parse_keybinding_paths("['a', , '' ,'b']"), strings(&["a", "b"]));
    assert_eq!(next_free_index(&paths), 1);
    assert_eq!(next_free_index(&Vec::new()), 0);
    assert_eq!(
        next_free_index(&strings(&["/x/custom0/", "/x/custom1//", "/x/customz/", "/x/custom2"])),
        3
    );
    assert_eq!(keybinding_index("/x/custom12/"), Some(12));
    assert_eq!(keybinding_index("/x/custom/custom7"), Some(7));
    assert_eq!(keybinding_index("/x/other/"), None);
    assert_eq!(keybinding_index("7"), Some(7));
    assert_eq!(keybinding_index("/x/custom+4/"), Some(4));
    assert_eq!(
        custom_binding_path(3),
        "/org/gnome/settings-daemon/plugins/media-keys/custom-keybindings/custom3/"
    );
    assert_eq!(keybinding_list(&strings(&["a", "b"])), "['a', 'b']");
    assert_eq!(keybinding_list(&Vec::new()), "[]");
    assert_eq!(
        binding_schema("/p/"),
        "org.gnome.settings-daemon.plugins.media-keys.custom-keybinding:/p/"
    );
    assert!(is_spear_binding_name("'Spear'\n"));
    assert!(!is_spear_binding_name("'Other'"));
}

#[test]
fn shortcut_argument() {
    assert_eq!(pick_shortcut(&strings(&["install"])), "<Alt>space");
    assert_eq!(pick_shortcut(&strings(&["install", "--x", "<Super>space"])), "<Super>space");
    assert_eq!(pick_shortcut(&Vec::new()), "<Alt>space");
}

#[test]
fn path_lists() {
    assert!(path_list_has_dir("/usr/bin:/home/u/.local/bin/", "/home/u/.local/bin"));
    assert!(path_list_has_dir("/home/u//.local/bin", "/home/u/.local/bin"));
    assert!(!path_list_has_dir("/usr/bin:/bin", "/home/u/.local/bin"));
    assert!(!path_list_has_dir("", "/home/u/.local/bin"));
}

#[test]
fn command_lines() {
    assert_eq!(cli_command(&strings(&["spear"])), CliCommand::Toggle);
    assert_eq!(cli_command(&strings(&["spear", "-q", "--help"])), CliCommand::Help);
    assert_eq!(cli_command(&strings(&["spear", "-q"])), CliCommand::Quit);
    assert_eq!(cli_command(&strings(&["spear", "--status"])), CliCommand::Status);
    assert_eq!(cli_command(&strings(&["spear", "-c", "-l"])), CliCommand::Config);
    assert_eq!(cli_command(&strings(&["spear", "--list-plugins"])), CliCommand::ListPlugins);
    assert!(args_contain(&strings(&["spear", "--init-setup"]), "--init-setup"));
    assert!(!args_contain(&strings(&["spear"]), "--init-setup"));
}

#[test]
fn help_message_text() {
    let expected = "Spear Launcher Daemon\n\n\
                    Usage: spear [options]\n\n\
                    Options:\n\
                      -t, --toggle          Toggle window visibility (default if no options passed)\n\
                      -q, --quit            Quit the launcher background daemon\n\
                      -s, --status          Print the daemon running status\n\
                      -l, --list-plugins    List all enabled search plugins\n\
                      -c, --config          Print the configuration file path\n\
                      --init-setup          Run initial startup and hotkey setup\n\
                      -h, --help            Print this help message\n";
    assert_eq!(HELP_MESSAGE, expected);
}

#[test]
fn plugin_listing() {
    let sw = PluginSwitches {
        apps: true,
        calc: false,
        web: true,
        youtube: true,
        files: true,
        command: true,
        gnome: true,
        recent: true,
        packages: true,
        fonts: false,
        colors: true,
        clipboard: true,
        window_mgmt: true,
        emojis: true,
        window_switcher: false,
    };
    assert!(plugin_enabled("apps", &sw));
    assert!(!plugin_enabled("calc", &sw));
    assert!(!plugin_enabled("fonts", &sw));
    assert!(!plugin_enabled("window-switcher", &sw));
    assert!(plugin_enabled("something-else", &sw));
    let internal = vec![
        InternalPluginLine { name: "Applications".to_string(), id: "apps".to_string(), enabled: true },
        InternalPluginLine { name: "Font Search".to_string(), id: "fonts".to_string(), enabled: false },
    ];
    assert_eq!(
        plugin_list(&internal, &Vec::new()),
        "Internal Plugins:\n  - Applications [apps] (enabled)\n  - Font Search [fonts] (disabled)\n\nExternal Plugins:\n  (None)\n"
    );
    let external = vec![
        ExternalPluginLine { name: "Jira".to_string(), id: "jira".to_string(), keyword: Some("j".to_string()) },
        ExternalPluginLine { name: "Misc".to_string(), id: "misc".to_string(), keyword: None },
    ];
    assert_eq!(
        plugin_list(&Vec::new(), &external),
        "Internal Plugins:\n\nExternal Plugins:\n  - Jira [jira] (keyword: j)\n  - Misc [misc] (keyword: none)\n"
    );
}
