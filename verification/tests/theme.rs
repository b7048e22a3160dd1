use spear::theme::{
    custom_theme_css, generate_css, is_builtin_theme, is_dark_scheme, theme_colors, ThemeColors,
    CATPPUCCIN_COLORS, DRACULA_COLORS, GRUVBOX_COLORS, JELLYBEANS_COLORS, MIN_DARK_COLORS,
    MIN_LIGHT_COLORS, TOKYONIGHT_COLORS,
};

fn stylesheet(colors: &str, search: i32, title: i32, width: i32) -> String {
    format!(
        r#"{0}
window.launcher-window,
.launcher-window {{
    background: transparent;
    background-color: transparent;
    background-image: none;
    box-shadow: none;
    border: none;
}}

.launcher-root {{
    background-color: @window_bg_color;
    color: @window_fg_color;
    border-radius: 12px;
    border: 1px solid alpha(@window_fg_color, 0.08);
    font-family: "Adwaita Sans", Cantarell, sans-serif;
    min-width: {3}px;
    box-shadow: none;
}}

.search-container {{
    background-color: @window_bg_color;
    border-bottom: 1px solid alpha(@window_fg_color, 0.05);
    padding: 8px 16px;
    border-top-left-radius: 11px;
    border-top-right-radius: 11px;
}}

.launcher-root entry {{
    background-color: @entry_bg_color;
    border: 1px solid alpha(@window_fg_color, 0.1);
    border-radius: 8px;
    padding: 0px 12px;
    box-shadow: none;
    font-size: {1}px;
    color: @window_fg_color;
    caret-color: @accent_bg_color;
    margin-left: 8px;
    margin-right: 0px;
}}

.launcher-root entry:focus {{
    border-color: @accent_bg_color;
    box-shadow: none;
}}

.launcher-root entry.focused-mode {{
    margin-left: 0px;
    margin-right: 0px;
}}

.launcher-root list.minimal-mode row {{
    padding: 4px 10px;
    margin-bottom: 2px;
}}

.launcher-root list {{
    background-color: transparent;
    padding: 8px;
    min-width: 0;
}}

.launcher-root row {{
    background-color: transparent;
    border-radius: 8px;
    padding: 8px 12px;
    margin-bottom: 4px;
    transition: background-color 0.1s ease;
    min-width: 0;
}}

.launcher-root row:hover {{
    background-color: alpha(@window_fg_color, 0.05);
}}

.launcher-root row:selected {{
    background-color: @accent_bg_color;
    color: @accent_fg_color;
}}

.launcher-root row image {{
    color: @window_fg_color;
}}

.launcher-root row:selected label {{
    color: @accent_fg_color;
}}

.launcher-root row:selected image {{
    color: @accent_fg_color;
}}

.row-title {{
    font-size: {2}px;
    font-weight: bold;
}}

.row-subtitle {{
    font-size: 12px;
    color: @text_color;
    opacity: 0.7;
}}

.launcher-root row:selected .row-subtitle {{
    color: @accent_fg_color;
    opacity: 0.85;
}}

.row-category {{
    font-size: 11px;
    color: @window_fg_color;
    background-color: alpha(@window_fg_color, 0.08);
    border-radius: 6px;
    padding: 3px 8px;
    font-weight: bold;
}}

.launcher-root row:selected .row-category {{
    background-color: alpha(@accent_fg_color, 0.2);
    color: @accent_fg_color;
}}

.footer {{
    background-color: @window_bg_color;
    border-top: 1px solid alpha(@window_fg_color, 0.05);
    padding: 10px 18px;
    border-bottom-left-radius: 11px;
    border-bottom-right-radius: 11px;
}}

.footer-status {{
    font-size: 12px;
    color: @text_color;
    opacity: 0.7;
}}

.footer-action-label {{
    font-size: 12px;
    color: @window_fg_color;
}}

.footer-action-btn {{
    background-color: alpha(@window_fg_color, 0.08);
    color: @window_fg_color;
    border-radius: 6px;
    padding: 4px 10px;
    font-size: 11px;
    font-weight: bold;
}}

.footer-action-btn:hover {{
    background-color: alpha(@window_fg_color, 0.15);
}}

.footer-icon-btn {{
    background: none;
    border: none;
    padding: 4px;
    border-radius: 6px;
    color: @window_fg_color;
    opacity: 0.6;
    transition: opacity 0.15s ease, background-color 0.15s ease;
}}

.footer-icon-btn:hover {{
    opacity: 1.0;
    background-color: alpha(@window_fg_color, 0.08);
}}

.preview-panel {{
    background-color: @window_bg_color;
    border-left: 1px solid alpha(@window_fg_color, 0.08);
}}

.preview-title {{
    font-size: 15px;
    font-weight: bold;
    color: @window_fg_color;
}}

.preview-subtitle {{
    font-size: 12px;
    color: @text_color;
    opacity: 0.7;
}}

.preview-metadata-label {{
    font-size: 11px;
    color: @text_color;
    opacity: 0.6;
}}

.preview-metadata-value {{
    font-size: 11px;
    color: @window_fg_color;
    font-weight: bold;
}}

.preview-text-view {{
    font-family: monospace;
    font-size: 11px;
    background-color: alpha(@window_fg_color, 0.03);
    border: 1px solid alpha(@window_fg_color, 0.05);
    border-radius: 6px;
    padding: 8px;
}}

.launcher-root popover {{
    background-color: @popover_bg_color;
    color: @popover_fg_color;
    border: 1px solid alpha(@popover_fg_color, 0.1);
    border-radius: 10px;
    padding: 6px;
}}

.launcher-root popover list {{
    padding: 0px;
}}

.launcher-root popover row {{
    border-radius: 6px;
    padding: 6px 12px;
}}

.launcher-root popover row:selected {{
    background-color: @accent_bg_color;
    color: @accent_fg_color;
}}
"#,
        colors, search, title, width
    )
}

fn colors(fill: bool) -> ThemeColors {
    let s = |v: &str| Some(v.to_string());
    ThemeColors {
        window_bg_color: s("#000"),
        window_fg_color: s("#fff"),
        accent_bg_color: s("#111"),
        accent_fg_color: s("#eee"),
        popover_bg_color: s("#222"),
        popover_fg_color: s("#ddd"),
        text_color: if fill { s("#333") } else { None },
        entry_bg_color: None,
    }
}

#[test]
fn builtin_theme_stylesheet() {
    let css = generate_css(18, 14, "dracula", "dark", 700, false, None);
    assert_eq!(css, stylesheet(DRACULA_COLORS, 18, 14, 700));
    assert!(css.contains("min-width: 700px;"));
    assert!(css.contains("font-size: 18px;"));
    assert!(css.contains("font-size: 14px;"));
    let css = generate_css(-3, 0, "tokyonight", "light", 12345, true, None);
    assert_eq!(css, stylesheet(TOKYONIGHT_COLORS, -3, 0, 12345));
}

#[test]
fn min_theme_follows_scheme() {
    assert_eq!(theme_colors("min", "dark", false, None), MIN_DARK_COLORS);
    assert_eq!(theme_colors("min", "light", true, None), MIN_LIGHT_COLORS);
    assert_eq!(theme_colors("min", "default", true, None), MIN_DARK_COLORS);
    assert_eq!(theme_colors("min", "default", false, None), MIN_LIGHT_COLORS);
    assert!(is_dark_scheme("dark", false));
    assert!(!is_dark_scheme("light", true));
    assert!(is_dark_scheme("default", true));
    for t in [("catppuccin", CATPPUCCIN_COLORS), ("gruvbox", GRUVBOX_COLORS), ("jellybeans", JELLYBEANS_COLORS)] {
        assert_eq!(theme_colors(t.0, "dark", false, None), t.1);
        assert!(is_builtin_theme(t.0));
    }
    assert!(!is_builtin_theme("nord"));
}

#[test]
fn custom_theme_colours() {
    let full = colors(true);
    let text = custom_theme_css(&full).unwrap();
    assert_eq!(
        text,
        "\n@define-color window_bg_color #000;\n@define-color window_fg_color #fff;\n@define-color accent_bg_color #111;\n@define-color accent_fg_color #eee;\n@define-color popover_bg_color #222;\n@define-color popover_fg_color #ddd;\n@define-color entry_bg_color #222;\n@define-color text_color #333;\n"
    );
    let css = generate_css(16, 13, "mine", "dark", 600, false, Some(&full));
    assert_eq!(css, stylesheet(&text, 16, 13, 600));
    let partial = colors(false);
    assert!(custom_theme_css(&partial).is_none());
}

#[test]
fn missing_theme_gets_default_colours() {
    let css = generate_css(16, 13, "mine", "dark", 600, false, None);
    let defaults = "@define-color text_color @window_fg_color;\n@define-color entry_bg_color @popover_bg_color;\n";
    assert_eq!(css, stylesheet(defaults, 16, 13, 600));
    let partial = colors(false);
    assert_eq!(generate_css(16, 13, "mine", "dark", 600, false, Some(&partial)), css);
}
