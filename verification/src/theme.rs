//! The launcher's stylesheet: the colours of the selected theme followed by the
//! rules, with the font sizes and the window width filled in.
use vstd::prelude::*;

use crate::text::{i32_decimal_chars, int_decimal, push_chars, push_str, seq_contains, str_contains, str_eq, string_from_chars};

verus! {

/// The colours of the built-in theme "tokyonight".
pub const TOKYONIGHT_COLORS: &'static str = "\n@define-color window_bg_color #1a1b26;\n@define-color window_fg_color #c0caf5;\n@define-color accent_bg_color #7aa2f7;\n@define-color accent_fg_color #15161e;\n@define-color popover_bg_color #1f2335;\n@define-color popover_fg_color #c0caf5;\n@define-color entry_bg_color #24283b;\n@define-color text_color #9aa5ce;";

/// The colours of the built-in theme "dracula".
pub const DRACULA_COLORS: &'static str = "\n@define-color window_bg_color #282a36;\n@define-color window_fg_color #f8f8f2;\n@define-color accent_bg_color #bd93f9;\n@define-color accent_fg_color #282a36;\n@define-color popover_bg_color #44475a;\n@define-color popover_fg_color #f8f8f2;\n@define-color entry_bg_color #343746;\n@define-color text_color #6272a4;";

/// The colours of the built-in theme "catppuccin".
pub const CATPPUCCIN_COLORS: &'static str = "\n@define-color window_bg_color #1e1e2e;\n@define-color window_fg_color #cdd6f4;\n@define-color accent_bg_color #cba6f7;\n@define-color accent_fg_color #11111b;\n@define-color popover_bg_color #181825;\n@define-color popover_fg_color #cdd6f4;\n@define-color entry_bg_color #2a2b3c;\n@define-color text_color #a6adc8;";

/// The colours of the built-in theme "gruvbox".
pub const GRUVBOX_COLORS: &'static str = "\n@define-color window_bg_color #282828;\n@define-color window_fg_color #ebdbb2;\n@define-color accent_bg_color #fabd2f;\n@define-color accent_fg_color #282828;\n@define-color popover_bg_color #3c3836;\n@define-color popover_fg_color #ebdbb2;\n@define-color entry_bg_color #32302f;\n@define-color text_color #a89984;";

/// The colours of the built-in theme "jellybeans".
pub const JELLYBEANS_COLORS: &'static str = "\n@define-color window_bg_color #151515;\n@define-color window_fg_color #e8e8d3;\n@define-color accent_bg_color #8197bf;\n@define-color accent_fg_color #151515;\n@define-color popover_bg_color #303030;\n@define-color popover_fg_color #e8e8d3;\n@define-color entry_bg_color #202020;\n@define-color text_color #888888;";

/// The colours of the built-in theme "min" in dark mode.
pub const MIN_DARK_COLORS: &'static str = "\n@define-color window_bg_color #121212;\n@define-color window_fg_color #eeeeee;\n@define-color accent_bg_color #222222;\n@define-color accent_fg_color #ffffff;\n@define-color popover_bg_color #1a1a1a;\n@define-color popover_fg_color #eeeeee;\n@define-color entry_bg_color #1e1e1e;\n@define-color text_color #999999;";

/// The colours of the built-in theme "min" in light mode.
pub const MIN_LIGHT_COLORS: &'static str = "\n@define-color window_bg_color #ffffff;\n@define-color window_fg_color #111111;\n@define-color accent_bg_color #f0f0f0;\n@define-color accent_fg_color #111111;\n@define-color popover_bg_color #fafafa;\n@define-color popover_fg_color #111111;\n@define-color entry_bg_color #f5f5f5;\n@define-color text_color #666666;";

/// The stylesheet rules up to the window width.
pub const CSS_BEFORE_WIDTH: &'static str = "\nwindow.launcher-window,\n.launcher-window {\n    background: transparent;\n    background-color: transparent;\n    background-image: none;\n    box-shadow: none;\n    border: none;\n}\n\n.launcher-root {\n    background-color: @window_bg_color;\n    color: @window_fg_color;\n    border-radius: 12px;\n    border: 1px solid alpha(@window_fg_color, 0.08);\n    font-family: \"Adwaita Sans\", Cantarell, sans-serif;\n    min-width: ";

/// The stylesheet rules from the window width up to the search font size.
pub const CSS_BEFORE_SEARCH_SIZE: &'static str = "px;\n    box-shadow: none;\n}\n\n.search-container {\n    background-color: @window_bg_color;\n    border-bottom: 1px solid alpha(@window_fg_color, 0.05);\n    padding: 8px 16px;\n    border-top-left-radius: 11px;\n    border-top-right-radius: 11px;\n}\n\n.launcher-root entry {\n    background-color: @entry_bg_color;\n    border: 1px solid alpha(@window_fg_color, 0.1);\n    border-radius: 8px;\n    padding: 0px 12px;\n    box-shadow: none;\n    font-size: ";

/// The stylesheet rules from the search font size up to the title font size.
pub const CSS_BEFORE_TITLE_SIZE: &'static str = "px;\n    color: @window_fg_color;\n    caret-color: @accent_bg_color;\n    margin-left: 8px;\n    margin-right: 0px;\n}\n\n.launcher-root entry:focus {\n    border-color: @accent_bg_color;\n    box-shadow: none;\n}\n\n.launcher-root entry.focused-mode {\n    margin-left: 0px;\n    margin-right: 0px;\n}\n\n.launcher-root list.minimal-mode row {\n    padding: 4px 10px;\n    margin-bottom: 2px;\n}\n\n.launcher-root list {\n    background-color: transparent;\n    padding: 8px;\n    min-width: 0;\n}\n\n.launcher-root row {\n    background-color: transparent;\n    border-radius: 8px;\n    padding: 8px 12px;\n    margin-bottom: 4px;\n    transition: background-color 0.1s ease;\n    min-width: 0;\n}\n\n.launcher-root row:hover {\n    background-color: alpha(@window_fg_color, 0.05);\n}\n\n.launcher-root row:selected {\n    background-color: @accent_bg_color;\n    color: @accent_fg_color;\n}\n\n.launcher-root row image {\n    color: @window_fg_color;\n}\n\n.launcher-root row:selected label {\n    color: @accent_fg_color;\n}\n\n.launcher-root row:selected image {\n    color: @accent_fg_color;\n}\n\n.row-title {\n    font-size: ";

/// The stylesheet rules after the title font size.
pub const CSS_AFTER_TITLE_SIZE: &'static str = "px;\n    font-weight: bold;\n}\n\n.row-subtitle {\n    font-size: 12px;\n    color: @text_color;\n    opacity: 0.7;\n}\n\n.launcher-root row:selected .row-subtitle {\n    color: @accent_fg_color;\n    opacity: 0.85;\n}\n\n.row-category {\n    font-size: 11px;\n    color: @window_fg_color;\n    background-color: alpha(@window_fg_color, 0.08);\n    border-radius: 6px;\n    padding: 3px 8px;\n    font-weight: bold;\n}\n\n.launcher-root row:selected .row-category {\n    background-color: alpha(@accent_fg_color, 0.2);\n    color: @accent_fg_color;\n}\n\n.footer {\n    background-color: @window_bg_color;\n    border-top: 1px solid alpha(@window_fg_color, 0.05);\n    padding: 10px 18px;\n    border-bottom-left-radius: 11px;\n    border-bottom-right-radius: 11px;\n}\n\n.footer-status {\n    font-size: 12px;\n    color: @text_color;\n    opacity: 0.7;\n}\n\n.footer-action-label {\n    font-size: 12px;\n    color: @window_fg_color;\n}\n\n.footer-action-btn {\n    background-color: alpha(@window_fg_color, 0.08);\n    color: @window_fg_color;\n    border-radius: 6px;\n    padding: 4px 10px;\n    font-size: 11px;\n    font-weight: bold;\n}\n\n.footer-action-btn:hover {\n    background-color: alpha(@window_fg_color, 0.15);\n}\n\n.footer-icon-btn {\n    background: none;\n    border: none;\n    padding: 4px;\n    border-radius: 6px;\n    color: @window_fg_color;\n    opacity: 0.6;\n    transition: opacity 0.15s ease, background-color 0.15s ease;\n}\n\n.footer-icon-btn:hover {\n    opacity: 1.0;\n    background-color: alpha(@window_fg_color, 0.08);\n}\n\n.preview-panel {\n    background-color: @window_bg_color;\n    border-left: 1px solid alpha(@window_fg_color, 0.08);\n}\n\n.preview-title {\n    font-size: 15px;\n    font-weight: bold;\n    color: @window_fg_color;\n}\n\n.preview-subtitle {\n    font-size: 12px;\n    color: @text_color;\n    opacity: 0.7;\n}\n\n.preview-metadata-label {\n    font-size: 11px;\n    color: @text_color;\n    opacity: 0.6;\n}\n\n.preview-metadata-value {\n    font-size: 11px;\n    color: @window_fg_color;\n    font-weight: bold;\n}\n\n.preview-text-view {\n    font-family: monospace;\n    font-size: 11px;\n    background-color: alpha(@window_fg_color, 0.03);\n    border: 1px solid alpha(@window_fg_color, 0.05);\n    border-radius: 6px;\n    padding: 8px;\n}\n\n.launcher-root popover {\n    background-color: @popover_bg_color;\n    color: @popover_fg_color;\n    border: 1px solid alpha(@popover_fg_color, 0.1);\n    border-radius: 10px;\n    padding: 6px;\n}\n\n.launcher-root popover list {\n    padding: 0px;\n}\n\n.launcher-root popover row {\n    border-radius: 6px;\n    padding: 6px 12px;\n}\n\n.launcher-root popover row:selected {\n    background-color: @accent_bg_color;\n    color: @accent_fg_color;\n}\n";

/// Whether the colour scheme `color_scheme` is dark: the desktop's preference
/// (`system_dark`) for "default", otherwise whether it is "dark".
pub open spec fn scheme_is_dark(color_scheme: Seq<char>, system_dark: bool) -> bool {
    if color_scheme == "default"@ {
        system_dark
    } else {
        color_scheme == "dark"@
    }
}

/// The colours of the built-in theme `theme`, `None` for any other name.
pub open spec fn builtin_colors(theme: Seq<char>, dark: bool) -> Option<Seq<char>> {
    if theme == "tokyonight"@ {
        Some(TOKYONIGHT_COLORS@)
    } else if theme == "dracula"@ {
        Some(DRACULA_COLORS@)
    } else if theme == "catppuccin"@ {
        Some(CATPPUCCIN_COLORS@)
    } else if theme == "gruvbox"@ {
        Some(GRUVBOX_COLORS@)
    } else if theme == "jellybeans"@ {
        Some(JELLYBEANS_COLORS@)
    } else if theme == "min"@ {
        Some(
            if dark {
                MIN_DARK_COLORS@
            } else {
                MIN_LIGHT_COLORS@
            },
        )
    } else {
        None
    }
}

/// The colours a custom theme file defines; a colour that the file does not
/// give as a text is `None`.
pub struct ThemeColors {
    pub window_bg_color: Option<String>,
    pub window_fg_color: Option<String>,
    pub accent_bg_color: Option<String>,
    pub accent_fg_color: Option<String>,
    pub popover_bg_color: Option<String>,
    pub popover_fg_color: Option<String>,
    pub text_color: Option<String>,
    pub entry_bg_color: Option<String>,
}

/// The colour definitions of a custom theme: `None` unless it gives all of
/// window, accent and popover colours and the text colour; the entry colour
/// defaults to the popover background.
pub open spec fn custom_colors_text(c: ThemeColors) -> Option<Seq<char>> {
    match (c.window_bg_color, c.window_fg_color, c.accent_bg_color, c.accent_fg_color) {
        (Some(wb), Some(wf), Some(ab), Some(af)) => match (
            c.popover_bg_color,
            c.popover_fg_color,
            c.text_color,
        ) {
            (Some(pb), Some(pf), Some(tc)) => {
                let eb = match c.entry_bg_color {
                    Some(e) => e@,
                    None => pb@,
                };
                Some(
                    "\n@define-color window_bg_color "@ + wb@ + ";\n@define-color window_fg_color "@
                        + wf@ + ";\n@define-color accent_bg_color "@ + ab@
                        + ";\n@define-color accent_fg_color "@ + af@
                        + ";\n@define-color popover_bg_color "@ + pb@
                        + ";\n@define-color popover_fg_color "@ + pf@
                        + ";\n@define-color entry_bg_color "@ + eb + ";\n@define-color text_color "@
                        + tc@ + ";\n"@,
                )
            },
            _ => None,
        },
        _ => None,
    }
}

/// A text contains whatever stands in its middle.
proof fn lemma_contains_middle(a: Seq<char>, b: Seq<char>, c: Seq<char>)
    ensures
        seq_contains(a + b + c, b),
{
    let t = a + b + c;
    let i = a.len() as int;
    assert(t.subrange(i, i + b.len()) =~= b);
}

/// The entry colour of a complete custom theme is the one it gives, and the
/// popover background only when it gives none: the theme's colour definitions
/// contain `@define-color entry_bg_color <colour>;` with that colour, and so do
/// the colours selected for a theme name that is not built in.
pub proof fn law_custom_entry_colour(
    c: ThemeColors,
    theme: Seq<char>,
    color_scheme: Seq<char>,
    system_dark: bool,
)
    requires
        c.window_bg_color is Some,
        c.window_fg_color is Some,
        c.accent_bg_color is Some,
        c.accent_fg_color is Some,
        c.popover_bg_color is Some,
        c.popover_fg_color is Some,
        c.text_color is Some,
    ensures
        ({
            let entry = match c.entry_bg_color {
                Some(e) => e@,
                None => c.popover_bg_color.unwrap()@,
            };
            let line = "@define-color entry_bg_color "@ + entry + ";"@;
            &&& custom_colors_text(c) matches Some(t) && seq_contains(t, line)
            &&& builtin_colors(theme, scheme_is_dark(color_scheme, system_dark)) is None
                ==> seq_contains(selected_colors(theme, color_scheme, system_dark, Some(c)), line)
        }),
{
    let wb = c.window_bg_color.unwrap();
    let wf = c.window_fg_color.unwrap();
    let ab = c.accent_bg_color.unwrap();
    let af = c.accent_fg_color.unwrap();
    let pb = c.popover_bg_color.unwrap();
    let pf = c.popover_fg_color.unwrap();
    let tc = c.text_color.unwrap();
    let entry = match c.entry_bg_color {
        Some(e) => e@,
        None => pb@,
    };
    let line = "@define-color entry_bg_color "@ + entry + ";"@;
    let before = "\n@define-color window_bg_color "@ + wb@ + ";\n@define-color window_fg_color "@ + wf@
        + ";\n@define-color accent_bg_color "@ + ab@ + ";\n@define-color accent_fg_color "@ + af@
        + ";\n@define-color popover_bg_color "@ + pb@ + ";\n@define-color popover_fg_color "@ + pf@;
    let t = before + ";\n@define-color entry_bg_color "@ + entry + ";\n@define-color text_color "@
        + tc@ + ";\n"@;
    assert(custom_colors_text(c) == Some(t));
    reveal_strlit(";\n@define-color entry_bg_color ");
    reveal_strlit("@define-color entry_bg_color ");
    reveal_strlit(";\n");
    reveal_strlit(";\n@define-color text_color ");
    reveal_strlit("\n@define-color text_color ");
    reveal_strlit(";");
    let after = "\n@define-color text_color "@ + tc@ + ";\n"@;
    assert(t =~= (before + ";\n"@) + line + after);
    lemma_contains_middle(before + ";\n"@, line, after);
}

/// The colour definitions of the selected theme: a built-in theme's, else the
/// custom theme's when it is complete, else none.
pub open spec fn selected_colors(
    theme: Seq<char>,
    color_scheme: Seq<char>,
    system_dark: bool,
    custom: Option<ThemeColors>,
) -> Seq<char> {
    match builtin_colors(theme, scheme_is_dark(color_scheme, system_dark)) {
        Some(c) => c,
        None => match custom {
            Some(tc) => match custom_colors_text(tc) {
                Some(t) => t,
                None => Seq::empty(),
            },
            None => Seq::empty(),
        },
    }
}

/// The colours with the entry background and the text colour defined when they
/// are not: the entry takes the popover background and the text the window
/// foreground.
pub open spec fn with_default_colors(c: Seq<char>) -> Seq<char> {
    let c1 = if seq_contains(c, "@define-color entry_bg_color"@) {
        c
    } else {
        "@define-color entry_bg_color @popover_bg_color;\n"@ + c
    };
    if seq_contains(c1, "@define-color text_color"@) {
        c1
    } else {
        "@define-color text_color @window_fg_color;\n"@ + c1
    }
}

/// The stylesheet: the colours, then the rules with the window width, the search
/// font size and the title font size filled in.
pub open spec fn stylesheet(colors: Seq<char>, search_font_size: int, title_font_size: int, window_width: int) -> Seq<char> {
    colors + CSS_BEFORE_WIDTH@ + int_decimal(window_width) + CSS_BEFORE_SEARCH_SIZE@ + int_decimal(
        search_font_size,
    ) + CSS_BEFORE_TITLE_SIZE@ + int_decimal(title_font_size) + CSS_AFTER_TITLE_SIZE@
}

/// Whether `theme` names a built-in theme; any other name is read from the
/// user's theme files.
pub fn is_builtin_theme(theme: &str) -> (r: bool)
    ensures
        r == (builtin_colors(theme@, true) is Some),
{
    str_eq(theme, "tokyonight") || str_eq(theme, "dracula") || str_eq(theme, "catppuccin")
        || str_eq(theme, "gruvbox") || str_eq(theme, "jellybeans") || str_eq(theme, "min")
}

/// Whether the colour scheme `color_scheme` is dark, `system_dark` being the
/// desktop's preference.
pub fn is_dark_scheme(color_scheme: &str, system_dark: bool) -> (r: bool)
    ensures
        r == scheme_is_dark(color_scheme@, system_dark),
{
    if str_eq(color_scheme, "default") {
        system_dark
    } else {
        str_eq(color_scheme, "dark")
    }
}

/// The colour definitions of a custom theme, `None` when it misses a colour.
pub fn custom_theme_css(c: &ThemeColors) -> (r: Option<String>)
    ensures
        match r {
            Some(t) => custom_colors_text(*c) == Some(t@),
            None => custom_colors_text(*c) is None,
        },
{
    match (&c.window_bg_color, &c.window_fg_color, &c.accent_bg_color, &c.accent_fg_color) {
        (Some(wb), Some(wf), Some(ab), Some(af)) => match (
            &c.popover_bg_color,
            &c.popover_fg_color,
            &c.text_color,
        ) {
            (Some(pb), Some(pf), Some(tc)) => {
                let eb: &String = match &c.entry_bg_color {
                    Some(e) => e,
                    None => pb,
                };
                let mut s = String::from_str("\n@define-color window_bg_color ");
                s.append(wb.as_str());
                s.append(";\n@define-color window_fg_color ");
                s.append(wf.as_str());
                s.append(";\n@define-color accent_bg_color ");
                s.append(ab.as_str());
                s.append(";\n@define-color accent_fg_color ");
                s.append(af.as_str());
                s.append(";\n@define-color popover_bg_color ");
                s.append(pb.as_str());
                s.append(";\n@define-color popover_fg_color ");
                s.append(pf.as_str());
                s.append(";\n@define-color entry_bg_color ");
                s.append(eb.as_str());
                s.append(";\n@define-color text_color ");
                s.append(tc.as_str());
                s.append(";\n");
                Some(s)
            },
            _ => None,
        },
        _ => None,
    }
}

/// The colour definitions of the theme `theme` under the colour scheme
/// `color_scheme`; `custom` is the parsed theme file for a theme that is not
/// built in, `None` when it cannot be read.
pub fn theme_colors(theme: &str, color_scheme: &str, system_dark: bool, custom: Option<&ThemeColors>) -> (r: String)
    ensures
        r@ == selected_colors(
            theme@,
            color_scheme@,
            system_dark,
            match custom {
                Some(tc) => Some(*tc),
                None => None,
            },
        ),
{
    if str_eq(theme, "tokyonight") {
        String::from_str(TOKYONIGHT_COLORS)
    } else if str_eq(theme, "dracula") {
        String::from_str(DRACULA_COLORS)
    } else if str_eq(theme, "catppuccin") {
        String::from_str(CATPPUCCIN_COLORS)
    } else if str_eq(theme, "gruvbox") {
        String::from_str(GRUVBOX_COLORS)
    } else if str_eq(theme, "jellybeans") {
        String::from_str(JELLYBEANS_COLORS)
    } else if str_eq(theme, "min") {
        if is_dark_scheme(color_scheme, system_dark) {
            String::from_str(MIN_DARK_COLORS)
        } else {
            String::from_str(MIN_LIGHT_COLORS)
        }
    } else {
        match custom {
            Some(tc) => match custom_theme_css(tc) {
                Some(t) => t,
                None => String::new(),
            },
            None => String::new(),
        }
    }
}

/// The colours with the entry background and the text colour defined when they
/// are not.
pub fn complete_colors(colors: &str) -> (r: String)
    ensures
        r@ == with_default_colors(colors@),
{
    let c1: String = if str_contains(colors, "@define-color entry_bg_color") {
        String::from_str(colors)
    } else {
        let mut s = String::from_str("@define-color entry_bg_color @popover_bg_color;\n");
        s.append(colors);
        s
    };
    if str_contains(c1.as_str(), "@define-color text_color") {
        c1
    } else {
        let mut s = String::from_str("@define-color text_color @window_fg_color;\n");
        s.append(c1.as_str());
        s
    }
}

/// The launcher's stylesheet for the given font sizes, theme, colour scheme and
/// window width.
pub fn generate_css(
    search_font_size: i32,
    title_font_size: i32,
    theme: &str,
    color_scheme: &str,
    window_width: i32,
    system_dark: bool,
    custom: Option<&ThemeColors>,
) -> (r: String)
    ensures
        r@ == stylesheet(
            with_default_colors(
                selected_colors(
                    theme@,
                    color_scheme@,
                    system_dark,
                    match custom {
                        Some(tc) => Some(*tc),
                        None => None,
                    },
                ),
            ),
            search_font_size as int,
            title_font_size as int,
            window_width as int,
        ),
{
    let colors = theme_colors(theme, color_scheme, system_dark, custom);
    let full = complete_colors(colors.as_str());
    let mut out = crate::text::chars_of(full.as_str());
    push_str(&mut out, CSS_BEFORE_WIDTH);
    let w = i32_decimal_chars(window_width);
    push_chars(&mut out, &w);
    push_str(&mut out, CSS_BEFORE_SEARCH_SIZE);
    let s = i32_decimal_chars(search_font_size);
    push_chars(&mut out, &s);
    push_str(&mut out, CSS_BEFORE_TITLE_SIZE);
    let t = i32_decimal_chars(title_font_size);
    push_chars(&mut out, &t);
    push_str(&mut out, CSS_AFTER_TITLE_SIZE);
    string_from_chars(&out)
}

} // verus!
