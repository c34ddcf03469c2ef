//! Themes, colours, selections and settings.

use ianua::cell::indexed_to_rgb;
use ianua::config::{parse_hex, Config, ThemeCfg};
use ianua::grid::{char_width, Cell, Color, Selection, Theme};

#[test]
fn built_in_schemes_are_found_by_name() {
    for name in Theme::schemes() {
        assert!(Theme::by_name(name).is_some(), "{name}");
    }
    assert_eq!(Theme::by_name("dracula").unwrap().bg, [0x28, 0x2a, 0x36]);
    assert_eq!(Theme::by_name("nord").unwrap().fg, [0xd8, 0xde, 0xe9]);
    assert!(Theme::by_name("no such scheme").is_none());
    assert!(Theme::by_name("").is_none());
}

#[test]
fn scheme_names_ignore_case_and_separators() {
    let plain = Theme::by_name("tokyonight").unwrap();
    let fancy = Theme::by_name("Tokyo Night").unwrap();
    let dashed = Theme::by_name("TOKYO-night").unwrap();
    assert_eq!(plain.bg, fancy.bg);
    assert_eq!(plain.ansi, dashed.ansi);
    assert_eq!(
        Theme::by_name("Gruvbox_Dark").unwrap().fg,
        Theme::by_name("gruvbox").unwrap().fg
    );
}

#[test]
fn default_scheme_is_catppuccin() {
    let t = Theme::default();
    assert_eq!(t.fg, [0xcd, 0xd6, 0xf4]);
    assert_eq!(t.bg, [0x1e, 0x1e, 0x2e]);
    assert_eq!(t.fg, Theme::by_name("mocha").unwrap().fg);
}

#[test]
fn xterm_colours_by_index() {
    assert_eq!(indexed_to_rgb(0), [0, 0, 0]);
    assert_eq!(indexed_to_rgb(9), [255, 0, 0]);
    assert_eq!(indexed_to_rgb(16), [0, 0, 0]);
    assert_eq!(indexed_to_rgb(196), [255, 0, 0]);
    assert_eq!(indexed_to_rgb(110), [135, 175, 215]);
    assert_eq!(indexed_to_rgb(231), [255, 255, 255]);
    assert_eq!(indexed_to_rgb(232), [8, 8, 8]);
    assert_eq!(indexed_to_rgb(255), [238, 238, 238]);
}

#[test]
fn the_theme_has_the_base_colours() {
    let t = Theme::by_name("dracula").unwrap();
    assert_eq!(Color::Indexed(1).to_rgb(&t, true), t.ansi[1]);
    assert_eq!(Color::Indexed(15).to_rgb(&t, false), t.ansi[15]);
    assert_eq!(Color::Default.to_rgb(&t, true), t.fg);
    assert_eq!(Color::Default.to_rgb(&t, false), t.bg);
    assert_eq!(Color::Rgb(1, 2, 3).to_rgb(&t, true), [1, 2, 3]);
    assert_eq!(Color::Indexed(196).to_rgb(&t, true), [255, 0, 0]);
}

#[test]
fn bold_brightens_and_dim_halves() {
    let t = Theme::default();
    let mut cell = Cell::default();
    cell.fg = Color::Indexed(1);
    cell.bold = true;
    assert_eq!(cell.effective_colors(&t, false).0, t.ansi[9]);
    cell.fg = Color::Indexed(8);
    assert_eq!(cell.effective_colors(&t, false).0, t.ansi[8]);
    cell.bold = false;
    cell.dim = true;
    cell.fg = Color::Rgb(100, 51, 1);
    assert_eq!(cell.effective_colors(&t, false).0, [50, 25, 0]);
}

#[test]
fn hidden_and_reverse_colours() {
    let t = Theme::default();
    let mut cell = Cell::default();
    assert_eq!(cell.effective_colors(&t, false), (t.fg, t.bg));
    assert_eq!(cell.effective_colors(&t, true), (t.bg, t.fg));
    cell.inverse = true;
    assert_eq!(cell.effective_colors(&t, false), (t.bg, t.fg));
    assert_eq!(cell.effective_colors(&t, true), (t.fg, t.bg));
    cell.hidden = true;
    let (fg, bg) = cell.effective_colors(&t, false);
    assert_eq!(fg, bg);
}

#[test]
fn columns_of_characters() {
    assert_eq!(char_width('a'), 1);
    assert_eq!(char_width('\u{e9}'), 1);
    assert_eq!(char_width('\u{4e2d}'), 2);
    assert_eq!(char_width('\u{1f600}'), 2);
    assert_eq!(char_width('\u{301}'), 0);
    assert_eq!(char_width('\u{7}'), 0);
    assert_eq!(char_width('\u{17d8}'), 1);
}

#[test]
fn selection_reads_line_by_line() {
    let sel = Selection { anchor: (5, 3), head: (2, 1) };
    assert_eq!(sel.ordered(), ((2, 1), (5, 3)));
    assert!(sel.contains(2, 1));
    assert!(sel.contains(5, 3));
    assert!(sel.contains(0, 2));
    assert!(sel.contains(1000, 2));
    assert!(!sel.contains(1, 1));
    assert!(!sel.contains(6, 3));
    assert!(!sel.contains(3, 0));
    assert!(!sel.contains(3, 4));
    assert!(!sel.is_empty());
    assert!(Selection { anchor: (1, 1), head: (1, 1) }.is_empty());
}

#[test]
fn colours_in_hexadecimal() {
    assert_eq!(parse_hex("#ff8000"), Some([255, 128, 0]));
    assert_eq!(parse_hex("FF8000"), Some([255, 128, 0]));
    assert_eq!(parse_hex("+a0102"), Some([10, 1, 2]));
    assert_eq!(parse_hex("##ff800"), None);
    assert_eq!(parse_hex("#ff80"), None);
    assert_eq!(parse_hex("#ff80000"), None);
    assert_eq!(parse_hex("#gg8000"), None);
    assert_eq!(parse_hex("-10000"), None);
    assert_eq!(parse_hex("a\u{e9}bcd"), None);
    assert_eq!(parse_hex("\u{e9}\u{e9}\u{e9}"), None);
    assert_eq!(parse_hex(""), None);
}

#[test]
fn settings_override_the_scheme() {
    let mut cfg = Config::default();
    assert_eq!(cfg.theme().fg, Theme::default().fg);
    cfg.theme = ThemeCfg {
        scheme: Some("nord".to_string()),
        fg: Some("#010203".to_string()),
        bg: Some("not a colour".to_string()),
        cursor: None,
        selection: Some("040506".to_string()),
        palette: Some(vec!["#0a0b0c".to_string(), "bad".to_string()]),
    };
    let nord = Theme::by_name("nord").unwrap();
    let t = cfg.theme();
    assert_eq!(t.fg, [1, 2, 3]);
    assert_eq!(t.bg, nord.bg);
    assert_eq!(t.cursor, nord.cursor);
    assert_eq!(t.selection, [4, 5, 6]);
    assert_eq!(t.ansi[0], [10, 11, 12]);
    assert_eq!(t.ansi[1], nord.ansi[1]);
    assert_eq!(t.ansi[15], nord.ansi[15]);
}

#[test]
fn an_unknown_scheme_falls_back_and_a_long_palette_is_cut() {
    let mut cfg = Config::default();
    cfg.theme.scheme = Some("unheard of".to_string());
    cfg.theme.palette = Some(vec!["#111213".to_string(); 20]);
    let t = cfg.theme();
    assert_eq!(t.fg, Theme::default().fg);
    assert_eq!(t.ansi[15], [0x11, 0x12, 0x13]);
}
