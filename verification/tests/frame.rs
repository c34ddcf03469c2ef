//! What a frame shows.

use ianua::decode::Decoder;
use ianua::grid::{Grid, Selection, Theme};
use ianua::parser::feed;
use ianua::render::{
    build_row_runs, cursor_col, pref_value, row_backgrounds, row_cells, row_underlines,
    status_color, truncate, RowKey, SidebarItem, Span, Tone,
};
use ianua::window::WinStatus;

fn screen(bytes: &[u8]) -> Grid {
    let mut g = Grid::new(8, 2);
    let mut d = Decoder::new();
    feed(&mut g, &mut d, bytes);
    g
}

#[test]
fn backgrounds_are_painted_in_spans() {
    let theme = Theme::default();
    let g = screen(b"\x1b[41mab\x1b[0mc\x1b[42md\x1b[0m");
    let spans = row_backgrounds(&g, None, &theme, 0);
    assert_eq!(spans, vec![
        Span { start: 0, end: 2, color: theme.ansi[1] },
        Span { start: 3, end: 4, color: theme.ansi[2] },
        Span { start: 4, end: 5, color: theme.cursor },
    ]);
    let sel = Selection { anchor: (2, 0), head: (2, 0) };
    let spans = row_backgrounds(&g, Some(sel), &theme, 0);
    assert_eq!(spans[1], Span { start: 2, end: 3, color: theme.selection });
    assert!(row_backgrounds(&g, None, &theme, 1).is_empty());
}

#[test]
fn the_cursor_is_drawn_on_the_live_screen_only() {
    let mut g = screen(b"a\r\nb\r\nc");
    assert_eq!(cursor_col(&g, 1), Some(1));
    assert_eq!(cursor_col(&g, 0), None);
    g.scroll_view_up(1);
    assert_eq!(cursor_col(&g, 1), None);
    assert_eq!(cursor_col(&screen(b"\x1b[?25l"), 0), None);
}

#[test]
fn underlines_are_as_long_as_the_characters() {
    let theme = Theme::default();
    let g = screen("\u{1b}[4ma\u{4e2d}\u{1b}[0mb".as_bytes());
    let cells = row_cells(&g, 0);
    assert_eq!(row_underlines(&cells, Some(0), &theme), vec![
        Span { start: 0, end: 1, color: theme.bg },
        Span { start: 1, end: 3, color: theme.fg },
    ]);
}

#[test]
fn text_is_drawn_in_runs() {
    let theme = Theme::default();
    let g = screen("ab\u{1b}[1mc\u{1b}[0m \u{4e2d}d".as_bytes());
    let cells = row_cells(&g, 0);
    let runs = build_row_runs(&cells, None, &theme);
    let said: Vec<(usize, usize, &str, bool)> =
        runs.iter().map(|r| (r.start, r.end, r.text.as_str(), r.bold)).collect();
    assert_eq!(said, vec![
        (0, 2, "ab", false),
        (2, 3, "c", true),
        (4, 6, "\u{4e2d}", false),
        (6, 8, "d ", false),
    ]);
    let runs = build_row_runs(&cells, Some(1), &theme);
    assert_eq!((runs[0].text.as_str(), runs[1].text.as_str()), ("a", "b"));
    assert_eq!(runs[1].color, theme.bg);
    assert!(build_row_runs(&row_cells(&g, 1), None, &theme).is_empty());
}

#[test]
fn rows_are_drawn_anew_where_they_have_changed() {
    let g = screen(b"ab");
    let key = RowKey { cells: row_cells(&g, 0), cursor: Some(2) };
    assert!(!key.is_stale(&row_cells(&g, 0), Some(2)));
    assert!(key.is_stale(&row_cells(&g, 0), Some(1)));
    assert!(key.is_stale(&row_cells(&g, 0), None));
    assert!(key.is_stale(&row_cells(&g, 1), Some(2)));
    assert!(key.is_stale(&Vec::new(), Some(2)));
}

#[test]
fn labels_are_cut() {
    assert_eq!(truncate("hello", 5), "hello");
    assert_eq!(truncate("hello", 4), "hel\u{2026}");
    assert_eq!(truncate("hello", 1), "\u{2026}");
    assert_eq!(truncate("hello", 0), "\u{2026}");
    assert_eq!(truncate("", 0), "");
    assert_eq!(pref_value("15"), "\u{25c0} 15 \u{25b6}");
}

#[test]
fn rows_of_the_sidebar_have_colours() {
    assert_eq!(status_color(WinStatus::Idle, false), [0xa6, 0xe3, 0xa1]);
    assert_eq!(status_color(WinStatus::Running, false), [0xf9, 0xe2, 0xaf]);
    assert_eq!(status_color(WinStatus::Failed, false), [0xf3, 0x8b, 0xa8]);
    assert_eq!(status_color(WinStatus::Idle, true), [0xf3, 0x8b, 0xa8]);
    let mut item = SidebarItem {
        label: String::new(),
        is_host: true,
        status: WinStatus::Idle,
        activity: false,
        alerted: false,
        active: true,
    };
    assert_eq!(item.tone(), Tone::Host);
    item.is_host = false;
    assert_eq!(item.tone(), Tone::Bright);
    item.active = false;
    assert_eq!(item.tone(), Tone::Dim);
    item.activity = true;
    assert_eq!(item.tone(), Tone::Bright);
}
