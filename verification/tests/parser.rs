//! Output of an application, carried out on a screen.

use ianua::decode::Decoder;
use ianua::grid::{Color, Grid, MouseProto, TermEvent};
use ianua::parser::Performer;

fn feed(g: &mut Grid, bytes: &[u8]) {
    let mut decoder = Decoder::new();
    let mut performer = Performer::new(g);
    performer.advance(&mut decoder, bytes);
}

fn run(cols: usize, rows: usize, bytes: &[u8]) -> Grid {
    let mut g = Grid::new(cols, rows);
    feed(&mut g, bytes);
    g
}

fn row_text(g: &Grid, row: usize) -> String {
    (0..g.cols)
        .map(|c| g.cell(c, row).c)
        .collect::<String>()
        .trim_end()
        .to_string()
}

#[test]
fn sgr_truecolor_256_and_attrs() {
    let g = run(8, 1, b"\x1b[1;7;38;2;10;20;30;48;5;200mX");
    let cell = g.cell(0, 0);
    assert_eq!(cell.c, 'X');
    assert!(cell.bold);
    assert!(cell.inverse);
    assert_eq!(cell.fg, Color::Rgb(10, 20, 30));
    assert_eq!(cell.bg, Color::Indexed(200));
}

#[test]
fn sgr_reset_clears_attrs() {
    let g = run(8, 1, b"\x1b[1;31mA\x1b[0mB");
    assert!(g.cell(0, 0).bold);
    assert_eq!(g.cell(0, 0).fg, Color::Indexed(1));
    assert!(!g.cell(1, 0).bold);
    assert_eq!(g.cell(1, 0).fg, Color::Default);
}

#[test]
fn sgr_bright_and_bare_m_resets() {
    let g = run(8, 1, b"\x1b[92mA\x1b[mB");
    assert_eq!(g.cell(0, 0).fg, Color::Indexed(10));
    assert_eq!(g.cell(1, 0).fg, Color::Default);
}

#[test]
fn sgr_colon_subparam_truecolor() {
    let g = run(8, 1, b"\x1b[38:2::1:2:3mZ");
    assert_eq!(g.cell(0, 0).fg, Color::Rgb(1, 2, 3));
}

#[test]
fn cup_with_defaults_and_zero_as_one() {
    assert_eq!(cursor(run(20, 10, b"\x1b[5;10H")), (9, 4));
    assert_eq!(cursor(run(20, 10, b"\x1b[H")), (0, 0));
    assert_eq!(cursor(run(20, 10, b"\x1b[0;0H")), (0, 0));
}

#[test]
fn cha_and_vpa() {
    assert_eq!(run(20, 10, b"\x1b[5G").cx, 4);
    assert_eq!(run(20, 10, b"\x1b[3d").cy, 2);
}

fn cursor(g: Grid) -> (usize, usize) {
    (g.cx, g.cy)
}

#[test]
fn el_erase_to_end_of_line() {
    let g = run(10, 1, b"hello\x1b[3G\x1b[K");
    assert_eq!(row_text(&g, 0), "he");
}

#[test]
fn ed_clear_whole_screen() {
    let g = run(10, 2, b"ab\r\ncd\x1b[2J");
    assert_eq!(row_text(&g, 0), "");
    assert_eq!(row_text(&g, 1), "");
}

#[test]
fn private_modes_toggle() {
    let mut g = Grid::new(10, 4);
    feed(&mut g, b"\x1b[?25l");
    assert!(!g.modes.cursor_visible);
    feed(&mut g, b"\x1b[?25h");
    assert!(g.modes.cursor_visible);
    feed(&mut g, b"\x1b[?2004h");
    assert!(g.modes.bracketed_paste);
    feed(&mut g, b"\x1b[?7l");
    assert!(!g.modes.autowrap);
    feed(&mut g, b"\x1b[?1h");
    assert!(g.modes.app_cursor_keys);
    feed(&mut g, b"\x1b[?2026h");
    assert!(g.modes.sync_output);
    feed(&mut g, b"\x1b[?1004h");
    assert!(g.modes.focus_event);
    feed(&mut g, b"\x1b[?1000h");
    assert_eq!(g.modes.mouse_proto, MouseProto::Normal);
    feed(&mut g, b"\x1b[?1003h");
    assert_eq!(g.modes.mouse_proto, MouseProto::AnyEvent);
    feed(&mut g, b"\x1b[?1006h");
    assert!(g.modes.mouse_sgr);
}

#[test]
fn alt_screen_1049_enters_and_restores_cursor() {
    let mut g = Grid::new(10, 4);
    feed(&mut g, b"\x1b[3;5Hmain");
    assert_eq!(cursor_of(&g), (8, 2));
    feed(&mut g, b"\x1b[?1049h");
    assert!(g.on_alt());
    feed(&mut g, b"\x1b[?1049l");
    assert!(!g.on_alt());
    assert_eq!(cursor_of(&g), (8, 2));
    assert_eq!(row_text(&g, 2), "    main");
}

fn cursor_of(g: &Grid) -> (usize, usize) {
    (g.cx, g.cy)
}

#[test]
fn decstbm_confines_scroll_to_region() {
    let mut g = Grid::new(4, 5);
    feed(&mut g, b"r0\r\nr1\r\nr2\r\nr3\r\nr4");
    feed(&mut g, b"\x1b[2;4r");
    feed(&mut g, b"\x1b[4;1H");
    feed(&mut g, b"\x1bD");
    assert_eq!(row_text(&g, 0), "r0");
    assert_eq!(row_text(&g, 4), "r4");
    assert_eq!(row_text(&g, 1), "r2");
    assert_eq!(row_text(&g, 2), "r3");
}

#[test]
fn dcs_tmux_unwraps_inner_osc52() {
    let mut g = Grid::new(10, 2);
    feed(&mut g, b"\x1bPtmux;\x1b\x1b]52;c;aGk=\x07\x1b\\");
    let ev = g.drain_events();
    let clip = ev.iter().find_map(|e| match e {
        TermEvent::SetClipboard(s) => Some(s.clone()),
        _ => None,
    });
    assert_eq!(clip.as_deref(), Some("hi"), "events: {ev:?}");
}

#[test]
fn osc52_direct_sets_clipboard() {
    let mut g = Grid::new(10, 2);
    feed(&mut g, b"\x1b]52;c;aGk=\x07");
    let ev = g.drain_events();
    assert!(
        ev.iter()
            .any(|e| matches!(e, TermEvent::SetClipboard(s) if s == "hi")),
        "events: {ev:?}"
    );
}

#[test]
fn osc_title_notify_hyperlink() {
    let mut g = Grid::new(20, 2);
    feed(&mut g, b"\x1b]0;my title\x07");
    feed(&mut g, b"\x1b]8;;https://example.com\x07L\x1b]8;;\x07");
    feed(&mut g, b"\x1b]777;notify;Hed;Body\x07");
    let ev = g.drain_events();
    assert!(
        ev.iter()
            .any(|e| matches!(e, TermEvent::Title(t) if t == "my title")),
        "{ev:?}"
    );
    assert!(
        ev.iter()
            .any(|e| matches!(e, TermEvent::Notify(t, b) if t == "Hed" && b == "Body")),
        "{ev:?}"
    );
    assert_eq!(g.link_at(0, 0).as_deref(), Some("https://example.com"));
}

#[test]
fn osc133_prompt_and_command_marks() {
    let mut g = Grid::new(10, 2);
    feed(&mut g, b"\x1b]133;C\x07hi\x1b]133;D;0\x07");
    let ev = g.drain_events();
    assert!(ev.iter().any(|e| matches!(e, TermEvent::PromptStart)));
    assert!(ev
        .iter()
        .any(|e| matches!(e, TermEvent::CommandEnd(Some(0)))));
}

#[test]
fn bel_emits_event() {
    let mut g = Grid::new(4, 1);
    feed(&mut g, b"a\x07");
    assert!(g.drain_events().iter().any(|e| matches!(e, TermEvent::Bell)));
}

#[test]
fn da_and_dsr_replies() {
    let mut g = Grid::new(10, 6);
    feed(&mut g, b"\x1b[c");
    feed(&mut g, b"\x1b[>c");
    feed(&mut g, b"\x1b[5;3H\x1b[6n");
    let replies: Vec<Vec<u8>> = g
        .drain_events()
        .into_iter()
        .filter_map(|e| match e {
            TermEvent::Reply(b) => Some(b),
            _ => None,
        })
        .collect();
    assert!(replies.iter().any(|r| r == b"\x1b[?1;2c"), "{replies:?}");
    assert!(replies.iter().any(|r| r == b"\x1b[>0;95;0c"), "{replies:?}");
    assert!(replies.iter().any(|r| r == b"\x1b[5;3R"), "{replies:?}");
}

#[test]
fn esc_keypad_toggle() {
    let mut g = Grid::new(6, 3);
    feed(&mut g, b"\x1b="); // DECKPAM
    assert!(g.modes.app_keypad);
    feed(&mut g, b"\x1b>"); // DECKPNM
    assert!(!g.modes.app_keypad);
}

#[test]
fn ris_resets_modes_and_clears() {
    let mut g = Grid::new(6, 3);
    feed(&mut g, b"\x1b[?25l\x1b[1;31mtext\x1bc");
    assert!(g.modes.cursor_visible, "the reset sets the modes back");
    assert_eq!(row_text(&g, 0), "", "the reset clears the screen");
}

#[test]
fn wide_char_through_parser() {
    let g = run(6, 1, "中a".as_bytes());
    assert_eq!(g.cell(0, 0).c, '中');
    assert!(g.cell(1, 0).wide_spacer);
    assert_eq!(g.cell(2, 0).c, 'a');
}

#[test]
fn huge_and_zero_params_no_panic() {
    let mut g = Grid::new(8, 4);
    feed(&mut g, b"\x1b[999999999;999999999H");
    feed(&mut g, b"\x1b[999999999A\x1b[999999999B\x1b[999999999C\x1b[999999999D");
    feed(&mut g, b"\x1b[0J\x1b[3J\x1b[0K");
    feed(&mut g, b"\x1b[99999P\x1b[99999@\x1b[99999X\x1b[99999L\x1b[99999M");
    feed(&mut g, b"\x1b[0;0r");
    feed(&mut g, b"after");
    assert_eq!(g.cell(0, 0).c, 'a');
}

#[test]
fn sgr_nested_and_256_default_colors() {
    let g = run(10, 1, b"\x1b[31;42mA\x1b[39mB\x1b[49mC\x1b[38;5;196mD\x1b[48;5;17mE");
    assert_eq!(g.cell(0, 0).fg, Color::Indexed(1));
    assert_eq!(g.cell(0, 0).bg, Color::Indexed(2));
    assert_eq!(g.cell(1, 0).fg, Color::Default); // 39
    assert_eq!(g.cell(1, 0).bg, Color::Indexed(2));
    assert_eq!(g.cell(2, 0).bg, Color::Default); // 49
    assert_eq!(g.cell(3, 0).fg, Color::Indexed(196));
    assert_eq!(g.cell(4, 0).bg, Color::Indexed(17));
}

#[test]
fn cup_out_of_bounds_clamps() {
    let g = run(5, 3, b"\x1b[999;999H");
    assert_eq!((g.cx, g.cy), (4, 2));
}

#[test]
fn ed_3_scrollback_only_mode() {
    let mut g = Grid::new(4, 2);
    feed(&mut g, b"aaaa\r\nbbbb\r\ncccc\r\ndddd");
    // ED(3) clears the screen as ED(2) does.
    feed(&mut g, b"\x1b[3J");
    g.reset_view();
    assert_eq!(row_text(&g, 0), "");
    assert_eq!(row_text(&g, 1), "");
}

#[test]
fn il_dl_within_scroll_region_no_leak() {
    let mut g = Grid::new(4, 6);
    feed(&mut g, b"r0\r\nr1\r\nr2\r\nr3\r\nr4\r\nr5");
    feed(&mut g, b"\x1b[2;5r"); // region rows 1..=4
    feed(&mut g, b"\x1b[3;1H"); // cursor to row 2 (inside region)
    feed(&mut g, b"\x1b[2L"); // insert 2 lines
    assert_eq!(row_text(&g, 0), "r0"); // above region untouched
    assert_eq!(row_text(&g, 1), "r1");
    assert_eq!(row_text(&g, 2), "");
    assert_eq!(row_text(&g, 3), "");
    assert_eq!(row_text(&g, 5), "r5"); // below region untouched
    feed(&mut g, b"\x1b[3;1H\x1b[1M");
    assert_eq!(row_text(&g, 0), "r0");
    assert_eq!(row_text(&g, 1), "r1");
    assert_eq!(row_text(&g, 2), "");
    assert_eq!(row_text(&g, 3), "r2");
    assert_eq!(row_text(&g, 4), "");
    assert_eq!(row_text(&g, 5), "r5");
}

#[test]
fn osc8_reuse_id_then_close() {
    let mut g = Grid::new(20, 2);
    feed(&mut g, b"\x1b]8;;https://a.com\x07A\x1b]8;;https://b.com\x07B\x1b]8;;https://a.com\x07C\x1b]8;;\x07D");
    let id_a = g.cell(0, 0).link;
    let id_b = g.cell(1, 0).link;
    let id_c = g.cell(2, 0).link;
    let id_d = g.cell(3, 0).link;
    assert_ne!(id_a, 0);
    assert_ne!(id_b, 0);
    assert_eq!(id_a, id_c); // reuse
    assert_eq!(id_d, 0);    // closed
    assert_eq!(g.link_uri(id_a).unwrap(), "https://a.com");
    assert_eq!(g.link_uri(id_b).unwrap(), "https://b.com");
}

#[test]
fn ris_resets_saved_cursor_and_modes() {
    let mut g = Grid::new(10, 4);
    feed(&mut g, b"\x1b[?25l\x1b[1;31mtext\x1b7\x1bc");
    assert!(g.modes.cursor_visible);
    assert_eq!(row_text(&g, 0), "");
}

#[test]
fn scrollback_lines_drop_when_over_limit() {
    let mut g = Grid::new(4, 2);
    g.set_scrollback_max(3);
    for i in 0..10u8 {
        feed(&mut g, format!("{i}\r\n").as_bytes());
    }
    g.scroll_view_up(10);
    // Only last 3 lines retained in scrollback, plus currently visible rows.
    assert_eq!(g.visible_cell(0, 0).c, '6');
    assert_eq!(g.visible_cell(0, 1).c, '7');
    assert_eq!(g.visible_cell(0, 2).c, '8');
}

#[test]
fn mouse_sgr_report_format() {
    let mut g = Grid::new(80, 24);
    feed(&mut g, b"\x1b[?1002h\x1b[?1006h");
    assert_eq!(g.modes.mouse_proto, MouseProto::ButtonEvent);
    assert!(g.modes.mouse_sgr);
}

#[test]
fn incomplete_sequences_no_panic() {
    let mut g = Grid::new(8, 4);
    feed(&mut g, b"\x1b[3");
    feed(&mut g, b"\x1b]0;unterminated-osc");
    feed(&mut g, b"\x1bPtmux;partial");
    feed(&mut g, b"\x1b");
}
