//! What holds of the screen, on examples.

use ianua::codec::decode_either;
use ianua::decode::{Action, Decoder};
use ianua::grid::{Cell, Color, Grid, MouseProto, TermEvent};
use ianua::parser::{feed, Performer};

fn terminal(cols: usize, rows: usize, bytes: &[u8]) -> Grid {
    let mut g = Grid::new(cols, rows);
    let mut d = Decoder::new();
    feed(&mut g, &mut d, bytes);
    g
}

fn line(g: &Grid, row: usize) -> String {
    let end = g.cols - 1;
    g.text_in_span((0, row), (end, row))
}

#[test]
fn sequences_may_be_cut_anywhere() {
    let mut g = Grid::new(10, 2);
    let mut d = Decoder::new();
    for piece in [&b"\x1b"[..], b"[3", b"1", b"mA\xe4", b"\xb8\xad", b"\x1b]0;ti", b"tle\x07"] {
        feed(&mut g, &mut d, piece);
    }
    assert_eq!(g.cell(0, 0).c, 'A');
    assert_eq!(g.cell(0, 0).fg, Color::Indexed(1));
    assert_eq!(g.cell(1, 0).c, '\u{4e2d}');
    let events = g.drain_events();
    assert!(matches!(&events[..], [TermEvent::Title(t)] if t == "title"));
    assert!(g.drain_events().is_empty());
}

#[test]
fn decoder_reports_parameters_and_text() {
    let mut d = Decoder::new();
    let actions = d.decode(b"a\x1b[?25;4:3h\n");
    assert_eq!(actions.len(), 3);
    assert!(matches!(&actions[0], Action::Print('a')));
    match &actions[1] {
        Action::Csi { params, intermediates, action } => {
            assert_eq!(params, &vec![vec![25u16], vec![4, 3]]);
            assert_eq!(intermediates, &vec![0x3f]);
            assert_eq!(*action, 'h');
        }
        _ => panic!("a control sequence"),
    }
    assert!(matches!(&actions[2], Action::Execute(0x0a)));
}

#[test]
fn base64_with_and_without_padding() {
    assert_eq!(decode_either(b"aGk="), Some(b"hi".to_vec()));
    assert_eq!(decode_either(b"aGk"), Some(b"hi".to_vec()));
    assert_eq!(decode_either(b"aGkh"), Some(b"hi!".to_vec()));
    assert_eq!(decode_either(b""), Some(Vec::new()));
    assert_eq!(decode_either(b"a"), None);
    assert_eq!(decode_either(b"a b="), None);
}

#[test]
fn clipboard_questions_and_bad_base64_are_dropped() {
    let mut g = terminal(10, 2, b"\x1b]52;c;?\x07\x1b]52;c;!!\x07\x1b]52;c\x07");
    assert!(g.drain_events().is_empty());
    let mut g = terminal(10, 2, b"\x1b]52;c;aGk\x07");
    assert!(matches!(&g.drain_events()[..], [TermEvent::SetClipboard(t)] if t == "hi"));
    let mut p = Performer::new(&mut g);
    p.set_clipboard(None);
    p.set_clipboard(Some(vec![0x6f, 0x6b]));
    assert!(matches!(&g.drain_events()[..], [TermEvent::SetClipboard(t)] if t == "ok"));
}

#[test]
fn titles_that_are_no_utf8_are_mended() {
    let mut g = terminal(10, 2, b"\x1b]2;a\xffb\x07");
    assert!(matches!(&g.drain_events()[..], [TermEvent::Title(t)] if t == "a\u{fffd}b"));
}

#[test]
fn notifications_and_directories() {
    let mut g = terminal(10, 2, b"\x1b]9;done\x07\x1b]7;file:///tmp\x07\x1b]777;other;a;b\x07\x1b]777;notify\x07");
    let events = g.drain_events();
    assert_eq!(events.len(), 3);
    assert!(matches!(&events[0], TermEvent::Notify(t, b) if t == "term" && b == "done"));
    assert!(matches!(&events[1], TermEvent::Cwd(u) if u == "file:///tmp"));
    assert!(matches!(&events[2], TermEvent::Notify(t, b) if t.is_empty() && b.is_empty()));
}

#[test]
fn exit_codes_of_commands() {
    let codes = |bytes: &[u8]| {
        let mut g = terminal(10, 2, bytes);
        g.drain_events()
    };
    assert!(matches!(&codes(b"\x1b]133;D\x07")[..], [TermEvent::CommandEnd(None)]));
    assert!(matches!(&codes(b"\x1b]133;D; 7 \x07")[..], [TermEvent::CommandEnd(Some(7))]));
    assert!(matches!(&codes(b"\x1b]133;D;-12\x07")[..], [TermEvent::CommandEnd(Some(-12))]));
    assert!(matches!(&codes(b"\x1b]133;D;+0\x07")[..], [TermEvent::CommandEnd(Some(0))]));
    assert!(matches!(
        &codes(b"\x1b]133;D;2147483647\x07")[..],
        [TermEvent::CommandEnd(Some(2147483647))]
    ));
    assert!(matches!(&codes(b"\x1b]133;D;2147483648\x07")[..], [TermEvent::CommandEnd(None)]));
    assert!(matches!(
        &codes(b"\x1b]133;D;-2147483648\x07")[..],
        [TermEvent::CommandEnd(Some(-2147483648))]
    ));
    assert!(matches!(&codes(b"\x1b]133;D;00000000000012\x07")[..], [TermEvent::CommandEnd(Some(12))]));
    assert!(matches!(&codes(b"\x1b]133;D;1x\x07")[..], [TermEvent::CommandEnd(None)]));
    assert!(matches!(&codes(b"\x1b]133;D;-\x07")[..], [TermEvent::CommandEnd(None)]));
    assert!(matches!(&codes(b"\x1b]133;D;\xff\x07")[..], [TermEvent::CommandEnd(None)]));
    assert!(codes(b"\x1b]133;A\x07").is_empty());
    assert!(codes(b"\x1b]133\x07").is_empty());
}

#[test]
fn device_status_is_answered() {
    let mut g = terminal(10, 2, b"\x1b[5n\x1b[7n");
    assert!(matches!(&g.drain_events()[..], [TermEvent::Reply(b)] if b == b"\x1b[0n"));
}

#[test]
fn alternate_screen_restores_the_main_screen() {
    let mut g = Grid::new(6, 3);
    let mut d = Decoder::new();
    feed(&mut g, &mut d, b"\x1b[1;32mone\r\ntwo\x1b[2;2H");
    feed(&mut g, &mut d, b"\x1b[?1049h\x1b[0mfull\r\n\n\n\n\nscreen\x1b[2J\x1b[?7l");
    assert!(g.on_alt());
    feed(&mut g, &mut d, b"\x1b[?1049lX");
    assert!(!g.on_alt());
    assert_eq!(line(&g, 0), "one");
    assert_eq!(line(&g, 1), "tXo");
    assert!(g.cell(1, 1).bold);
    assert_eq!(g.cell(1, 1).fg, Color::Indexed(2));
    g.scroll_view_up(10);
    assert_eq!(g.view_offset, 0);
}

#[test]
fn saved_cursor_comes_back_with_its_pen() {
    let g = terminal(8, 3, b"\x1b[2;3H\x1b[31m\x1b7\x1b[0m\x1b[Habc\x1b8Z");
    assert_eq!(g.cell(2, 1).c, 'Z');
    assert_eq!(g.cell(2, 1).fg, Color::Indexed(1));
    assert_eq!(g.cell(0, 0).fg, Color::Default);
}

#[test]
fn tmux_wrapping_is_undone() {
    let mut g = Grid::new(4, 1);
    g.dcs_start('t');
    for b in b"mux;a\x1b\x1b]b\x1b\x1b" {
        g.dcs_put(*b);
    }
    assert_eq!(g.dcs_end(), Some(b"a\x1b]b\x1b".to_vec()));
    g.dcs_start('t');
    for b in b"mux:a" {
        g.dcs_put(*b);
    }
    assert_eq!(g.dcs_end(), None);
    assert_eq!(g.dcs_end(), None);
}

#[test]
fn wrapped_output_is_carried_out_where_it_ends() {
    let mut g = Grid::new(8, 2);
    let mut p = Performer::new(&mut g);
    p.print('a');
    p.hook('t');
    for b in b"mux;\x1b\x1b[31mred\x1b\x1b[0m" {
        p.put(*b);
    }
    p.unhook();
    p.print('b');
    assert_eq!(line(&g, 0), "aredb");
    assert_eq!(g.cell(1, 0).fg, Color::Indexed(1));
    assert_eq!(g.cell(4, 0).fg, Color::Default);
}

#[test]
fn a_long_device_control_string_is_cut() {
    let mut g = Grid::new(4, 1);
    g.dcs_start('t');
    for b in b"mux;" {
        g.dcs_put(*b);
    }
    for _ in 0..(1usize << 20) + 10 {
        g.dcs_put(0x61);
    }
    assert_eq!(g.dcs_end().unwrap().len(), (1usize << 20) - 4);
}

#[test]
fn links_are_found_and_reused() {
    let mut g = Grid::new(4, 1);
    assert_eq!(g.register_link(""), 0);
    let a = g.register_link("https://a");
    let b = g.register_link("https://b");
    assert_eq!((a, b), (1, 2));
    assert_eq!(g.register_link("https://a"), a);
    assert_eq!(g.link_uri(a), Some("https://a"));
    assert_eq!(g.link_uri(b), Some("https://b"));
    assert_eq!(g.link_uri(0), None);
    assert_eq!(g.link_uri(3), None);
    g.set_link(b);
    g.print('x');
    g.set_link(0);
    g.print('y');
    assert_eq!(g.link_at(0, 0).as_deref(), Some("https://b"));
    assert_eq!(g.link_at(1, 0), None);
}

#[test]
fn history_keeps_the_latest_lines() {
    let mut g = Grid::new(3, 2);
    g.set_scrollback_max(2);
    let mut d = Decoder::new();
    feed(&mut g, &mut d, b"1\r\n2\r\n3\r\n4\r\n5");
    g.scroll_view_up(100);
    assert_eq!(g.view_offset, 2);
    assert_eq!(g.visible_cell(0, 0).c, '2');
    assert_eq!(g.visible_cell(0, 1).c, '3');
    g.scroll_view_down(1);
    assert_eq!(g.visible_cell(0, 0).c, '3');
    assert_eq!(g.visible_cell(0, 1).c, '4');
    g.set_scrollback_max(0);
    g.scroll_view_up(100);
    assert_eq!(g.view_offset, 1);
}

#[test]
fn scrolled_back_text_can_be_copied() {
    let mut g = Grid::new(5, 2);
    let mut d = Decoder::new();
    feed(&mut g, &mut d, b"one\r\ntwo\r\nsix");
    g.scroll_view_up(1);
    assert_eq!(g.text_in_span((0, 0), (4, 1)), "one\ntwo");
    assert_eq!(g.text_in_span((4, 1), (0, 0)), "one\ntwo");
    assert_eq!(g.text_in_span((1, 0), (1, 1)), "ne\ntw");
    assert_eq!(g.text_in_span((1, 0), (usize::MAX, 0)), "ne");
    assert_eq!(g.text_in_span((7, 0), (7, 0)), "");
}

#[test]
fn wide_characters_are_copied_once() {
    let g = terminal(8, 1, "a\u{4e2d}b".as_bytes());
    assert_eq!(line(&g, 0), "a\u{4e2d}b");
}

#[test]
fn wide_character_in_the_last_column() {
    let g = terminal(3, 2, "ab\u{4e2d}".as_bytes());
    assert_eq!(line(&g, 0), "ab");
    assert_eq!(g.cell(0, 1).c, '\u{4e2d}');
    let g = terminal(3, 2, "\u{1b}[?7lab\u{4e2d}c".as_bytes());
    assert_eq!(line(&g, 0), "abc");
    let g = terminal(1, 2, "\u{4e2d}".as_bytes());
    assert_eq!(g.cell(0, 1).c, '\u{4e2d}');
}

#[test]
fn overwriting_the_left_half_blanks_the_right() {
    let mut g = terminal(6, 1, "\u{4e2d}".as_bytes());
    g.move_to(0, 0);
    g.print('x');
    assert_eq!(g.cell(0, 0).c, 'x');
    assert_eq!(g.cell(1, 0), Cell::default());
}

#[test]
fn without_autowrap_the_last_column_is_overwritten() {
    let g = terminal(3, 2, b"\x1b[?7labcd");
    assert_eq!(line(&g, 0), "abd");
    assert_eq!(line(&g, 1), "");
}

#[test]
fn tabs_stop_at_every_eighth_column() {
    let g = terminal(20, 1, b"a\tb\tc\td");
    assert_eq!(g.cell(8, 0).c, 'b');
    assert_eq!(g.cell(16, 0).c, 'c');
    assert_eq!(g.cell(19, 0).c, 'd');
}

#[test]
fn erasing_uses_the_colours_of_the_pen() {
    let g = terminal(4, 2, b"abcd\x1b[41;1m\x1b[2;1H\x1b[1J");
    assert_eq!(g.cell(0, 0).c, ' ');
    assert_eq!(g.cell(0, 0).bg, Color::Indexed(1));
    assert!(!g.cell(0, 0).bold);
    assert_eq!(g.cell(0, 1).bg, Color::Indexed(1));
    assert_eq!(g.cell(1, 1).bg, Color::Default);
}

#[test]
fn characters_are_inserted_deleted_and_erased() {
    let g = terminal(6, 1, b"abcdef\x1b[1;3H\x1b[2P");
    assert_eq!(line(&g, 0), "abef");
    let g = terminal(6, 1, b"abcdef\x1b[1;3H\x1b[2@");
    assert_eq!(line(&g, 0), "ab  cd");
    let g = terminal(6, 1, b"abcdef\x1b[1;3H\x1b[2X");
    assert_eq!(line(&g, 0), "ab  ef");
    let g = terminal(6, 1, b"abcdef\x1b[1;3H\x1b[1K");
    assert_eq!(line(&g, 0), "   def");
}

#[test]
fn scrolling_up_and_down_by_sequence() {
    let g = terminal(3, 3, b"1\r\n2\r\n3\x1b[S");
    assert_eq!((line(&g, 0), line(&g, 2)), ("2".to_string(), String::new()));
    let g = terminal(3, 3, b"1\r\n2\r\n3\x1b[2T");
    assert_eq!((line(&g, 0), line(&g, 2)), (String::new(), "1".to_string()));
}

#[test]
fn resize_keeps_the_text_and_clamps_the_cursor() {
    let mut g = terminal(6, 3, b"abcdef\r\nghi");
    g.resize(3, 1);
    assert_eq!(line(&g, 0), "abc");
    assert_eq!((g.cx, g.cy), (2, 0));
    g.resize(5, 2);
    assert_eq!(line(&g, 0), "abc");
    assert_eq!(line(&g, 1), "");
    g.resize(0, 0);
    assert_eq!((g.cols, g.rows), (1, 1));
}

#[test]
fn reset_keeps_the_history() {
    let mut g = terminal(3, 2, b"1\r\n2\r\n3\x1b[?1049h\x1bc");
    assert!(!g.on_alt());
    assert_eq!(line(&g, 0), "");
    g.scroll_view_up(1);
    assert_eq!(g.visible_cell(0, 0).c, '1');
}

#[test]
fn erasing_again_changes_nothing() {
    let once = terminal(4, 2, b"abcd\r\nefgh\x1b[1;2H\x1b[J");
    let twice = terminal(4, 2, b"abcd\r\nefgh\x1b[1;2H\x1b[J\x1b[J");
    for row in 0..2 {
        for col in 0..4 {
            assert_eq!(once.cell(col, row), twice.cell(col, row));
        }
    }
    assert_eq!(line(&once, 0), "a");
}

#[test]
fn colours_take_the_low_eight_bits() {
    let g = terminal(4, 1, b"\x1b[38;5;257mA\x1b[48:2:256:513:3mB\x1b[38;2;1mC");
    assert_eq!(g.cell(0, 0).fg, Color::Indexed(1));
    assert_eq!(g.cell(1, 0).bg, Color::Rgb(0, 1, 3));
    assert_eq!(g.cell(2, 0).fg, Color::Indexed(1));
}

#[test]
fn cursor_moves_stop_at_the_region() {
    let g = terminal(5, 9, b"\x1b[3;6r\x1b[4;1H\x1b[99A");
    assert_eq!(g.cy, 2);
    let g = terminal(5, 9, b"\x1b[3;6r\x1b[4;4H\x1b[99E");
    assert_eq!((g.cx, g.cy), (0, 5));
    let g = terminal(5, 9, b"\x1b[9;1H\x1b[2F\x1b[3C\x1b[D");
    assert_eq!((g.cx, g.cy), (2, 6));
}

#[test]
fn a_cursor_outside_the_region_is_not_held_by_its_top() {
    let mut g = Grid::new(5, 10);
    g.set_scroll_region(2, 5);
    g.move_to(0, 8);
    g.move_up(100);
    assert_eq!(g.cy, 0);
    g.move_to(0, 1);
    g.move_up(100);
    assert_eq!(g.cy, 0);
    g.move_to(0, 8);
    g.move_down(100);
    assert_eq!(g.cy, 9);
    g.move_to(0, 5);
    g.move_up(100);
    assert_eq!(g.cy, 2);
}

#[test]
fn a_saved_cursor_comes_back_to_a_smaller_screen() {
    let mut g = Grid::new(10, 6);
    g.move_to(8, 4);
    g.save_cursor();
    g.move_to(0, 0);
    g.resize(5, 6);
    g.restore_cursor();
    assert_eq!((g.cx, g.cy), (4, 4));
}

#[test]
fn a_private_mode_changes_nothing_else() {
    let mut g = terminal(6, 2, b"ab\x1b[1m");
    let mut d = Decoder::new();
    let before = g.modes();
    feed(&mut g, &mut d, b"\x1b[?2004h");
    assert!(g.modes().bracketed_paste);
    assert_eq!(line(&g, 0), "ab");
    assert_eq!((g.cx, g.cy), (2, 0));
    feed(&mut g, &mut d, b"\x1b[?2004l");
    assert!(g.modes() == before);
    assert!(g.drain_events().is_empty());
}

#[test]
fn printed_text_can_be_taken() {
    let g = terminal(12, 1, "x\u{4e2d}e\u{301}y ".as_bytes());
    assert_eq!(g.cell(1, 0).c, '\u{4e2d}');
    assert!(g.cell(2, 0).wide_spacer);
    assert_eq!(g.cell(3, 0).c, 'e');
    assert_eq!(g.cell(4, 0).c, 'y');
    assert_eq!(g.text_in_span((0, 0), (5, 0)), "x\u{4e2d}ey");
}

#[test]
fn clipboard_is_set_through_tmux() {
    let mut g = terminal(12, 1, b"\x1bPtmux;\x1b\x1b]52;c;aGVsbG8=\x07\x1b\\");
    let events = g.drain_events();
    assert!(matches!(&events[..], [TermEvent::SetClipboard(t)] if t == "hello"));
}

#[test]
fn a_full_line_breaks_in_the_last_row() {
    let g = terminal(4, 5, b"\x1b[2;3r\x1b[3;1Habcde");
    assert_eq!(line(&g, 1), "abcd");
    assert_eq!(line(&g, 2), "e");
    assert_eq!(g.cursor(), (1, 2));
    let g = terminal(4, 5, b"\x1b[2;3r\x1b[5;1Habcde");
    assert_eq!(line(&g, 4), "ebcd");
    let mut g = terminal(4, 1, b"abcde");
    assert_eq!(line(&g, 0), "e");
    g.scroll_view_up(1);
    assert_eq!(g.view_offset(), 1);
    assert_eq!(line(&g, 0), "abcd");
}

#[test]
fn a_wide_character_blanks_the_halves_on_both_sides() {
    let g = terminal(8, 1, "\u{4e2d}\u{6587}\x1b[1;2H\u{56fd}".as_bytes());
    assert_eq!(g.cell(0, 0).c, ' ');
    assert_eq!(g.cell(1, 0).c, '\u{56fd}');
    assert!(g.cell(2, 0).wide_spacer);
    assert_eq!(g.cell(3, 0).c, ' ');
    assert!(!g.cell(3, 0).wide_spacer);
}

#[test]
fn private_modes_are_set_one_after_the_other() {
    let mut g = Grid::new(4, 2);
    Performer::new(&mut g).set_private_modes(&vec![vec![1002], vec![1006], vec![7777]], true);
    assert_eq!(g.modes().mouse_proto, MouseProto::ButtonEvent);
    assert!(g.modes().mouse_sgr);
    Performer::new(&mut g).set_private_modes(&vec![vec![1002]], false);
    assert_eq!(g.modes().mouse_proto, MouseProto::Off);
    assert!(g.modes().mouse_sgr);
}
