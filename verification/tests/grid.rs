//! The screen, operation by operation.

use ianua::grid::Grid;

fn put(g: &mut Grid, s: &str) {
    for c in s.chars() {
        g.print(c);
    }
}
fn row_text(g: &Grid, row: usize) -> String {
    (0..g.cols)
        .map(|c| g.cell(c, row).c)
        .collect::<String>()
        .trim_end()
        .to_string()
}

#[test]
fn print_and_wrap() {
    let mut g = Grid::new(4, 3);
    put(&mut g, "abcdef");
    assert_eq!(row_text(&g, 0), "abcd");
    assert_eq!(row_text(&g, 1), "ef");
}

#[test]
fn linefeed_scrolls_into_scrollback() {
    let mut g = Grid::new(3, 2);
    put(&mut g, "aa");
    g.carriage_return();
    g.linefeed();
    put(&mut g, "bb");
    g.carriage_return();
    g.linefeed();
    put(&mut g, "cc");
    assert_eq!(row_text(&g, 0), "bb");
    assert_eq!(row_text(&g, 1), "cc");
    g.scroll_view_up(1);
    assert_eq!(g.visible_cell(0, 0).c, 'a');
}

#[test]
fn scroll_region_and_insert_delete_lines_no_panic() {
    let mut g = Grid::new(10, 6);
    g.set_scroll_region(1, 4);
    g.move_to(0, 2);
    g.insert_lines(2);
    g.delete_lines(3);
    g.insert_lines(100);
    g.delete_lines(100);
    g.move_to(0, 5);
    g.insert_lines(1);
}

#[test]
fn ich_dch_ech_bounds() {
    let mut g = Grid::new(5, 1);
    put(&mut g, "abcde");
    g.move_to(0, 0);
    g.insert_chars(2);
    assert_eq!(row_text(&g, 0), "  abc");
    g.move_to(0, 0);
    g.delete_chars(100);
    g.erase_chars(100);
}

#[test]
fn wide_char_occupies_two_cells() {
    let mut g = Grid::new(6, 1);
    put(&mut g, "中a");
    assert_eq!(g.cell(0, 0).c, '中');
    assert!(g.cell(1, 0).wide_spacer);
    assert_eq!(g.cell(2, 0).c, 'a');
}

#[test]
fn alt_screen_roundtrip() {
    let mut g = Grid::new(4, 2);
    put(&mut g, "main");
    g.enter_alt_screen();
    assert!(g.on_alt());
    put(&mut g, "alt");
    assert_eq!(row_text(&g, 0), "alt");
    g.leave_alt_screen();
    assert!(!g.on_alt());
    assert_eq!(row_text(&g, 0), "main");
}

#[test]
fn selection_text_multiline() {
    let mut g = Grid::new(5, 2);
    put(&mut g, "hello");
    g.carriage_return();
    g.linefeed();
    put(&mut g, "world");
    let t = g.text_in_span((0, 0), (4, 1));
    assert_eq!(t, "hello\nworld");
}

#[test]
fn reverse_index_at_top_scrolls_down() {
    let mut g = Grid::new(3, 3);
    put(&mut g, "aa");
    g.move_to(0, 0);
    g.reverse_index();
    assert_eq!(row_text(&g, 0), "");
    assert_eq!(row_text(&g, 1), "aa");
}

#[test]
fn resize_keeps_topleft_no_panic() {
    let mut g = Grid::new(10, 5);
    put(&mut g, "hello world");
    g.resize(4, 2);
    g.resize(20, 10);
    g.resize(1, 1);
}

#[test]
fn il_dl_move_cursor_to_col0() {
    let mut g = Grid::new(6, 4);
    g.move_to(3, 1);
    g.insert_lines(1);
    assert_eq!(g.cx, 0);
    g.move_to(3, 1);
    g.delete_lines(1);
    assert_eq!(g.cx, 0);
}

#[test]
fn cursor_move_outside_region_not_misclamped() {
    let mut g = Grid::new(5, 10);
    g.set_scroll_region(2, 5);
    g.move_to(0, 8);
    g.move_up(1);
    assert_eq!(g.cy, 7);
    g.move_to(0, 0);
    g.move_down(1);
    assert_eq!(g.cy, 1);
}

#[test]
fn degenerate_decstbm_ignored() {
    let mut g = Grid::new(5, 6);
    g.set_scroll_region(0, 5);
    g.move_to(3, 3);
    g.set_scroll_region(4, 4);
    assert_eq!((g.cx, g.cy), (3, 3));
}

#[test]
fn combining_char_does_not_consume_cell() {
    let mut g = Grid::new(5, 1);
    put(&mut g, "e\u{0301}x");
    assert_eq!(g.cell(0, 0).c, 'e');
    assert_eq!(g.cell(1, 0).c, 'x');
}

#[test]
fn overwrite_wide_clears_orphan_half() {
    let mut g = Grid::new(6, 1);
    put(&mut g, "中文");
    g.move_to(1, 0);
    put(&mut g, "a");
    assert!(!g.cell(0, 0).wide_spacer);
    assert_eq!(g.cell(0, 0).c, ' ');
    assert_eq!(g.cell(1, 0).c, 'a');
}

#[test]
fn erase_display_and_line() {
    let mut g = Grid::new(4, 2);
    put(&mut g, "abcd");
    g.carriage_return();
    g.linefeed();
    put(&mut g, "efgh");
    g.move_to(2, 0);
    g.erase_in_line(0);
    assert_eq!(row_text(&g, 0), "ab");
    g.erase_in_display(2);
    assert_eq!(row_text(&g, 1), "");
}
