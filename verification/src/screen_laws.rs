//! What each operation does to the cells and the cursor, place by place.

use vstd::prelude::*;

use crate::cell::{Cell, Color, Pen};
use crate::screen::{AltScreen, Screen};

verus! {

// ---- cells ----

/// A character is written with the colours, the attributes and the hyperlink of the
/// pen, and is no right half; the right half of a wide one looks the same, but for the
/// character.
pub proof fn law_writing_takes_everything_from_the_pen(pen: Pen, c: char)
    ensures
        pen.stamp(c).c == c,
        pen.stamp(c).fg == pen.fg,
        pen.stamp(c).bg == pen.bg,
        pen.stamp(c).bold == pen.bold,
        pen.stamp(c).dim == pen.dim,
        pen.stamp(c).italic == pen.italic,
        pen.stamp(c).underline == pen.underline,
        pen.stamp(c).inverse == pen.inverse,
        pen.stamp(c).strike == pen.strike,
        pen.stamp(c).hidden == pen.hidden,
        pen.stamp(c).link == pen.link,
        !pen.stamp(c).wide_spacer,
        pen.spacer().wide_spacer,
        (Cell { c, wide_spacer: false, ..pen.spacer() }) == pen.stamp(c),
{
}

/// Erasing leaves a space in the colours of the pen, and nothing else of it: whatever
/// was underlined, linked or half of a wide character is gone.
pub proof fn law_erased_cell_has_only_the_colours_of_the_pen(pen: Pen)
    ensures
        pen.blank().c == ' ',
        pen.blank().fg == pen.fg,
        pen.blank().bg == pen.bg,
        !pen.blank().bold && !pen.blank().dim && !pen.blank().italic,
        !pen.blank().underline && !pen.blank().strike,
        !pen.blank().inverse && !pen.blank().hidden,
        !pen.blank().wide_spacer,
        pen.blank().link == 0,
        crate::cell::plain_pen(0).blank() == crate::cell::empty_cell(),
        crate::cell::empty_cell().c == ' ',
        crate::cell::empty_cell().fg == Color::Default,
        crate::cell::empty_cell().bg == Color::Default,
{
}

/// A terminal that has just been switched on is empty, of the size asked for but at
/// least one cell, with the cursor at the top left, lines that wrap, a cursor that can
/// be seen, and nothing else switched on.
pub proof fn law_new_screen_is_empty(cols: int, rows: int, col: int, row: int)
    requires
        0 <= cols <= usize::MAX,
        0 <= rows <= usize::MAX,
    ensures
        ({
            let s = Screen::start(cols, rows);
            &&& s.wf()
            &&& cols >= 1 ==> s.cols == cols
            &&& rows >= 1 ==> s.rows == rows
            &&& cols == 0 ==> s.cols == 1
            &&& rows == 0 ==> s.rows == 1
            &&& s.cell(col, row) == crate::cell::empty_cell()
            &&& s.cx == 0 && s.cy == 0 && s.top == 0 && s.bottom == s.rows - 1
            &&& s.modes.autowrap && s.modes.cursor_visible
            &&& !s.modes.app_cursor_keys && !s.modes.app_keypad && !s.modes.bracketed_paste
            &&& !s.modes.focus_event && !s.modes.sync_output && !s.modes.mouse_sgr
            &&& s.modes.mouse_proto == crate::modes::MouseProto::Off
            &&& !s.on_alt() && s.saved is None && s.history.len() == 0 && s.history_max == 5000
            &&& s.view_offset == 0 && !s.wrap_pending && s.events.len() == 0
            &&& s.links.len() == 0 && s.link == 0 && s.pen == crate::cell::plain_pen(0)
        }),
{
}

/// Inside the screen a place is its cell; outside it is empty.
pub proof fn law_places_off_the_screen_are_empty(s: Screen, col: int, row: int)
    requires
        s.wf(),
    ensures
        0 <= col < s.cols && 0 <= row < s.rows ==> s.cell(col, row) == s.cells[row][col],
        !(0 <= col < s.cols && 0 <= row < s.rows) ==> s.cell(col, row) == crate::cell::empty_cell(),
{
}

// ---- erasing ----

/// Where a place stands in reading order, counted from the top left.
pub open spec fn reading_place(s: Screen, col: int, row: int) -> int {
    row * s.cols + col
}

proof fn lemma_reading_order(s: Screen, col: int, row: int)
    requires
        s.wf(),
        0 <= col < s.cols,
        0 <= row < s.rows,
    ensures
        row > s.cy ==> reading_place(s, col, row) > reading_place(s, s.cx, s.cy),
        row < s.cy ==> reading_place(s, col, row) < reading_place(s, s.cx, s.cy),
        row == s.cy ==> reading_place(s, col, row) - reading_place(s, s.cx, s.cy) == col - s.cx,
{
    let (w, y, x) = (s.cols, s.cy, s.cx);
    if row > y {
        assert(row * w >= y * w + w) by (nonlinear_arith)
            requires
                row >= y + 1,
                w >= 1,
        ;
    } else if row < y {
        assert(y * w >= row * w + w) by (nonlinear_arith)
            requires
                y >= row + 1,
                w >= 1,
        ;
    }
}

/// Erasing in the display blanks every cell from the cursor to the end of the screen
/// in reading order (mode 0), or every cell from the start up to and with the cursor
/// (mode 1), or every cell; it leaves all other cells alone, and the cursor too.
pub proof fn law_erasing_in_the_display_follows_reading_order(
    s: Screen,
    mode: u16,
    col: int,
    row: int,
)
    requires
        s.wf(),
        0 <= col < s.cols,
        0 <= row < s.rows,
    ensures
        ({
            let after = s.erase_in_display(mode);
            let place = reading_place(s, col, row);
            let cursor = reading_place(s, s.cx, s.cy);
            &&& after == (Screen { cells: after.cells, ..s })
            &&& mode == 0 && place >= cursor ==> after.cells[row][col] == s.pen.blank()
            &&& mode == 0 && place < cursor ==> after.cells[row][col] == s.cells[row][col]
            &&& mode == 1 && place <= cursor ==> after.cells[row][col] == s.pen.blank()
            &&& mode == 1 && place > cursor ==> after.cells[row][col] == s.cells[row][col]
            &&& mode >= 2 ==> after.cells[row][col] == s.pen.blank()
        }),
{
    lemma_reading_order(s, col, row);
}

/// Erasing to the end and erasing from the start together erase everything, and have
/// only the cell under the cursor in common.
pub proof fn law_the_two_halves_of_the_display_make_it_up(s: Screen, col: int, row: int)
    requires
        s.wf(),
        0 <= col < s.cols,
        0 <= row < s.rows,
    ensures
        s.erase_in_display(0).erase_in_display(1).cells[row][col] == s.erase_in_display(
            2,
        ).cells[row][col],
        s.erase_in_line(0).erase_in_line(1).cells[row][col] == s.erase_in_line(2).cells[row][col],
{
}

/// Erasing in the line blanks the cursor's row from the cursor on (mode 0), up to and
/// with the cursor (mode 1), or all of it, and leaves everything else alone.
pub proof fn law_erasing_in_the_line_stays_in_the_line(s: Screen, mode: u16, col: int, row: int)
    requires
        s.wf(),
        0 <= col < s.cols,
        0 <= row < s.rows,
    ensures
        ({
            let after = s.erase_in_line(mode);
            &&& after == (Screen { cells: after.cells, ..s })
            &&& row != s.cy ==> after.cells[row][col] == s.cells[row][col]
            &&& row == s.cy && mode == 0 && col >= s.cx ==> after.cells[row][col] == s.pen.blank()
            &&& row == s.cy && mode == 0 && col < s.cx ==> after.cells[row][col]
                == s.cells[row][col]
            &&& row == s.cy && mode == 1 && col <= s.cx ==> after.cells[row][col] == s.pen.blank()
            &&& row == s.cy && mode == 1 && col > s.cx ==> after.cells[row][col]
                == s.cells[row][col]
            &&& row == s.cy && mode >= 2 ==> after.cells[row][col] == s.pen.blank()
        }),
{
}

/// Erasing characters blanks as many as are asked for, at least one, from the cursor on
/// and no further than the line goes. Nothing moves.
pub proof fn law_erased_characters_leave_the_others_in_place(s: Screen, n: int, col: int, row: int)
    requires
        s.wf(),
        n >= 0,
        0 <= col < s.cols,
        0 <= row < s.rows,
    ensures
        ({
            let after = s.erase_chars(n);
            let many = if n == 0 {
                1
            } else {
                n
            };
            let erased = row == s.cy && s.cx <= col && col - s.cx < many;
            &&& after == (Screen { cells: after.cells, ..s })
            &&& erased ==> after.cells[row][col] == s.pen.blank()
            &&& !erased ==> after.cells[row][col] == s.cells[row][col]
        }),
{
}

// ---- inserting and deleting ----

/// Inserted characters are blank and push those from the cursor on to the right; what
/// passes the end of the line is lost. The cursor stays.
pub proof fn law_inserted_characters_push_the_others_right(s: Screen, n: int, col: int, row: int)
    requires
        s.wf(),
        n >= 1,
        0 <= col < s.cols,
        0 <= row < s.rows,
    ensures
        ({
            let after = s.insert_chars(n);
            &&& after == (Screen { cells: after.cells, ..s })
            &&& row != s.cy || col < s.cx ==> after.cells[row][col] == s.cells[row][col]
            &&& row == s.cy && s.cx <= col && col < s.cx + n ==> after.cells[row][col]
                == s.pen.blank()
            &&& row == s.cy && s.cx + n <= col ==> after.cells[row][col] == s.cells[row][col - n]
        }),
        s.insert_chars(0) == s.insert_chars(1),
{
}

/// Deleted characters let those behind them move up to the cursor, and blanks come in
/// from the end of the line. The cursor stays.
pub proof fn law_deleted_characters_pull_the_others_left(s: Screen, n: int, col: int, row: int)
    requires
        s.wf(),
        n >= 1,
        0 <= col < s.cols,
        0 <= row < s.rows,
    ensures
        ({
            let after = s.delete_chars(n);
            &&& after == (Screen { cells: after.cells, ..s })
            &&& row != s.cy || col < s.cx ==> after.cells[row][col] == s.cells[row][col]
            &&& row == s.cy && s.cx <= col && col + n < s.cols ==> after.cells[row][col]
                == s.cells[row][col + n]
            &&& row == s.cy && s.cx <= col && col + n >= s.cols ==> after.cells[row][col]
                == s.pen.blank()
        }),
        s.delete_chars(0) == s.delete_chars(1),
{
}

/// Deleting what was inserted brings every character back that had not left the line.
pub proof fn law_deleting_undoes_inserting(s: Screen, n: int, col: int, row: int)
    requires
        s.wf(),
        n >= 1,
        0 <= row < s.rows,
        0 <= col,
        col + n < s.cols,
    ensures
        s.insert_chars(n).delete_chars(n).cells[row][col] == s.cells[row][col],
        s.top <= s.cy <= s.bottom && row + n <= s.bottom && s.cy <= row ==> s.insert_lines(
            n,
        ).delete_lines(n).cells[row] == s.cells[row],
{
}

/// A cursor outside the scroll region inserts and deletes no lines.
pub proof fn law_lines_are_edited_in_the_region_only(s: Screen, n: int)
    requires
        s.wf(),
        s.cy < s.top || s.cy > s.bottom,
    ensures
        s.insert_lines(n) == s,
        s.delete_lines(n) == s,
{
}

/// Inserted lines are blank and push the lines from the cursor on down, no further than
/// the region goes; the cursor goes to the first column.
pub proof fn law_inserted_lines_push_the_others_down(s: Screen, n: int, row: int)
    requires
        s.wf(),
        n >= 1,
        s.top <= s.cy <= s.bottom,
        0 <= row < s.rows,
    ensures
        ({
            let after = s.insert_lines(n);
            &&& after == (Screen { cells: after.cells, cx: 0, wrap_pending: false, ..s })
            &&& row < s.cy || row > s.bottom ==> after.cells[row] == s.cells[row]
            &&& s.cy + n <= row <= s.bottom ==> after.cells[row] == s.cells[row - n]
            &&& s.cy <= row <= s.bottom && row < s.cy + n ==> is_blank_row(s, after.cells[row])
        }),
        s.insert_lines(0) == s.insert_lines(1),
{
}

/// Deleted lines let those below them move up, and blank lines come in at the end of the
/// region; the cursor goes to the first column.
pub proof fn law_deleted_lines_pull_the_others_up(s: Screen, n: int, row: int)
    requires
        s.wf(),
        n >= 1,
        s.top <= s.cy <= s.bottom,
        0 <= row < s.rows,
    ensures
        ({
            let after = s.delete_lines(n);
            &&& after == (Screen { cells: after.cells, cx: 0, wrap_pending: false, ..s })
            &&& row < s.cy || row > s.bottom ==> after.cells[row] == s.cells[row]
            &&& s.cy <= row && row + n <= s.bottom ==> after.cells[row] == s.cells[row + n]
            &&& s.cy <= row <= s.bottom && row + n > s.bottom ==> is_blank_row(
                s,
                after.cells[row],
            )
        }),
        s.delete_lines(0) == s.delete_lines(1),
{
}

/// Whether a row is as long as the screen is wide, and blank all over.
pub open spec fn is_blank_row(s: Screen, row: Seq<Cell>) -> bool {
    &&& row.len() == s.cols
    &&& forall|col: int| 0 <= col < s.cols ==> #[trigger] row[col] == s.pen.blank()
}

// ---- scrolling ----

/// Scrolling up moves every line of the region up and brings in blank lines at its end.
/// The cursor stays, and so does everything outside the region.
pub proof fn law_scrolling_up_moves_lines_up(s: Screen, n: int, row: int)
    requires
        s.wf(),
        n >= 1,
        0 <= row < s.rows,
    ensures
        ({
            let after = s.scroll_up(n);
            &&& after == (Screen { cells: after.cells, history: after.history, ..s })
            &&& row < s.top || row > s.bottom ==> after.cells[row] == s.cells[row]
            &&& s.top <= row && row + n <= s.bottom ==> after.cells[row] == s.cells[row + n]
            &&& s.top <= row <= s.bottom && row + n > s.bottom ==> is_blank_row(
                s,
                after.cells[row],
            )
        }),
        s.scroll_up(0) == s.scroll_up(1),
{
}

/// Scrolling down moves every line of the region down and brings in blank lines at its
/// start. The cursor stays, and so do the history and everything outside the region.
pub proof fn law_scrolling_down_moves_lines_down(s: Screen, n: int, row: int)
    requires
        s.wf(),
        n >= 1,
        0 <= row < s.rows,
    ensures
        ({
            let after = s.scroll_down(n);
            &&& after == (Screen { cells: after.cells, ..s })
            &&& row < s.top || row > s.bottom ==> after.cells[row] == s.cells[row]
            &&& s.top + n <= row <= s.bottom ==> after.cells[row] == s.cells[row - n]
            &&& s.top <= row <= s.bottom && row < s.top + n ==> is_blank_row(s, after.cells[row])
        }),
        s.scroll_down(0) == s.scroll_down(1),
{
}

/// Scrolling down what was scrolled up brings back every line that had not left the
/// region.
pub proof fn law_scrolling_down_undoes_scrolling_up(s: Screen, n: int, row: int)
    requires
        s.wf(),
        n >= 1,
        s.top + n <= row <= s.bottom,
    ensures
        s.scroll_up(n).scroll_down(n).cells[row] == s.cells[row],
{
}

/// Only lines that leave the top of the main screen become history: none from the
/// alternate screen, and none from a region that begins further down.
pub proof fn law_only_the_main_screen_makes_history(s: Screen, n: int)
    requires
        s.wf(),
        s.on_alt() || s.top > 0,
    ensures
        s.scroll_up(n).history == s.history,
        s.index().history == s.history,
        s.linefeed().history == s.history,
{
}

/// One line down goes to the next row, from the last row of the region scrolls the
/// region by one line, and in the last row of the screen below it stays. The column
/// stays.
pub proof fn law_index_goes_down_or_scrolls(s: Screen)
    requires
        s.wf(),
    ensures
        s.index().cx == s.cx,
        !s.index().wrap_pending,
        s.cy == s.bottom ==> s.index() == (Screen { wrap_pending: false, ..s }).scroll_up(1),
        s.cy != s.bottom ==> s.index().cells == s.cells && s.index().history == s.history,
        s.cy != s.bottom && s.cy + 1 < s.rows ==> s.index().cy == s.cy + 1,
        s.cy != s.bottom && s.cy + 1 == s.rows ==> s.index().cy == s.cy,
        s.linefeed() == (Screen { view_offset: 0, ..s }).index(),
{
}

/// One line up goes to the row above, from the first row of the region scrolls the
/// region down by one line, and in the first row of the screen above it stays. The
/// column stays.
pub proof fn law_reverse_index_goes_up_or_scrolls(s: Screen)
    requires
        s.wf(),
    ensures
        s.reverse_index().cx == s.cx,
        !s.reverse_index().wrap_pending,
        s.cy == s.top ==> s.reverse_index() == (Screen { wrap_pending: false, ..s }).scroll_down(1),
        s.cy != s.top ==> s.reverse_index().cells == s.cells,
        s.cy != s.top && s.cy > 0 ==> s.reverse_index().cy == s.cy - 1,
        s.cy != s.top && s.cy == 0 ==> s.reverse_index().cy == 0,
{
}

/// Going down and up again ends where it began, as long as nothing scrolls.
pub proof fn law_going_up_undoes_going_down(s: Screen)
    requires
        s.wf(),
        s.cy != s.bottom,
        s.cy + 1 < s.rows,
        s.cy + 1 != s.top,
        !s.wrap_pending,
    ensures
        s.index().reverse_index() == s,
{
}

/// A scroll region that has at least two rows of the screen is taken over, cut to the
/// screen, with the cursor at its top left; any other is ignored.
pub proof fn law_scroll_region_is_cut_to_the_screen(s: Screen, top: int, bottom: int)
    requires
        s.wf(),
        0 <= top,
        0 <= bottom,
    ensures
        ({
            let after = s.set_scroll_region(top, bottom);
            &&& after == (Screen {
                top: after.top,
                bottom: after.bottom,
                cx: after.cx,
                cy: after.cy,
                wrap_pending: after.wrap_pending,
                ..s
            })
            &&& top < bottom && top < s.rows - 1 ==> {
                &&& after.top == top
                &&& bottom < s.rows ==> after.bottom == bottom
                &&& bottom >= s.rows ==> after.bottom == s.rows - 1
                &&& after.cx == 0
                &&& after.cy == top
                &&& !after.wrap_pending
            }
            &&& top >= bottom || top >= s.rows - 1 ==> after == s
        }),
{
}

// ---- the cursor ----

/// The cursor goes where it is sent, and no further than the last column and row.
/// Nothing else changes but that a line break is no longer due.
pub proof fn law_cursor_goes_where_it_is_sent(s: Screen, col: int, row: int)
    requires
        s.wf(),
        0 <= col,
        0 <= row,
    ensures
        ({
            let x = if col < s.cols {
                col
            } else {
                s.cols - 1
            };
            let y = if row < s.rows {
                row
            } else {
                s.rows - 1
            };
            &&& s.move_to(col, row) == (Screen { cx: x, cy: y, wrap_pending: false, ..s })
            &&& s.move_to_col(col) == (Screen { cx: x, wrap_pending: false, ..s })
            &&& s.move_to_row(row) == (Screen { cy: y, wrap_pending: false, ..s })
        }),
{
}

/// To the left and to the right the cursor goes as many columns as asked for, at least
/// one, and no further than the line goes.
pub proof fn law_cursor_moves_along_the_line(s: Screen, n: int)
    requires
        s.wf(),
        n >= 1,
    ensures
        n <= s.cx ==> s.move_left(n) == (Screen { cx: s.cx - n, wrap_pending: false, ..s }),
        n > s.cx ==> s.move_left(n) == (Screen { cx: 0, wrap_pending: false, ..s }),
        s.cx + n < s.cols ==> s.move_right(n) == (Screen {
            cx: s.cx + n,
            wrap_pending: false,
            ..s
        }),
        s.cx + n >= s.cols ==> s.move_right(n) == (Screen {
            cx: s.cols - 1,
            wrap_pending: false,
            ..s
        }),
        s.move_left(0) == s.move_left(1),
        s.move_right(0) == s.move_right(1),
        s.move_up(0) == s.move_up(1),
        s.move_down(0) == s.move_down(1),
        s.move_up(n) == (Screen { cy: s.move_up(n).cy, wrap_pending: false, ..s }),
        s.move_down(n) == (Screen { cy: s.move_down(n).cy, wrap_pending: false, ..s }),
{
}

/// Moving back undoes moving, where the cursor had room.
pub proof fn law_moving_back_undoes_moving(s: Screen, n: int)
    requires
        s.wf(),
        !s.wrap_pending,
        n >= 1,
    ensures
        s.cx + n < s.cols ==> s.move_right(n).move_left(n) == s,
        s.cx >= n ==> s.move_left(n).move_right(n) == s,
        s.top <= s.cy && s.cy + n <= s.bottom ==> s.move_down(n).move_up(n) == s,
        s.top <= s.cy - n && s.cy <= s.bottom ==> s.move_up(n).move_down(n) == s,
{
}

/// Above the scroll region the cursor moves down no further than the region goes.
pub proof fn law_a_cursor_above_the_region_stops_at_its_end(s: Screen, n: int)
    requires
        s.wf(),
        n >= 1,
        s.cy < s.top,
    ensures
        s.cy + n <= s.bottom ==> s.move_down(n).cy == s.cy + n,
        s.cy + n > s.bottom ==> s.move_down(n).cy == s.bottom,
{
}

/// A carriage return goes to the first column, a backspace one column back if there is
/// one; neither changes a cell.
pub proof fn law_carriage_return_and_backspace(s: Screen)
    requires
        s.wf(),
    ensures
        s.carriage_return() == (Screen { cx: 0, wrap_pending: false, ..s }),
        s.cx > 0 ==> s.backspace() == (Screen { cx: s.cx - 1, wrap_pending: false, ..s }),
        s.cx == 0 ==> s.backspace() == (Screen { wrap_pending: false, ..s }),
{
}

/// A tab goes to the nearest multiple of eight to the right, or to the last column
/// where there is none.
pub proof fn law_tab_goes_to_the_next_stop(s: Screen, stop: int)
    requires
        s.wf(),
    ensures
        s.tab() == (Screen { cx: s.tab().cx, wrap_pending: false, ..s }),
        s.tab().cx % 8 == 0 || s.tab().cx == s.cols - 1,
        s.cx < s.cols - 1 ==> s.tab().cx > s.cx,
        s.cx < stop && stop < s.tab().cx ==> stop % 8 != 0,
        s.tab().cx < s.cols,
        s.tab().cx <= s.cx + 8,
{
}

/// Without a cursor put aside nothing comes back; putting it aside changes nothing else.
pub proof fn law_putting_the_cursor_aside_changes_nothing_else(s: Screen)
    requires
        s.wf(),
    ensures
        s.save_cursor() == (Screen { saved: s.save_cursor().saved, ..s }),
        s.save_cursor().restore_cursor() == s.save_cursor(),
        s.saved is None ==> s.restore_cursor() == s,
        s.restore_cursor() == (Screen {
            cx: s.restore_cursor().cx,
            cy: s.restore_cursor().cy,
            pen: s.restore_cursor().pen,
            wrap_pending: s.restore_cursor().wrap_pending,
            ..s
        }),
{
}

// ---- the view ----

/// The history and the live screen are one column of lines, and the view is a window
/// on it that ends as many lines above the end as it is scrolled back.
pub proof fn law_view_looks_at_history_and_screen_as_one(s: Screen, col: int, row: int)
    requires
        s.wf(),
        s.view_offset <= s.history.len(),
        0 <= row < s.rows,
        0 <= col,
    ensures
        ({
            let line = (s.history + s.cells)[s.history.len() - s.view_offset + row];
            &&& col < line.len() ==> s.visible_cell(col, row) == line[col]
            &&& col >= line.len() ==> s.visible_cell(col, row) == crate::cell::empty_cell()
        }),
{
}

/// Scrolling the view goes back no further than the history and forth no further than
/// the live screen, and changes nothing but the view. The alternate screen has no
/// history to see.
pub proof fn law_view_scrolls_within_the_history(s: Screen, n: int)
    requires
        s.wf(),
        n >= 0,
    ensures
        s.on_alt() ==> s.scroll_view_up(n) == s,
        !s.on_alt() && s.view_offset + n <= s.history.len() ==> s.scroll_view_up(n) == (Screen {
            view_offset: s.view_offset + n,
            ..s
        }),
        !s.on_alt() && s.view_offset + n > s.history.len() ==> s.scroll_view_up(n) == (Screen {
            view_offset: s.history.len() as int,
            ..s
        }),
        n <= s.view_offset ==> s.scroll_view_down(n) == (Screen {
            view_offset: s.view_offset - n,
            ..s
        }),
        n > s.view_offset ==> s.scroll_view_down(n) == (Screen { view_offset: 0, ..s }),
        s.reset_view() == (Screen { view_offset: 0, ..s }),
        !s.on_alt() && s.view_offset + n <= s.history.len() ==> s.scroll_view_up(
            n,
        ).scroll_view_down(n) == s,
{
}

/// A limit on the history, at least one line, drops its oldest lines and nothing else.
pub proof fn law_limit_drops_the_oldest_lines(s: Screen, n: int, i: int)
    requires
        s.wf(),
        n >= 1,
    ensures
        ({
            let after = s.set_scrollback_max(n);
            &&& after == (Screen { history: after.history, history_max: n, ..s })
            &&& s.history.len() <= n ==> after.history == s.history
            &&& s.history.len() > n ==> after.history.len() == n
            &&& 0 <= i < after.history.len() ==> after.history[after.history.len() - 1 - i]
                == s.history[s.history.len() - 1 - i]
        }),
        s.set_scrollback_max(0) == s.set_scrollback_max(1),
{
}

// ---- sizes and the alternate screen ----

/// Another size makes the scroll region the whole screen, shows the live screen, keeps
/// the cursor where it is if it can, and keeps pen, modes, history and what was put
/// aside.
pub proof fn law_resize_keeps_the_rest(s: Screen, cols: int, rows: int)
    requires
        s.wf(),
        1 <= cols <= usize::MAX,
        1 <= rows <= usize::MAX,
        cols != s.cols || rows != s.rows,
    ensures
        ({
            let after = s.resize(cols, rows);
            &&& after == (Screen {
                cols,
                rows,
                cells: after.cells,
                cx: after.cx,
                cy: after.cy,
                top: 0,
                bottom: rows - 1,
                alt: after.alt,
                view_offset: 0,
                wrap_pending: false,
                ..s
            })
            &&& s.cx < cols ==> after.cx == s.cx
            &&& s.cx >= cols ==> after.cx == cols - 1
            &&& s.cy < rows ==> after.cy == s.cy
            &&& s.cy >= rows ==> after.cy == rows - 1
            &&& after.on_alt() == s.on_alt()
        }),
        s.resize(0, rows) == s.resize(1, rows),
        s.resize(cols, 0) == s.resize(cols, 1),
{
}

/// The main screen follows a resize while an application works on the alternate one:
/// leaving it afterwards shows what leaving it before would have shown, at every place
/// that both sizes have, and empty cells at the others. Resizing first and leaving
/// afterwards is leaving first and resizing afterwards.
pub proof fn law_resize_reaches_the_main_screen(
    s: Screen,
    cols: int,
    rows: int,
    col: int,
    row: int,
)
    requires
        s.wf(),
        s.on_alt(),
        1 <= cols <= usize::MAX,
        1 <= rows <= usize::MAX,
    ensures
        ({
            let after = s.resize(cols, rows).leave_alt_screen();
            let before = s.leave_alt_screen();
            &&& 0 <= col < cols && 0 <= row < rows ==> after.cell(col, row) == before.cell(col, row)
            &&& 0 <= col < cols && 0 <= row < rows && (col >= s.cols || row >= s.rows)
                ==> after.cell(col, row) == crate::cell::empty_cell()
            &&& after.cells == before.resize(cols, rows).cells
            &&& after.saved == before.saved
            &&& before.cx < cols && s.alt->0.cx < s.cols ==> after.cx == before.cx
            &&& before.cy < rows && s.alt->0.cy < s.rows ==> after.cy == before.cy
            &&& after.cols == cols && after.rows == rows
        }),
{
    let aside = s.alt->0;
    let after = s.resize(cols, rows).leave_alt_screen();
    let before = s.leave_alt_screen();
    assert(before.cells == aside.cells);
    if cols != s.cols || rows != s.rows {
        assert(after.cells == crate::screen::top_left(aside.cells, cols, rows));
        assert(before.resize(cols, rows).cells == crate::screen::top_left(
            aside.cells,
            cols,
            rows,
        ));
        if 0 <= col < cols && 0 <= row < rows {
            assert(after.cells[row][col] == before.cell(col, row));
        }
    }
}

/// The alternate screen begins empty, with the cursor at its top left, a whole scroll
/// region and no cursor put aside; the pen, the modes and the history are as before.
/// Entering it again, or leaving the main screen, changes nothing.
pub proof fn law_alternate_screen_begins_empty(s: Screen, col: int, row: int)
    requires
        s.wf(),
    ensures
        s.on_alt() ==> s.enter_alt_screen() == s,
        !s.on_alt() ==> s.leave_alt_screen() == s,
        !s.on_alt() ==> ({
            let after = s.enter_alt_screen();
            &&& after.on_alt()
            &&& after.cell(col, row) == crate::cell::empty_cell()
            &&& after == (Screen {
                cells: after.cells,
                alt: Some(
                    AltScreen { cells: s.cells, cx: s.cx, cy: s.cy, saved: s.saved },
                ),
                saved: None,
                cx: 0,
                cy: 0,
                top: 0,
                bottom: s.rows - 1,
                wrap_pending: false,
                view_offset: 0,
                ..s
            })
        }),
        s.on_alt() ==> ({
            let after = s.leave_alt_screen();
            &&& after == (Screen {
                cells: after.cells,
                alt: None,
                saved: after.saved,
                cx: after.cx,
                cy: after.cy,
                top: 0,
                bottom: s.rows - 1,
                wrap_pending: false,
                view_offset: 0,
                ..s
            })
        }),
{
}

// ---- printing ----

/// Printing touches the line it prints on and no more of it than the character takes,
/// but for the other halves of wide characters that it covers in part.
pub proof fn law_printing_leaves_the_rest_of_the_line_alone(s: Screen, c: char, col: int)
    requires
        s.wf(),
        !s.wrap_pending,
        crate::width::columns_of(c) > 0,
        s.cx + crate::width::columns_of(c) <= s.cols,
        0 <= col < s.cols,
        col < s.cx || col >= s.cx + crate::width::columns_of(c),
    ensures
        ({
            let after = s.print(c);
            let w = crate::width::columns_of(c);
            &&& after == (Screen {
                cells: after.cells,
                cx: after.cx,
                wrap_pending: after.wrap_pending,
                view_offset: 0,
                ..s
            })
            &&& col < s.cx - 1 || col > s.cx + w ==> after.cells[s.cy][col] == s.cells[s.cy][col]
            &&& col == s.cx - 1 && !s.cells[s.cy][s.cx].wide_spacer ==> after.cells[s.cy][col]
                == s.cells[s.cy][col]
            &&& col == s.cx + w && !s.cells[s.cy][col].wide_spacer ==> after.cells[s.cy][col]
                == s.cells[s.cy][col]
            &&& s.cx + w < s.cols ==> after.cx == s.cx + w && !after.wrap_pending
            &&& s.cx + w == s.cols ==> after.cx == s.cols - 1 && after.wrap_pending
            &&& forall|row: int|
                0 <= row < s.rows && row != s.cy ==> #[trigger] after.cells[row] == s.cells[row]
        }),
{
}

/// A wide character with only one column left on its line stands at the beginning of the
/// line below, and leaves the one column as it is; from the last row of the scroll region
/// its line goes one row up first.
pub proof fn law_wide_character_is_not_cut_in_two(s: Screen, c: char)
    requires
        s.wf(),
        !s.wrap_pending,
        s.modes.autowrap,
        crate::width::columns_of(c) == 2,
        s.cols >= 2,
        s.cx == s.cols - 1,
    ensures
        ({
            let after = s.print(c);
            &&& s.cy != s.bottom && s.cy + 1 < s.rows ==> {
                &&& after.cell(0, s.cy + 1) == s.pen.stamp(c)
                &&& after.cell(1, s.cy + 1) == s.pen.spacer()
                &&& after.cells[s.cy] == s.cells[s.cy]
                &&& after.cy == s.cy + 1
            }
            &&& s.cy == s.bottom ==> {
                &&& after.cell(0, s.cy) == s.pen.stamp(c)
                &&& after.cell(1, s.cy) == s.pen.spacer()
                &&& s.top < s.bottom ==> after.cells[s.cy - 1] == s.cells[s.cy]
                &&& after.cy == s.cy
            }
            &&& s.cols > 2 ==> after.cx == 2 && !after.wrap_pending
            &&& s.cols == 2 ==> after.cx == 1 && after.wrap_pending
        }),
{
    let spot = (Screen { cx: 0, ..s.reset_view() }).index();
    assert(s.print(c) == spot.put(c, 2));
    assert(spot.cells[spot.cy].len() == s.cols);
}

/// A line break that is due stays due until it is made; putting a character makes one due
/// only where it reaches the end of the line.
pub proof fn law_a_due_line_break_stays_due(s: Screen, c: char, w: int)
    requires
        s.wf(),
        1 <= w <= 2,
    ensures
        s.put(c, w).wrap_pending <==> s.wrap_pending || s.cx + w >= s.cols,
        s.cx + w < s.cols ==> s.put(c, w).cx == s.cx + w,
        s.cx + w >= s.cols ==> s.put(c, w).cx == s.cols - 1,
{
}

/// Where lines do not wrap, a character after a full line takes the place of the last
/// one, and a wide one that does not fit is dropped.
pub proof fn law_without_wrapping_the_last_column_is_overwritten(s: Screen, c: char)
    requires
        s.wf(),
        !s.modes.autowrap,
        s.cx == s.cols - 1,
    ensures
        crate::width::columns_of(c) == 1 ==> {
            &&& s.print(c).cells[s.cy][s.cols - 1] == s.pen.stamp(c)
            &&& s.print(c).cx == s.cols - 1 && s.print(c).cy == s.cy && s.print(c).wrap_pending
        },
        crate::width::columns_of(c) == 2 ==> s.print(c) == (Screen {
            view_offset: 0,
            wrap_pending: false,
            ..s
        }),
{
}

// ---- taking text ----

/// The characters of a run of cells are those of its parts one after the other; a cell
/// shows its character, and the right half of a wide one nothing.
pub proof fn law_cells_show_their_characters_in_order(a: Seq<Cell>, b: Seq<Cell>, cell: Cell)
    ensures
        crate::screen::shown(a + b) == crate::screen::shown(a) + crate::screen::shown(b),
        !cell.wide_spacer ==> crate::screen::shown(seq![cell]) == seq![cell.c],
        cell.wide_spacer ==> crate::screen::shown(seq![cell]) == Seq::<char>::empty(),
    decreases b.len(),
{
    assert(seq![cell].drop_last() =~= Seq::<Cell>::empty());
    assert(crate::screen::shown(seq![cell].drop_last()) =~= Seq::<char>::empty());
    assert(seq![cell].last() == cell);
    if !cell.wide_spacer {
        assert(crate::screen::shown(seq![cell]) =~= seq![cell.c]);
    }
    if b.len() == 0 {
        assert(a + b =~= a);
        assert(crate::screen::shown(a) + crate::screen::shown(b) =~= crate::screen::shown(a));
    } else {
        law_cells_show_their_characters_in_order(a, b.drop_last(), cell);
        assert((a + b).drop_last() =~= a + b.drop_last());
        assert((a + b).last() == b.last());
        if !b.last().wide_spacer {
            assert(crate::screen::shown(a) + crate::screen::shown(b) =~= (crate::screen::shown(a)
                + crate::screen::shown(b.drop_last())).push(b.last().c));
        }
    }
}

/// Trimming takes the spaces at the end, all of them, and nothing else.
pub proof fn law_trimming_takes_the_spaces_at_the_end(text: Seq<char>)
    ensures
        ({
            let t = crate::screen::trim_spaces(text);
            &&& t.len() <= text.len()
            &&& t == text.take(t.len() as int)
            &&& t.len() > 0 ==> t.last() != ' '
            &&& forall|i: int| t.len() <= i < text.len() ==> #[trigger] text[i] == ' '
        }),
    decreases text.len(),
{
    if text.len() > 0 && text.last() == ' ' {
        let head = text.drop_last();
        law_trimming_takes_the_spaces_at_the_end(head);
        let t = crate::screen::trim_spaces(text);
        assert(head.take(t.len() as int) =~= text.take(t.len() as int));
        assert forall|i: int| t.len() <= i < text.len() implies #[trigger] text[i] == ' ' by {
            if i < head.len() {
                assert(head[i] == text[i]);
            }
        }
    } else {
        assert(text.take(text.len() as int) =~= text);
    }
}

/// Text from one row is what its cells show, from the one place to the other, both
/// included, without the spaces at the end.
pub proof fn law_text_of_one_row(s: Screen, from: usize, to: usize, row: usize)
    requires
        s.wf(),
        from <= to,
        to < s.cols,
    ensures
        s.span((from, row), (to, row)) == crate::screen::trim_spaces(
            crate::screen::shown(
                Seq::new(
                    (to - from + 1) as nat,
                    |i: int| s.visible_cell(from + i, row as int),
                ),
            ),
        ),
{
    let start = (from, row);
    let end = (to, row);
    assert(crate::selection::in_order(start, end) == (start, end));
    assert(s.span_before(start, end, row as int) =~= Seq::empty());
    assert(s.span(start, end) =~= s.span_row(start, end, row as int));
    assert(s.visible_run(row as int, from as int, to + 1) =~= Seq::new(
        (to - from + 1) as nat,
        |i: int| s.visible_cell(from + i, row as int),
    ));
}

proof fn lemma_span_rows_below(
    s: Screen,
    a: (usize, usize),
    below: (usize, usize),
    end: (usize, usize),
    row: int,
)
    requires
        below.0 == 0,
        below.1 == a.1 + 1,
        row > a.1,
        row <= end.1,
    ensures
        s.span_before(a, end, row) == s.span_row(a, end, a.1 as int).push('\n') + s.span_before(
            below,
            end,
            row,
        ),
    decreases row,
{
    let first = s.span_row(a, end, a.1 as int).push('\n');
    if row == a.1 + 1 {
        assert(s.span_before(a, end, a.1 as int) =~= Seq::<char>::empty());
        assert(s.span_before(below, end, row) =~= Seq::<char>::empty());
        assert(s.span_before(a, end, row) =~= first);
        assert(first + Seq::<char>::empty() =~= first);
    } else {
        lemma_span_rows_below(s, a, below, end, row - 1);
        assert(s.span_row(a, end, row - 1) == s.span_row(below, end, row - 1));
        assert(s.span_before(a, end, row) =~= first + s.span_before(below, end, row));
    }
}

/// Text from several rows is the rest of the first row, a line break, and the text from
/// the beginning of the next row on.
pub proof fn law_text_of_rows_is_joined_by_line_breaks(
    s: Screen,
    a: (usize, usize),
    b: (usize, usize),
)
    requires
        s.wf(),
        a.1 < b.1,
        a.0 < s.cols,
    ensures
        s.span(a, b) == s.span(a, ((s.cols - 1) as usize, a.1)).push('\n') + s.span(
            (0, (a.1 + 1) as usize),
            b,
        ),
{
    let below = (0usize, (a.1 + 1) as usize);
    let edge = ((s.cols - 1) as usize, a.1);
    assert(crate::selection::in_order(a, b) == (a, b));
    assert(crate::selection::in_order(below, b) == (below, b));
    assert(crate::selection::in_order(a, edge) == (a, edge));
    lemma_span_rows_below(s, a, below, b, b.1 as int);
    assert(s.span_row(a, b, b.1 as int) == s.span_row(below, b, b.1 as int));
    assert(s.span_before(a, edge, a.1 as int) =~= Seq::<char>::empty());
    assert(s.span(a, edge) =~= s.span_row(a, edge, a.1 as int));
    assert(s.span_row(a, edge, a.1 as int) == s.span_row(a, b, a.1 as int));
    assert(s.span(a, b) =~= s.span_row(a, b, a.1 as int).push('\n') + s.span(below, b));
}

// ---- hyperlinks ----

/// An empty address is no hyperlink, and the identifier 0 leads to none.
pub proof fn law_no_address_is_no_hyperlink(s: Screen)
    ensures
        s.link_uri(0) is None,
        s.registered(Seq::empty()) == s,
        s.registered_id(Seq::empty()) == 0,
{
}

/// A hyperlink that is open is written into every cell until it is closed, whatever the
/// colours; opening it changes nothing else.
pub proof fn law_a_hyperlink_is_open_until_it_is_closed(s: Screen, uri: Seq<char>, c: char)
    ensures
        ({
            let id = s.registered_id(uri);
            let open = s.osc_link(uri);
            &&& open.pen == (Pen { link: id, ..s.pen })
            &&& open.link == id
            &&& open.pen.stamp(c).link == id
            &&& open.sgr(Seq::empty()).pen.stamp(c).link == id
            &&& open == (Screen { links: open.links, link: id, pen: open.pen, ..s })
        }),
        s.osc_link(Seq::empty()).pen.stamp(c).link == 0,
{
    let id = s.registered_id(uri);
    let open = s.osc_link(uri);
    assert(open == s.registered(uri).set_link(id));
    assert(open.sgr(Seq::empty()) == open.with_pen(crate::cell::plain_pen(id)));
    law_no_address_is_no_hyperlink(s);
    assert(s.osc_link(Seq::empty()) == s.set_link(0));
}

} // verus!
