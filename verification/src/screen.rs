//! The screen as a mathematical value, and what each operation makes of it.

use vstd::prelude::*;

use crate::cell::{Cell, Pen, SavedCursor};
use crate::event::EventView;
use crate::modes::Modes;

verus! {

/// The most bytes of a device control string that are kept.
pub const DCS_LIMIT: usize = 0x10_0000;

/// How many lines of history are kept unless set otherwise.
pub const DEFAULT_HISTORY: usize = 5000;

/// The main screen while an application works on the alternate one.
#[verifier::ext_equal]
pub struct AltScreen {
    pub cells: Seq<Seq<Cell>>,
    pub cx: int,
    pub cy: int,
    pub saved: Option<SavedCursor>,
}

/// The state of a screen.
#[verifier::ext_equal]
pub struct Screen {
    pub cols: int,
    pub rows: int,
    /// The rows from top to bottom, each `cols` cells long.
    pub cells: Seq<Seq<Cell>>,
    /// The column of the cursor.
    pub cx: int,
    /// The row of the cursor.
    pub cy: int,
    pub pen: Pen,
    pub modes: Modes,
    /// The first row of the scroll region.
    pub top: int,
    /// The last row of the scroll region.
    pub bottom: int,
    pub saved: Option<SavedCursor>,
    /// The main screen put aside, while the alternate screen is shown.
    pub alt: Option<AltScreen>,
    /// The lines that have scrolled off the main screen, oldest first.
    pub history: Seq<Seq<Cell>>,
    pub history_max: int,
    /// How many lines the view is scrolled back.
    pub view_offset: int,
    /// The last column has been written; the next character breaks the line.
    pub wrap_pending: bool,
    /// The events not yet taken, oldest first.
    pub events: Seq<EventView>,
    /// The hyperlink that is open, 0 for none.
    pub link: u16,
    /// The hyperlinks seen so far; a link's identifier is its place counted from 1.
    pub links: Seq<Seq<char>>,
    /// The bytes of the device control string that is being received.
    pub dcs_buf: Seq<u8>,
    /// The final character of its introducer.
    pub dcs_action: char,
}

/// A raster of cells, given by the cell at each column and row.
pub open spec fn raster(cols: int, rows: int, f: spec_fn(int, int) -> Cell) -> Seq<Seq<Cell>> {
    Seq::new(rows as nat, |r: int| Seq::new(cols as nat, |c: int| f(c, r)))
}

/// A raster of cells that are all the same.
pub open spec fn uniform(cols: int, rows: int, cell: Cell) -> Seq<Seq<Cell>> {
    raster(cols, rows, |c: int, r: int| cell)
}

/// A row of cells that are all the same.
pub open spec fn uniform_row(cols: int, cell: Cell) -> Seq<Cell> {
    Seq::new(cols as nat, |c: int| cell)
}

/// Whether `cells` is `rows` rows of `cols` cells.
pub open spec fn shaped(cells: Seq<Seq<Cell>>, cols: int, rows: int) -> bool {
    &&& cells.len() == rows
    &&& forall|r: int| 0 <= r < rows ==> (#[trigger] cells[r]).len() == cols
}

/// The last `n` elements of a sequence, or all of it where it has fewer.
pub open spec fn last_of<T>(s: Seq<T>, n: int) -> Seq<T> {
    if s.len() <= n {
        s
    } else {
        s.skip(s.len() - n)
    }
}

/// The top left part of a raster, cut or filled up with empty cells to a size.
pub open spec fn top_left(cells: Seq<Seq<Cell>>, cols: int, rows: int) -> Seq<Seq<Cell>> {
    raster(
        cols,
        rows,
        |c: int, r: int|
            if r < cells.len() && c < cells[r].len() {
                cells[r][c]
            } else {
                crate::cell::empty_cell()
            },
    )
}

pub proof fn lemma_top_left_shape(cells: Seq<Seq<Cell>>, cols: int, rows: int)
    requires
        cols >= 0,
        rows >= 0,
    ensures
        shaped(top_left(cells, cols, rows), cols, rows),
{
}

/// A raster in which the rows `first` to `last` have moved up by `n`, with the row
/// `fresh` in the places left free.
pub open spec fn moved_up(
    cells: Seq<Seq<Cell>>,
    first: int,
    last: int,
    n: int,
    fresh: Seq<Cell>,
) -> Seq<Seq<Cell>> {
    Seq::new(
        cells.len(),
        |r: int|
            if first <= r <= last {
                if r + n <= last {
                    cells[r + n]
                } else {
                    fresh
                }
            } else {
                cells[r]
            },
    )
}

/// A raster in which the rows `first` to `last` have moved down by `n`, with the
/// row `fresh` in the places left free.
pub open spec fn moved_down(
    cells: Seq<Seq<Cell>>,
    first: int,
    last: int,
    n: int,
    fresh: Seq<Cell>,
) -> Seq<Seq<Cell>> {
    Seq::new(
        cells.len(),
        |r: int|
            if first <= r <= last {
                if r - n >= first {
                    cells[r - n]
                } else {
                    fresh
                }
            } else {
                cells[r]
            },
    )
}

/// A row in which the other half of a wide character at `col` has been blanked:
/// the left half where `col` holds a right one, the right half where `col` holds
/// a left one.
pub open spec fn without_partner(row: Seq<Cell>, col: int) -> Seq<Cell> {
    if !(0 <= col < row.len()) {
        row
    } else if row[col].wide_spacer && col > 0 {
        row.update(col - 1, crate::cell::empty_cell())
    } else if crate::width::columns_of(row[col].c) == 2 && col + 1 < row.len() && row[col
        + 1].wide_spacer {
        row.update(col + 1, crate::cell::empty_cell())
    } else {
        row
    }
}

/// A row in which a character of `w` columns has been written at `col`: `cell`,
/// and `spacer` in the second column of a wide one, if the row has it. What is
/// half covered is blanked.
pub open spec fn written(row: Seq<Cell>, col: int, w: int, cell: Cell, spacer: Cell) -> Seq<Cell> {
    let row0 = without_partner(row, col);
    let row1 = if w == 2 {
        without_partner(row0, col + 1)
    } else {
        row0
    };
    let row2 = row1.update(col, cell);
    if w == 2 && col + 1 < row.len() {
        row2.update(col + 1, spacer)
    } else {
        row2
    }
}

/// The characters that a run of cells shows: the right halves of wide characters
/// show none.
pub open spec fn shown(cells: Seq<Cell>) -> Seq<char>
    decreases cells.len(),
{
    if cells.len() == 0 {
        Seq::empty()
    } else if cells.last().wide_spacer {
        shown(cells.drop_last())
    } else {
        shown(cells.drop_last()).push(cells.last().c)
    }
}

/// Text without the spaces at its end.
pub open spec fn trim_spaces(text: Seq<char>) -> Seq<char>
    decreases text.len(),
{
    if text.len() > 0 && text.last() == ' ' {
        trim_spaces(text.drop_last())
    } else {
        text
    }
}

/// The place of the first element equal to `x`, or the length where there is none.
pub open spec fn first_place<T>(s: Seq<T>, x: T) -> int
    decreases s.len(),
{
    if s.len() == 0 {
        0
    } else if s[0] == x {
        0
    } else {
        1 + first_place(s.skip(1), x)
    }
}

pub proof fn lemma_first_place<T>(s: Seq<T>, x: T, n: int)
    requires
        0 <= n <= s.len(),
        forall|j: int| 0 <= j < n ==> s[j] != x,
        n < s.len() ==> s[n] == x,
    ensures
        first_place(s, x) == n,
    decreases s.len(),
{
    if n > 0 {
        assert forall|j: int| 0 <= j < n - 1 implies s.skip(1)[j] != x by {
            assert(s[j + 1] != x);
        }
        lemma_first_place(s.skip(1), x, n - 1);
    }
}

/// Bytes with each doubled escape byte made single.
pub open spec fn undoubled(s: Seq<u8>) -> Seq<u8>
    decreases s.len(),
{
    if s.len() == 0 {
        Seq::empty()
    } else if s.len() >= 2 && s[0] == 0x1b && s[1] == 0x1b {
        seq![0x1bu8] + undoubled(s.skip(2))
    } else {
        seq![s[0]] + undoubled(s.skip(1))
    }
}

/// The bytes that mark a device control string as passed through by tmux.
pub open spec fn tmux_prefix() -> Seq<u8> {
    seq![0x74u8, 0x6du8, 0x75u8, 0x78u8, 0x3bu8]
}

impl Screen {
    /// The screen of a terminal that has just been switched on.
    pub open spec fn start(cols: int, rows: int) -> Screen {
        let cols = vstd::math::max(cols, 1);
        let rows = vstd::math::max(rows, 1);
        Screen {
            cols,
            rows,
            cells: uniform(cols, rows, crate::cell::empty_cell()),
            cx: 0,
            cy: 0,
            pen: crate::cell::plain_pen(0),
            modes: crate::modes::initial_modes(),
            top: 0,
            bottom: rows - 1,
            saved: None,
            alt: None,
            history: Seq::empty(),
            history_max: DEFAULT_HISTORY as int,
            view_offset: 0,
            wrap_pending: false,
            events: Seq::empty(),
            link: 0,
            links: Seq::empty(),
            dcs_buf: Seq::empty(),
            dcs_action: '\0',
        }
    }

    /// What holds of every screen: the raster has its size, the cursor is on it,
    /// the scroll region lies in it, the screen put aside has the same size, the
    /// history keeps to its limit.
    pub open spec fn wf(self) -> bool {
        &&& 1 <= self.cols <= usize::MAX
        &&& 1 <= self.rows <= usize::MAX
        &&& shaped(self.cells, self.cols, self.rows)
        &&& 0 <= self.cx < self.cols
        &&& 0 <= self.cy < self.rows
        &&& 0 <= self.top <= self.bottom < self.rows
        &&& self.alt matches Some(a) ==> {
            &&& shaped(a.cells, self.cols, self.rows)
            &&& a.cx >= 0
            &&& a.cy >= 0
        }
        &&& 1 <= self.history_max
        &&& self.history.len() <= self.history_max
        &&& self.view_offset >= 0
        &&& self.dcs_buf.len() <= DCS_LIMIT
    }

    pub open spec fn on_alt(self) -> bool {
        self.alt is Some
    }

    // ---- reading ----

    /// The cell at a column and row of the live screen; off it, an empty cell.
    pub open spec fn cell(self, col: int, row: int) -> Cell {
        if 0 <= col < self.cols && 0 <= row < self.rows {
            self.cells[row][col]
        } else {
            crate::cell::empty_cell()
        }
    }

    /// The cell shown at a column and row, with the view scrolled back: the lines
    /// of the history stand above those of the live screen.
    pub open spec fn visible_cell(self, col: int, row: int) -> Cell {
        let line = row - self.view_offset;
        if line >= 0 || self.view_offset == 0 {
            self.cell(col, line)
        } else if line + self.history.len() < 0 {
            crate::cell::empty_cell()
        } else {
            let old = self.history[line + self.history.len()];
            if 0 <= col < old.len() {
                old[col]
            } else {
                crate::cell::empty_cell()
            }
        }
    }

    /// The cells shown in columns `from` to `to` (not included) of a row.
    pub open spec fn visible_run(self, row: int, from: int, to: int) -> Seq<Cell> {
        Seq::new(
            if from < to {
                (to - from) as nat
            } else {
                0
            },
            |i: int| self.visible_cell(from + i, row),
        )
    }

    /// The text of one row of a span: from the start's column in its first row,
    /// up to and with the end's column in its last, the whole row between.
    /// Spaces at the end are left out.
    pub open spec fn span_row(self, start: (usize, usize), end: (usize, usize), row: int) -> Seq<
        char,
    > {
        let from = if row == start.1 {
            start.0 as int
        } else {
            0
        };
        let to = if row == end.1 {
            vstd::math::min(end.0 + 1, self.cols)
        } else {
            self.cols
        };
        trim_spaces(shown(self.visible_run(row, from, to)))
    }

    /// The text of the rows of a span before `row`, each with its line break.
    pub open spec fn span_before(self, start: (usize, usize), end: (usize, usize), row: int) -> Seq<
        char,
    >
        decreases row - start.1,
    {
        if row <= start.1 {
            Seq::empty()
        } else {
            (self.span_before(start, end, row - 1) + self.span_row(start, end, row - 1)).push('\n')
        }
    }

    /// The text between two places, both included: the rows joined by line breaks.
    pub open spec fn span(self, a: (usize, usize), b: (usize, usize)) -> Seq<char> {
        let (start, end) = crate::selection::in_order(a, b);
        self.span_before(start, end, end.1 as int) + self.span_row(start, end, end.1 as int)
    }

    // ---- hyperlinks ----

    /// The identifier of the link at a place in the table. Identifiers have 16
    /// bits and wrap round.
    pub open spec fn link_id(place: int) -> u16 {
        ((place + 1) % 0x1_0000) as u16
    }

    pub open spec fn registered(self, uri: Seq<char>) -> Screen {
        if uri.len() == 0 || self.links.contains(uri) {
            self
        } else {
            Screen { links: self.links.push(uri), ..self }
        }
    }

    /// The identifier that registering a link gives.
    pub open spec fn registered_id(self, uri: Seq<char>) -> u16 {
        if uri.len() == 0 {
            0
        } else {
            Screen::link_id(first_place(self.links, uri))
        }
    }

    pub open spec fn link_uri(self, id: u16) -> Option<Seq<char>> {
        if 1 <= id <= self.links.len() {
            Some(self.links[id - 1])
        } else {
            None
        }
    }

    pub open spec fn set_link(self, link: u16) -> Screen {
        Screen { link, pen: Pen { link, ..self.pen }, ..self }
    }

    // ---- pen and modes ----

    pub open spec fn with_pen(self, pen: Pen) -> Screen {
        Screen { pen, ..self }
    }

    pub open spec fn with_modes(self, modes: Modes) -> Screen {
        Screen { modes, ..self }
    }

    // ---- device control strings ----

    pub open spec fn dcs_start(self, action: char) -> Screen {
        Screen { dcs_action: action, dcs_buf: Seq::empty(), ..self }
    }

    pub open spec fn dcs_put(self, byte: u8) -> Screen {
        if self.dcs_buf.len() < DCS_LIMIT {
            Screen { dcs_buf: self.dcs_buf.push(byte), ..self }
        } else {
            self
        }
    }

    pub open spec fn dcs_cleared(self) -> Screen {
        Screen { dcs_buf: Seq::empty(), dcs_action: '\0', ..self }
    }

    /// The device control string as it was sent, from its final character on.
    pub open spec fn dcs_string(self) -> Seq<u8> {
        if self.dcs_action as u32 <= 0x7f {
            seq![self.dcs_action as u8] + self.dcs_buf
        } else {
            self.dcs_buf
        }
    }

    /// The bytes that tmux has wrapped into the device control string, if it is
    /// such a one.
    pub open spec fn dcs_inner(self) -> Option<Seq<u8>> {
        let full = self.dcs_string();
        if full.len() >= 5 && full.take(5) == tmux_prefix() {
            Some(undoubled(full.skip(5)))
        } else {
            None
        }
    }

    // ---- events ----

    pub open spec fn push_event(self, ev: EventView) -> Screen {
        Screen { events: self.events.push(ev), ..self }
    }

    pub open spec fn drained(self) -> Screen {
        Screen { events: Seq::empty(), ..self }
    }

    // ---- the view ----

    pub open spec fn set_scrollback_max(self, n: int) -> Screen {
        let limit = vstd::math::max(n, 1);
        Screen { history_max: limit, history: last_of(self.history, limit), ..self }
    }

    pub open spec fn scroll_view_up(self, n: int) -> Screen {
        if self.on_alt() {
            self
        } else {
            Screen {
                view_offset: vstd::math::min(self.view_offset + n, self.history.len() as int),
                ..self
            }
        }
    }

    pub open spec fn scroll_view_down(self, n: int) -> Screen {
        Screen { view_offset: vstd::math::max(self.view_offset - n, 0), ..self }
    }

    pub open spec fn reset_view(self) -> Screen {
        Screen { view_offset: 0, ..self }
    }

    pub open spec fn resize(self, cols: int, rows: int) -> Screen {
        let cols = vstd::math::max(cols, 1);
        let rows = vstd::math::max(rows, 1);
        if cols == self.cols && rows == self.rows {
            self
        } else {
            Screen {
                cols,
                rows,
                cells: top_left(self.cells, cols, rows),
                alt: match self.alt {
                    Some(a) => Some(AltScreen { cells: top_left(a.cells, cols, rows), ..a }),
                    None => None,
                },
                top: 0,
                bottom: rows - 1,
                cx: vstd::math::min(self.cx, cols - 1),
                cy: vstd::math::min(self.cy, rows - 1),
                wrap_pending: false,
                view_offset: 0,
                ..self
            }
        }
    }

    // ---- writing ----

    /// The screen with a character of `w` columns written at the cursor, which stays.
    /// What it half covers is blanked.
    pub open spec fn with_char(self, c: char, w: int) -> Screen {
        let row = written(
            self.cells[self.cy],
            self.cx,
            w,
            self.pen.stamp(c),
            self.pen.spacer(),
        );
        Screen { cells: self.cells.update(self.cy, row), ..self }
    }

    /// The screen after a character of `w` columns has been put at the cursor, where
    /// it fits.
    pub open spec fn put(self, c: char, w: int) -> Screen {
        self.with_char(c, w).advanced(w)
    }

    /// The screen with the cursor moved past a character of `w` columns. In the last
    /// column it stays, and a line break is due.
    pub open spec fn advanced(self, w: int) -> Screen {
        let full = self.cx + w >= self.cols;
        Screen {
            cx: if full {
                self.cols - 1
            } else {
                self.cx + w
            },
            wrap_pending: full || self.wrap_pending,
            ..self
        }
    }

    /// The screen with the line break made that the last column has left due.
    pub open spec fn wrapped(self) -> Screen {
        if !self.wrap_pending {
            self
        } else if self.modes.autowrap {
            (Screen { cx: 0, ..self }).index()
        } else {
            Screen { wrap_pending: false, ..self }
        }
    }

    /// The screen after a character of `w` columns has been put where it fits: a wide
    /// one that does not fit on the line goes to the next, or is dropped where lines do
    /// not wrap.
    pub open spec fn placed(self, c: char, w: int) -> Screen {
        if w == 2 && self.cx + 1 >= self.cols {
            if self.modes.autowrap {
                (Screen { cx: 0, ..self }).index().put(c, w)
            } else {
                self
            }
        } else {
            self.put(c, w)
        }
    }

    /// The screen after a character has been printed. One that takes no column
    /// leaves it as it is.
    pub open spec fn print(self, c: char) -> Screen {
        let w = crate::width::columns_of(c);
        if w == 0 {
            self.reset_view()
        } else {
            self.reset_view().wrapped().placed(c, w)
        }
    }

    /// One line down; from the last row of the scroll region, the region scrolls.
    pub open spec fn index(self) -> Screen {
        let s = Screen { wrap_pending: false, ..self };
        if s.cy == s.bottom {
            s.scroll_up_region(1)
        } else if s.cy + 1 < s.rows {
            Screen { cy: s.cy + 1, ..s }
        } else {
            s
        }
    }

    pub open spec fn linefeed(self) -> Screen {
        self.reset_view().index()
    }

    /// One line up; from the first row of the scroll region, the region scrolls.
    pub open spec fn reverse_index(self) -> Screen {
        let s = Screen { wrap_pending: false, ..self };
        if s.cy == s.top {
            s.scroll_down_region(1)
        } else if s.cy > 0 {
            Screen { cy: s.cy - 1, ..s }
        } else {
            s
        }
    }

    pub open spec fn carriage_return(self) -> Screen {
        Screen { cx: 0, wrap_pending: false, ..self }
    }

    pub open spec fn backspace(self) -> Screen {
        Screen { cx: vstd::math::max(self.cx - 1, 0), wrap_pending: false, ..self }
    }

    /// To the next column that is a multiple of eight.
    pub open spec fn tab(self) -> Screen {
        Screen {
            cx: vstd::math::min((self.cx / 8 + 1) * 8, self.cols - 1),
            wrap_pending: false,
            ..self
        }
    }

    // ---- scrolling ----

    /// How many rows the scroll region has.
    pub open spec fn region_rows(self) -> int {
        self.bottom - self.top + 1
    }

    /// A row of what erasing leaves behind.
    pub open spec fn blank_row(self) -> Seq<Cell> {
        uniform_row(self.cols, self.pen.blank())
    }

    /// The scroll region moved up by `n` rows, blank rows below. What leaves a
    /// region that begins at the top of the main screen becomes history.
    pub open spec fn scroll_up_region(self, n: int) -> Screen {
        let n = vstd::math::min(n, self.region_rows());
        Screen {
            cells: moved_up(self.cells, self.top, self.bottom, n, self.blank_row()),
            history: if self.top == 0 && !self.on_alt() {
                last_of(self.history + self.cells.take(n), self.history_max)
            } else {
                self.history
            },
            ..self
        }
    }

    /// The scroll region moved down by `n` rows, blank rows above.
    pub open spec fn scroll_down_region(self, n: int) -> Screen {
        let n = vstd::math::min(n, self.region_rows());
        Screen {
            cells: moved_down(self.cells, self.top, self.bottom, n, self.blank_row()),
            ..self
        }
    }

    pub open spec fn scroll_up(self, n: int) -> Screen {
        self.scroll_up_region(vstd::math::max(n, 1))
    }

    pub open spec fn scroll_down(self, n: int) -> Screen {
        self.scroll_down_region(vstd::math::max(n, 1))
    }

    /// A new scroll region, with the cursor at its top left. One of fewer than two
    /// rows is ignored.
    pub open spec fn set_scroll_region(self, top: int, bottom: int) -> Screen {
        let top = vstd::math::min(top, self.rows - 1);
        let bottom = vstd::math::min(bottom, self.rows - 1);
        if top >= bottom {
            self
        } else {
            Screen { top, bottom, cx: 0, cy: top, wrap_pending: false, ..self }
        }
    }

    // ---- the cursor ----

    pub open spec fn move_to(self, col: int, row: int) -> Screen {
        Screen {
            cx: vstd::math::min(col, self.cols - 1),
            cy: vstd::math::min(row, self.rows - 1),
            wrap_pending: false,
            ..self
        }
    }

    /// Up: in the scroll region no further than its first row, outside of it no
    /// further than the first row of the screen.
    pub open spec fn move_up(self, n: int) -> Screen {
        let to = self.cy - vstd::math::max(n, 1);
        let limit = if self.top <= self.cy <= self.bottom {
            self.top
        } else {
            0
        };
        Screen { cy: vstd::math::max(to, limit), wrap_pending: false, ..self }
    }

    /// Down, but not past the last row of the scroll region, unless the cursor is
    /// below it already.
    pub open spec fn move_down(self, n: int) -> Screen {
        let to = self.cy + vstd::math::max(n, 1);
        let limit = if self.cy <= self.bottom {
            self.bottom
        } else {
            self.rows - 1
        };
        Screen { cy: vstd::math::min(to, limit), wrap_pending: false, ..self }
    }

    pub open spec fn move_left(self, n: int) -> Screen {
        Screen {
            cx: vstd::math::max(self.cx - vstd::math::max(n, 1), 0),
            wrap_pending: false,
            ..self
        }
    }

    pub open spec fn move_right(self, n: int) -> Screen {
        Screen {
            cx: vstd::math::min(self.cx + vstd::math::max(n, 1), self.cols - 1),
            wrap_pending: false,
            ..self
        }
    }

    pub open spec fn move_to_col(self, col: int) -> Screen {
        Screen { cx: vstd::math::min(col, self.cols - 1), wrap_pending: false, ..self }
    }

    pub open spec fn move_to_row(self, row: int) -> Screen {
        Screen { cy: vstd::math::min(row, self.rows - 1), wrap_pending: false, ..self }
    }

    pub open spec fn save_cursor(self) -> Screen {
        Screen {
            saved: Some(
                SavedCursor {
                    cx: self.cx as usize,
                    cy: self.cy as usize,
                    pen: self.pen,
                    wrap_pending: self.wrap_pending,
                },
            ),
            ..self
        }
    }

    pub open spec fn restore_cursor(self) -> Screen {
        match self.saved {
            Some(s) => Screen {
                cx: vstd::math::min(s.cx as int, self.cols - 1),
                cy: vstd::math::min(s.cy as int, self.rows - 1),
                pen: s.pen,
                wrap_pending: s.wrap_pending,
                ..self
            },
            None => self,
        }
    }

    // ---- inserting, deleting, erasing ----

    /// How many of `n` columns there are from the cursor on; none counts as one.
    pub open spec fn columns_left(self, n: int) -> int {
        vstd::math::min(vstd::math::max(n, 1), self.cols - self.cx)
    }

    /// The screen with the row of the cursor made anew.
    pub open spec fn with_cursor_row(self, f: spec_fn(int) -> Cell) -> Screen {
        Screen { cells: self.cells.update(self.cy, Seq::new(self.cols as nat, f)), ..self }
    }

    pub open spec fn insert_chars(self, n: int) -> Screen {
        let k = self.columns_left(n);
        let row = self.cells[self.cy];
        self.with_cursor_row(
            |c: int|
                if c < self.cx {
                    row[c]
                } else if c < self.cx + k {
                    self.pen.blank()
                } else {
                    row[c - k]
                },
        )
    }

    pub open spec fn delete_chars(self, n: int) -> Screen {
        let k = self.columns_left(n);
        let row = self.cells[self.cy];
        self.with_cursor_row(
            |c: int|
                if c < self.cx {
                    row[c]
                } else if c + k < self.cols {
                    row[c + k]
                } else {
                    self.pen.blank()
                },
        )
    }

    pub open spec fn erase_chars(self, n: int) -> Screen {
        let k = self.columns_left(n);
        let row = self.cells[self.cy];
        self.with_cursor_row(
            |c: int|
                if self.cx <= c < self.cx + k {
                    self.pen.blank()
                } else {
                    row[c]
                },
        )
    }

    /// How many of `n` rows there are from the cursor to the end of the region;
    /// none counts as one.
    pub open spec fn rows_left(self, n: int) -> int {
        vstd::math::min(vstd::math::max(n, 1), self.bottom - self.cy + 1)
    }

    pub open spec fn insert_lines(self, n: int) -> Screen {
        if self.cy < self.top || self.cy > self.bottom {
            self
        } else {
            let k = self.rows_left(n);
            Screen {
                cells: moved_down(self.cells, self.cy, self.bottom, k, self.blank_row()),
                cx: 0,
                wrap_pending: false,
                ..self
            }
        }
    }

    pub open spec fn delete_lines(self, n: int) -> Screen {
        if self.cy < self.top || self.cy > self.bottom {
            self
        } else {
            let k = self.rows_left(n);
            Screen {
                cells: moved_up(self.cells, self.cy, self.bottom, k, self.blank_row()),
                cx: 0,
                wrap_pending: false,
                ..self
            }
        }
    }

    /// Whether a place is erased by erasing in the display: from the cursor on
    /// (mode 0), up to and with the cursor (mode 1), or everywhere.
    pub open spec fn display_erased(self, mode: u16, c: int, r: int) -> bool {
        if mode == 0 {
            r > self.cy || (r == self.cy && c >= self.cx)
        } else if mode == 1 {
            r < self.cy || (r == self.cy && c <= self.cx)
        } else {
            true
        }
    }

    pub open spec fn erase_in_display(self, mode: u16) -> Screen {
        Screen {
            cells: raster(
                self.cols,
                self.rows,
                |c: int, r: int|
                    if self.display_erased(mode, c, r) {
                        self.pen.blank()
                    } else {
                        self.cells[r][c]
                    },
            ),
            ..self
        }
    }

    /// Whether a column of the cursor's row is erased by erasing in the line: from
    /// the cursor on (mode 0), up to and with it (mode 1), or everywhere.
    pub open spec fn line_erased(self, mode: u16, c: int) -> bool {
        if mode == 0 {
            c >= self.cx
        } else if mode == 1 {
            c <= self.cx
        } else {
            true
        }
    }

    pub open spec fn erase_in_line(self, mode: u16) -> Screen {
        let row = self.cells[self.cy];
        self.with_cursor_row(
            |c: int|
                if self.line_erased(mode, c) {
                    self.pen.blank()
                } else {
                    row[c]
                },
        )
    }

    // ---- the alternate screen ----

    pub open spec fn enter_alt_screen(self) -> Screen {
        if self.on_alt() {
            self
        } else {
            Screen {
                alt: Some(
                    AltScreen {
                        cells: self.cells,
                        cx: self.cx,
                        cy: self.cy,
                        saved: self.saved,
                    },
                ),
                cells: uniform(self.cols, self.rows, crate::cell::empty_cell()),
                saved: None,
                cx: 0,
                cy: 0,
                top: 0,
                bottom: self.rows - 1,
                wrap_pending: false,
                view_offset: 0,
                ..self
            }
        }
    }

    pub open spec fn leave_alt_screen(self) -> Screen {
        match self.alt {
            Some(a) => Screen {
                alt: None,
                cells: a.cells,
                cx: vstd::math::min(a.cx, self.cols - 1),
                cy: vstd::math::min(a.cy, self.rows - 1),
                saved: a.saved,
                top: 0,
                bottom: self.rows - 1,
                wrap_pending: false,
                view_offset: 0,
                ..self
            },
            None => self,
        }
    }

    /// The hard reset: everything as at the start, but for the size, the history,
    /// the events, the table of links and a device control string under way.
    pub open spec fn full_reset(self) -> Screen {
        Screen {
            history: self.history,
            history_max: self.history_max,
            events: self.events,
            links: self.links,
            dcs_buf: self.dcs_buf,
            dcs_action: self.dcs_action,
            ..Screen::start(self.cols, self.rows)
        }
    }
}

} // verus!
