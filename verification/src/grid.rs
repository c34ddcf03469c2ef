//! The screen of a terminal: cells, cursor, pen, modes, scroll region, alternate
//! screen, history and events.

use std::collections::VecDeque;

use vstd::prelude::*;

pub use crate::cell::{Cell, Color};
pub use crate::event::TermEvent;
pub use crate::modes::{Modes, MouseProto};
pub use crate::selection::Selection;
pub use crate::theme::Theme;
pub use crate::width::char_width;

use crate::cell::{Pen, SavedCursor};
use crate::rows::{fill, filled_rows, reflow_keep_topleft, shift_down, shift_up};
use crate::screen::{AltScreen, Screen, DCS_LIMIT, DEFAULT_HISTORY};
use crate::selection::order_places;
use crate::text::str_eq;

verus! {

/// The main screen while the alternate one is shown.
struct AltSaved {
    lines: Vec<Vec<Cell>>,
    cx: usize,
    cy: usize,
    saved_cursor: Option<SavedCursor>,
}

/// A screen and all that belongs to it.
pub struct Grid {
    pub cols: usize,
    pub rows: usize,
    lines: Vec<Vec<Cell>>,
    /// The column of the cursor.
    pub cx: usize,
    /// The row of the cursor.
    pub cy: usize,
    pen: Pen,
    pub modes: Modes,
    scroll_top: usize,
    scroll_bottom: usize,
    saved_cursor: Option<SavedCursor>,
    alt: Option<AltSaved>,
    scrollback: VecDeque<Vec<Cell>>,
    scrollback_max: usize,
    /// How many lines the view is scrolled back, 0 for the live screen.
    pub view_offset: usize,
    wrap_pending: bool,
    events: Vec<TermEvent>,
    cur_link: u16,
    link_table: Vec<String>,
    dcs_buf: Vec<u8>,
    dcs_action: char,
}

/// What a table of links holds.
pub open spec fn links_view(links: Seq<String>) -> Seq<Seq<char>> {
    links.map_values(|s: String| s@)
}

impl AltSaved {
    spec fn put_aside(self) -> AltScreen {
        AltScreen {
            cells: crate::rows::rows_view(self.lines@),
            cx: self.cx as int,
            cy: self.cy as int,
            saved: self.saved_cursor,
        }
    }
}

impl View for Grid {
    type V = Screen;

    closed spec fn view(&self) -> Screen {
        Screen {
            cols: self.cols as int,
            rows: self.rows as int,
            cells: crate::rows::rows_view(self.lines@),
            cx: self.cx as int,
            cy: self.cy as int,
            pen: self.pen,
            modes: self.modes,
            top: self.scroll_top as int,
            bottom: self.scroll_bottom as int,
            saved: self.saved_cursor,
            alt: match self.alt {
                Some(a) => Some(a.put_aside()),
                None => None,
            },
            history: crate::rows::rows_view(self.scrollback@),
            history_max: self.scrollback_max as int,
            view_offset: self.view_offset as int,
            wrap_pending: self.wrap_pending,
            events: crate::event::events_view(self.events@),
            link: self.cur_link,
            links: links_view(self.link_table@),
            dcs_buf: self.dcs_buf@,
            dcs_action: self.dcs_action,
        }
    }
}

impl Grid {
    /// The screen is in order.
    pub open spec fn wf(&self) -> bool {
        self@.wf()
    }

    /// A blank screen of at least one column and one row.
    pub fn new(cols: usize, rows: usize) -> (g: Grid)
        ensures
            g.wf(),
            g@ == Screen::start(cols as int, rows as int),
    {
        let cols: usize = if cols < 1 {
            1
        } else {
            cols
        };
        let rows: usize = if rows < 1 {
            1
        } else {
            rows
        };
        let lines = filled_rows(cols, rows, Cell::default());
        let g = Grid {
            cols,
            rows,
            lines,
            cx: 0,
            cy: 0,
            pen: Pen::default(),
            modes: Modes::default(),
            scroll_top: 0,
            scroll_bottom: rows - 1,
            saved_cursor: None,
            alt: None,
            scrollback: VecDeque::new(),
            scrollback_max: DEFAULT_HISTORY,
            view_offset: 0,
            wrap_pending: false,
            events: Vec::new(),
            cur_link: 0,
            link_table: Vec::new(),
            dcs_buf: Vec::new(),
            dcs_action: '\0',
        };
        assert(g@ =~= Screen::start(cols as int, rows as int));
        g
    }

    // ---- hyperlinks ----

    /// Registers a hyperlink, or finds it where it is known, and gives its
    /// identifier. The empty link has the identifier 0.
    pub fn register_link(&mut self, uri: &str) -> (id: u16)
        requires
            old(self).wf(),
        ensures
            final(self).wf(),
            final(self)@ == old(self)@.registered(uri@),
            id == old(self)@.registered_id(uri@),
    {
        proof {
            vstd::utf8::encode_utf8_decode_utf8(uri@);
        }
        if str_eq(uri, "") {
            proof {
                reveal_strlit("");
            }
            return 0;
        }
        proof {
            reveal_strlit("");
            if uri@.len() == 0 {
                assert(uri@ =~= ""@);
            }
        }
        let ghost links = links_view(self.link_table@);
        let mut i: usize = 0;
        while i < self.link_table.len()
            invariant
                *self == *old(self),
                self.wf(),
                uri@.len() > 0,
                links == links_view(self.link_table@),
                i <= links.len(),
                forall|j: int| 0 <= j < i ==> links[j] != uri@,
            decreases links.len() - i,
        {
            if str_eq(self.link_table[i].as_str(), uri) {
                proof {
                    assert(links[i as int] == uri@);
                    crate::screen::lemma_first_place(links, uri@, i as int);
                }
                return link_id(i);
            }
            i += 1;
        }
        proof {
            assert(!links.contains(uri@));
            crate::screen::lemma_first_place(links, uri@, i as int);
        }
        let owned = uri.to_owned();
        self.link_table.push(owned);
        let count: usize = self.link_table.len();
        assert(links_view(self.link_table@) =~= links.push(uri@));
        assert(self@ =~= old(self)@.registered(uri@));
        link_id(count - 1)
    }

    /// The link with an identifier.
    pub fn link_uri(&self, id: u16) -> (uri: Option<&str>)
        requires
            self.wf(),
        ensures
            match uri {
                Some(s) => self@.link_uri(id) == Some(s@),
                None => self@.link_uri(id) is None,
            },
    {
        if id == 0 || id as usize > self.link_table.len() {
            None
        } else {
            Some(self.link_table[id as usize - 1].as_str())
        }
    }

    /// The link of the cell shown at a place.
    pub fn link_at(&self, col: usize, row: usize) -> (uri: Option<String>)
        requires
            self.wf(),
        ensures
            match uri {
                Some(s) => self@.link_uri(self@.visible_cell(col as int, row as int).link) == Some(
                    s@,
                ),
                None => self@.link_uri(self@.visible_cell(col as int, row as int).link) is None,
            },
    {
        let id: u16 = self.visible_cell(col, row).link;
        match self.link_uri(id) {
            Some(s) => Some(s.to_owned()),
            None => None,
        }
    }

    // ---- reading ----

    /// The columns and rows.
    pub fn size(&self) -> (size: (usize, usize))
        requires
            self.wf(),
        ensures
            size.0 == self@.cols,
            size.1 == self@.rows,
    {
        (self.cols, self.rows)
    }

    /// The column and row of the cursor.
    pub fn cursor(&self) -> (place: (usize, usize))
        requires
            self.wf(),
        ensures
            place.0 == self@.cx,
            place.1 == self@.cy,
    {
        (self.cx, self.cy)
    }

    /// The modes that are set.
    pub fn modes(&self) -> (modes: Modes)
        requires
            self.wf(),
        ensures
            modes == self@.modes,
    {
        self.modes
    }

    /// How many lines the view is scrolled back.
    pub fn view_offset(&self) -> (n: usize)
        requires
            self.wf(),
        ensures
            n == self@.view_offset,
    {
        self.view_offset
    }

    pub fn on_alt(&self) -> (r: bool)
        requires
            self.wf(),
        ensures
            r == self@.on_alt(),
    {
        self.alt.is_some()
    }

    /// The cell at a column and row of the live screen; off it, an empty cell.
    pub fn cell(&self, col: usize, row: usize) -> (cell: Cell)
        requires
            self.wf(),
        ensures
            cell == self@.cell(col as int, row as int),
    {
        if col < self.cols && row < self.rows {
            assert(self@.cells[row as int].len() == self.cols);
            self.lines[row][col]
        } else {
            Cell::default()
        }
    }

    /// The cell shown at a column and row, with the view scrolled back.
    pub fn visible_cell(&self, col: usize, row: usize) -> (cell: Cell)
        requires
            self.wf(),
        ensures
            cell == self@.visible_cell(col as int, row as int),
    {
        if row >= self.view_offset {
            return self.cell(col, row - self.view_offset);
        }
        let above: usize = self.view_offset - row;
        let back: usize = self.scrollback.len();
        if above > back {
            return Cell::default();
        }
        let line = &self.scrollback[back - above];
        assert(line@ == self@.history[back - above]);
        if col < line.len() {
            line[col]
        } else {
            Cell::default()
        }
    }

    // ---- device control strings ----

    /// A device control string begins.
    pub fn dcs_start(&mut self, action: char)
        requires
            old(self).wf(),
        ensures
            final(self).wf(),
            final(self)@ == old(self)@.dcs_start(action),
    {
        self.dcs_action = action;
        self.dcs_buf.clear();
        assert(self@ =~= old(self)@.dcs_start(action));
    }

    /// A byte of the device control string. Bytes over the limit are dropped.
    pub fn dcs_put(&mut self, byte: u8)
        requires
            old(self).wf(),
        ensures
            final(self).wf(),
            final(self)@ == old(self)@.dcs_put(byte),
    {
        if self.dcs_buf.len() < DCS_LIMIT {
            self.dcs_buf.push(byte);
        }
        assert(self@ =~= old(self)@.dcs_put(byte));
    }

    /// The device control string ends. Where tmux has wrapped other output into
    /// it, that output is given back, to be interpreted in its place.
    pub fn dcs_end(&mut self) -> (inner: Option<Vec<u8>>)
        requires
            old(self).wf(),
        ensures
            final(self).wf(),
            final(self)@ == old(self)@.dcs_cleared(),
            match inner {
                Some(bytes) => old(self)@.dcs_inner() == Some(bytes@),
                None => old(self)@.dcs_inner() is None,
            },
    {
        let mut full: Vec<u8> = Vec::new();
        let action = self.dcs_action;
        if action <= '\x7f' {
            full.push(action as u8);
        }
        full.extend_from_slice(self.dcs_buf.as_slice());
        assert(full@ =~= old(self)@.dcs_string());
        self.dcs_buf.clear();
        self.dcs_action = '\0';
        assert(self@ =~= old(self)@.dcs_cleared());
        let tmux = full.len() >= 5 && full[0] == 0x74 && full[1] == 0x6d && full[2] == 0x75
            && full[3] == 0x78 && full[4] == 0x3b;
        proof {
            if full@.len() >= 5 {
                let head = full@.take(5);
                if tmux {
                    assert(head =~= crate::screen::tmux_prefix());
                } else if head == crate::screen::tmux_prefix() {
                    assert(head[0] == 0x74 && head[1] == 0x6d && head[2] == 0x75 && head[3]
                        == 0x78 && head[4] == 0x3b);
                }
            }
        }
        if tmux {
            Some(undouble(&full, 5))
        } else {
            None
        }
    }

    // ---- events ----

    pub fn push_event(&mut self, ev: TermEvent)
        requires
            old(self).wf(),
        ensures
            final(self).wf(),
            final(self)@ == old(self)@.push_event(ev@),
    {
        self.events.push(ev);
        assert(self@ =~= old(self)@.push_event(ev@));
    }

    /// Takes the events that have come up, oldest first.
    pub fn drain_events(&mut self) -> (taken: Vec<TermEvent>)
        requires
            old(self).wf(),
        ensures
            final(self).wf(),
            final(self)@ == old(self)@.drained(),
            crate::event::events_view(taken@) == old(self)@.events,
    {
        let mut taken: Vec<TermEvent> = Vec::new();
        std::mem::swap(&mut self.events, &mut taken);
        assert(self@ =~= old(self)@.drained());
        taken
    }

    // ---- the view ----

    /// Drops the oldest lines of the history that are over the limit.
    fn trim_history(&mut self)
        requires
            old(self).scrollback_max >= 1,
        ensures
            *final(self) == (Grid { scrollback: final(self).scrollback, ..*old(self) }),
            crate::rows::rows_view(final(self).scrollback@) == crate::screen::last_of(
                crate::rows::rows_view(old(self).scrollback@),
                old(self).scrollback_max as int,
            ),
    {
        let ghost all = crate::rows::rows_view(self.scrollback@);
        let ghost limit = self.scrollback_max as int;
        let ghost mut gone: int = 0;
        assert(all =~= all.skip(0));
        while self.scrollback.len() > self.scrollback_max
            invariant
                *self == (Grid { scrollback: self.scrollback, ..*old(self) }),
                limit == self.scrollback_max,
                limit >= 1,
                0 <= gone <= all.len(),
                crate::rows::rows_view(self.scrollback@) == all.skip(gone),
                gone == 0 || all.len() - gone >= limit,
            decreases self.scrollback@.len(),
        {
            let ghost before = crate::rows::rows_view(self.scrollback@);
            let _ = self.scrollback.pop_front();
            proof {
                gone = gone + 1;
                assert(crate::rows::rows_view(self.scrollback@) =~= before.skip(1));
                assert(before.skip(1) =~= all.skip(gone));
            }
        }
        proof {
            if all.len() <= limit {
                assert(gone == 0);
            } else {
                assert(self.scrollback@.len() == all.len() - gone);
                assert(gone == all.len() - limit);
            }
        }
    }

    /// Sets how many lines of history are kept, at least one.
    pub fn set_scrollback_max(&mut self, n: usize)
        requires
            old(self).wf(),
        ensures
            final(self).wf(),
            final(self)@ == old(self)@.set_scrollback_max(n as int),
    {
        self.scrollback_max = if n < 1 {
            1
        } else {
            n
        };
        self.trim_history();
        assert(self@ =~= old(self)@.set_scrollback_max(n as int));
    }

    /// Scrolls the view back. There is no history on the alternate screen.
    pub fn scroll_view_up(&mut self, n: usize)
        requires
            old(self).wf(),
        ensures
            final(self).wf(),
            final(self)@ == old(self)@.scroll_view_up(n as int),
    {
        if self.on_alt() {
            return ;
        }
        let back: usize = self.scrollback.len();
        let offset: usize = self.view_offset.saturating_add(n);
        self.view_offset = if offset < back {
            offset
        } else {
            back
        };
        assert(self@ =~= old(self)@.scroll_view_up(n as int));
    }

    pub fn scroll_view_down(&mut self, n: usize)
        requires
            old(self).wf(),
        ensures
            final(self).wf(),
            final(self)@ == old(self)@.scroll_view_down(n as int),
    {
        self.view_offset = self.view_offset.saturating_sub(n);
        assert(self@ =~= old(self)@.scroll_view_down(n as int));
    }

    /// Back to the live screen.
    pub fn reset_view(&mut self)
        requires
            old(self).wf(),
        ensures
            final(self).wf(),
            final(self)@ == old(self)@.reset_view(),
    {
        self.view_offset = 0;
        assert(self@ =~= old(self)@.reset_view());
    }

    /// Gives the screen another size. What is at the top left stays, the cursor is
    /// kept on the screen, the scroll region becomes the whole screen.
    pub fn resize(&mut self, cols: usize, rows: usize)
        requires
            old(self).wf(),
        ensures
            final(self).wf(),
            final(self)@ == old(self)@.resize(cols as int, rows as int),
    {
        let ghost goal = self@.resize(cols as int, rows as int);
        let cols: usize = if cols < 1 {
            1
        } else {
            cols
        };
        let rows: usize = if rows < 1 {
            1
        } else {
            rows
        };
        if cols == self.cols && rows == self.rows {
            return ;
        }
        self.lines = reflow_keep_topleft(&self.lines, cols, rows);
        let aside = self.alt.take();
        self.alt = resize_aside(aside, cols, rows);
        self.cols = cols;
        self.rows = rows;
        self.scroll_top = 0;
        self.scroll_bottom = rows - 1;
        self.cx = min(self.cx, cols - 1);
        self.cy = min(self.cy, rows - 1);
        self.wrap_pending = false;
        self.view_offset = 0;
        proof {
            assert(self@.cells == goal.cells);
            assert(self@.alt == goal.alt);
            assert(self@ == goal);
            crate::screen::lemma_top_left_shape(old(self)@.cells, cols as int, rows as int);
            if let Some(a) = old(self)@.alt {
                crate::screen::lemma_top_left_shape(a.cells, cols as int, rows as int);
            }
        }
    }

    // ---- the pen ----

    /// No attributes; a hyperlink stays open.
    pub fn reset_pen(&mut self)
        requires
            old(self).wf(),
        ensures
            final(self).wf(),
            final(self)@ == old(self)@.with_pen(crate::cell::plain_pen(old(self)@.link)),
    {
        let mut pen = Pen::default();
        pen.link = self.cur_link;
        self.pen = pen;
    }

    pub fn set_fg(&mut self, c: Color)
        requires
            old(self).wf(),
        ensures
            final(self).wf(),
            final(self)@ == old(self)@.with_pen(Pen { fg: c, ..old(self)@.pen }),
    {
        self.pen.fg = c;
    }

    pub fn set_bg(&mut self, c: Color)
        requires
            old(self).wf(),
        ensures
            final(self).wf(),
            final(self)@ == old(self)@.with_pen(Pen { bg: c, ..old(self)@.pen }),
    {
        self.pen.bg = c;
    }

    pub fn set_bold(&mut self, on: bool)
        requires
            old(self).wf(),
        ensures
            final(self).wf(),
            final(self)@ == old(self)@.with_pen(Pen { bold: on, ..old(self)@.pen }),
    {
        self.pen.bold = on;
    }

    pub fn set_dim(&mut self, on: bool)
        requires
            old(self).wf(),
        ensures
            final(self).wf(),
            final(self)@ == old(self)@.with_pen(Pen { dim: on, ..old(self)@.pen }),
    {
        self.pen.dim = on;
    }

    pub fn set_italic(&mut self, on: bool)
        requires
            old(self).wf(),
        ensures
            final(self).wf(),
            final(self)@ == old(self)@.with_pen(Pen { italic: on, ..old(self)@.pen }),
    {
        self.pen.italic = on;
    }

    pub fn set_underline(&mut self, on: bool)
        requires
            old(self).wf(),
        ensures
            final(self).wf(),
            final(self)@ == old(self)@.with_pen(Pen { underline: on, ..old(self)@.pen }),
    {
        self.pen.underline = on;
    }

    pub fn set_inverse(&mut self, on: bool)
        requires
            old(self).wf(),
        ensures
            final(self).wf(),
            final(self)@ == old(self)@.with_pen(Pen { inverse: on, ..old(self)@.pen }),
    {
        self.pen.inverse = on;
    }

    pub fn set_strike(&mut self, on: bool)
        requires
            old(self).wf(),
        ensures
            final(self).wf(),
            final(self)@ == old(self)@.with_pen(Pen { strike: on, ..old(self)@.pen }),
    {
        self.pen.strike = on;
    }

    pub fn set_hidden(&mut self, on: bool)
        requires
            old(self).wf(),
        ensures
            final(self).wf(),
            final(self)@ == old(self)@.with_pen(Pen { hidden: on, ..old(self)@.pen }),
    {
        self.pen.hidden = on;
    }

    /// Opens a hyperlink, or closes it with 0.
    pub fn set_link(&mut self, link: u16)
        requires
            old(self).wf(),
        ensures
            final(self).wf(),
            final(self)@ == old(self)@.set_link(link),
    {
        self.cur_link = link;
        self.pen.link = link;
    }

    /// Replaces the modes.
    pub fn set_modes(&mut self, modes: Modes)
        requires
            old(self).wf(),
        ensures
            final(self).wf(),
            final(self)@ == old(self)@.with_modes(modes),
    {
        self.modes = modes;
    }

    // ---- writing ----

    /// Writes a character into the row of the cursor, which stays where it is.
    fn write_row(&mut self, c: char, w: usize)
        requires
            old(self).wf(),
            w == 1 || w == 2,
        ensures
            final(self).wf(),
            final(self)@ == old(self)@.with_char(c, w as int),
    {
        let col: usize = self.cx;
        let row: usize = self.cy;
        let cell = self.pen.pen_cell(c);
        let mut spacer = self.pen.pen_cell(' ');
        spacer.wide_spacer = true;
        let ghost before = self@.cells;
        assert(before[row as int] == self.lines@[row as int]@);
        write_char(&mut self.lines[row], col, w, cell, spacer);
        proof {
            let written = self.lines@[row as int]@;
            assert(self@.cells =~= before.update(row as int, written));
        }
    }

    /// Puts a character at the cursor, where it fits.
    fn put(&mut self, c: char, w: usize)
        requires
            old(self).wf(),
            w == 1 || w == 2,
        ensures
            final(self).wf(),
            final(self)@ == old(self)@.put(c, w as int),
    {
        self.write_row(c, w);
        self.advance(w);
    }

    /// Moves the cursor past a character of `w` columns.
    fn advance(&mut self, w: usize)
        requires
            old(self).wf(),
        ensures
            final(self).wf(),
            final(self)@ == old(self)@.advanced(w as int),
    {
        let cols: usize = self.cols;
        let col: usize = self.cx;
        if w >= cols - col {
            self.cx = cols - 1;
            self.wrap_pending = true;
        } else {
            self.cx = col + w;
        }
    }

    /// Prints a character at the cursor and moves the cursor past it. After the last
    /// column the line breaks only when the next character comes.
    pub fn print(&mut self, c: char)
        requires
            old(self).wf(),
        ensures
            final(self).wf(),
            final(self)@ == old(self)@.print(c),
    {
        self.reset_view();
        let w: usize = char_width(c);
        if w == 0 {
            return ;
        }
        self.wrap();
        self.place(c, w);
    }

    /// Puts a character where it fits, if it does.
    fn place(&mut self, c: char, w: usize)
        requires
            old(self).wf(),
            w == 1 || w == 2,
        ensures
            final(self).wf(),
            final(self)@ == old(self)@.placed(c, w as int),
    {
        if w == 2 && self.cx >= self.cols - 1 {
            if !self.modes.autowrap {
                return ;
            }
            self.break_line();
        }
        self.put(c, w);
    }

    /// Makes the line break that the last column has left due.
    fn wrap(&mut self)
        requires
            old(self).wf(),
        ensures
            final(self).wf(),
            final(self)@ == old(self)@.wrapped(),
    {
        if self.wrap_pending {
            if self.modes.autowrap {
                self.break_line();
            } else {
                self.wrap_pending = false;
            }
        }
    }

    /// To the first column of the next line.
    fn break_line(&mut self)
        requires
            old(self).wf(),
        ensures
            final(self).wf(),
            final(self)@ == (Screen { cx: 0, ..old(self)@ }).index(),
    {
        self.cx = 0;
        assert(self@ == (Screen { cx: 0, ..old(self)@ }));
        self.index();
    }

    /// One line down; from the last row of the scroll region, the region scrolls.
    pub fn index(&mut self)
        requires
            old(self).wf(),
        ensures
            final(self).wf(),
            final(self)@ == old(self)@.index(),
    {
        self.wrap_pending = false;
        if self.cy == self.scroll_bottom {
            self.scroll_up_region(1);
        } else if self.cy < self.rows - 1 {
            self.cy = self.cy + 1;
        }
    }

    /// A line feed: one line down, in the same column.
    pub fn linefeed(&mut self)
        requires
            old(self).wf(),
        ensures
            final(self).wf(),
            final(self)@ == old(self)@.linefeed(),
    {
        self.reset_view();
        self.index();
    }

    /// One line up; from the first row of the scroll region, the region scrolls.
    pub fn reverse_index(&mut self)
        requires
            old(self).wf(),
        ensures
            final(self).wf(),
            final(self)@ == old(self)@.reverse_index(),
    {
        self.wrap_pending = false;
        if self.cy == self.scroll_top {
            self.scroll_down_region(1);
        } else if self.cy > 0 {
            self.cy = self.cy - 1;
        }
    }

    pub fn carriage_return(&mut self)
        requires
            old(self).wf(),
        ensures
            final(self).wf(),
            final(self)@ == old(self)@.carriage_return(),
    {
        self.wrap_pending = false;
        self.cx = 0;
    }

    /// One column to the left; nothing is erased.
    pub fn backspace(&mut self)
        requires
            old(self).wf(),
        ensures
            final(self).wf(),
            final(self)@ == old(self)@.backspace(),
    {
        self.wrap_pending = false;
        if self.cx > 0 {
            self.cx = self.cx - 1;
        }
    }

    /// To the next column that is a multiple of eight.
    pub fn tab(&mut self)
        requires
            old(self).wf(),
        ensures
            final(self).wf(),
            final(self)@ == old(self)@.tab(),
    {
        self.wrap_pending = false;
        let last: usize = self.cols - 1;
        let step: usize = 8 - self.cx % 8;
        self.cx = if step <= last - self.cx {
            self.cx + step
        } else {
            last
        };
        assert((old(self).cx / 8 + 1) * 8 == old(self).cx + step);
        assert(self@ =~= old(self)@.tab());
    }

    // ---- scrolling ----

    fn scroll_up_region(&mut self, n: usize)
        requires
            old(self).wf(),
        ensures
            final(self).wf(),
            final(self)@ == old(self)@.scroll_up_region(n as int),
    {
        let n: usize = min(n, self.scroll_bottom - self.scroll_top + 1);
        let blank = self.pen.blank_cell();
        let gone = shift_up(
            &mut self.lines,
            self.scroll_top,
            self.scroll_bottom,
            n,
            self.cols,
            blank,
        );
        if self.scroll_top == 0 && !self.alt.is_some() {
            self.remember(gone);
            assert(old(self)@.cells.subrange(0, n as int) =~= old(self)@.cells.take(n as int));
        }
        assert(self@ =~= old(self)@.scroll_up_region(n as int));
    }

    /// Appends lines to the history.
    fn remember(&mut self, gone: Vec<Vec<Cell>>)
        requires
            old(self).scrollback_max >= 1,
        ensures
            *final(self) == (Grid { scrollback: final(self).scrollback, ..*old(self) }),
            crate::rows::rows_view(final(self).scrollback@) == crate::screen::last_of(
                crate::rows::rows_view(old(self).scrollback@) + crate::rows::rows_view(gone@),
                old(self).scrollback_max as int,
            ),
    {
        append_rows(&mut self.scrollback, gone);
        self.trim_history();
    }

    fn scroll_down_region(&mut self, n: usize)
        requires
            old(self).wf(),
        ensures
            final(self).wf(),
            final(self)@ == old(self)@.scroll_down_region(n as int),
    {
        let n: usize = min(n, self.scroll_bottom - self.scroll_top + 1);
        let blank = self.pen.blank_cell();
        shift_down(&mut self.lines, self.scroll_top, self.scroll_bottom, n, self.cols, blank);
        assert(self@ =~= old(self)@.scroll_down_region(n as int));
    }

    /// Scrolls the region up by `n` rows, at least one.
    pub fn scroll_up(&mut self, n: usize)
        requires
            old(self).wf(),
        ensures
            final(self).wf(),
            final(self)@ == old(self)@.scroll_up(n as int),
    {
        self.scroll_up_region(max(n, 1));
    }

    /// Scrolls the region down by `n` rows, at least one.
    pub fn scroll_down(&mut self, n: usize)
        requires
            old(self).wf(),
        ensures
            final(self).wf(),
            final(self)@ == old(self)@.scroll_down(n as int),
    {
        self.scroll_down_region(max(n, 1));
    }

    /// Sets the scroll region, from its first to its last row, and puts the cursor at
    /// its top left. A region of fewer than two rows is ignored.
    pub fn set_scroll_region(&mut self, top: usize, bottom: usize)
        requires
            old(self).wf(),
        ensures
            final(self).wf(),
            final(self)@ == old(self)@.set_scroll_region(top as int, bottom as int),
    {
        let top: usize = min(top, self.rows - 1);
        let bottom: usize = min(bottom, self.rows - 1);
        if top >= bottom {
            return ;
        }
        self.scroll_top = top;
        self.scroll_bottom = bottom;
        self.cx = 0;
        self.cy = top;
        self.wrap_pending = false;
    }

    // ---- the cursor ----

    pub fn move_to(&mut self, col: usize, row: usize)
        requires
            old(self).wf(),
        ensures
            final(self).wf(),
            final(self)@ == old(self)@.move_to(col as int, row as int),
    {
        self.wrap_pending = false;
        self.cx = min(col, self.cols - 1);
        self.cy = min(row, self.rows - 1);
    }

    /// Up: in the scroll region no further than its first row, outside of it no
    /// further than the first row of the screen.
    pub fn move_up(&mut self, n: usize)
        requires
            old(self).wf(),
        ensures
            final(self).wf(),
            final(self)@ == old(self)@.move_up(n as int),
    {
        self.wrap_pending = false;
        let target: usize = self.cy.saturating_sub(max(n, 1));
        self.cy = if self.scroll_top <= self.cy && self.cy <= self.scroll_bottom {
            max(target, self.scroll_top)
        } else {
            target
        };
    }

    /// Down, but not past the last row of the scroll region, unless the cursor is
    /// below it already.
    pub fn move_down(&mut self, n: usize)
        requires
            old(self).wf(),
        ensures
            final(self).wf(),
            final(self)@ == old(self)@.move_down(n as int),
    {
        self.wrap_pending = false;
        let target: usize = min(self.cy.saturating_add(max(n, 1)), self.rows - 1);
        self.cy = if self.cy <= self.scroll_bottom {
            min(target, self.scroll_bottom)
        } else {
            target
        };
    }

    pub fn move_left(&mut self, n: usize)
        requires
            old(self).wf(),
        ensures
            final(self).wf(),
            final(self)@ == old(self)@.move_left(n as int),
    {
        self.wrap_pending = false;
        self.cx = self.cx.saturating_sub(max(n, 1));
    }

    pub fn move_right(&mut self, n: usize)
        requires
            old(self).wf(),
        ensures
            final(self).wf(),
            final(self)@ == old(self)@.move_right(n as int),
    {
        self.wrap_pending = false;
        self.cx = min(self.cx.saturating_add(max(n, 1)), self.cols - 1);
    }

    pub fn move_to_col(&mut self, col: usize)
        requires
            old(self).wf(),
        ensures
            final(self).wf(),
            final(self)@ == old(self)@.move_to_col(col as int),
    {
        self.wrap_pending = false;
        self.cx = min(col, self.cols - 1);
    }

    pub fn move_to_row(&mut self, row: usize)
        requires
            old(self).wf(),
        ensures
            final(self).wf(),
            final(self)@ == old(self)@.move_to_row(row as int),
    {
        self.wrap_pending = false;
        self.cy = min(row, self.rows - 1);
    }

    /// Puts the cursor aside, with its pen.
    pub fn save_cursor(&mut self)
        requires
            old(self).wf(),
        ensures
            final(self).wf(),
            final(self)@ == old(self)@.save_cursor(),
    {
        self.saved_cursor = Some(
            SavedCursor {
                cx: self.cx,
                cy: self.cy,
                pen: self.pen,
                wrap_pending: self.wrap_pending,
            },
        );
    }

    /// Takes up the cursor that was put aside last, if there is one.
    pub fn restore_cursor(&mut self)
        requires
            old(self).wf(),
        ensures
            final(self).wf(),
            final(self)@ == old(self)@.restore_cursor(),
    {
        if let Some(s) = self.saved_cursor {
            self.cx = min(s.cx, self.cols - 1);
            self.cy = min(s.cy, self.rows - 1);
            self.pen = s.pen;
            self.wrap_pending = s.wrap_pending;
        }
    }

    // ---- inserting, deleting, erasing ----

    /// Inserts `n` blank cells at the cursor; what stands there moves to the right.
    pub fn insert_chars(&mut self, n: usize)
        requires
            old(self).wf(),
        ensures
            final(self).wf(),
            final(self)@ == old(self)@.insert_chars(n as int),
    {
        let n: usize = min(max(n, 1), self.cols - self.cx);
        let blank = self.pen.blank_cell();
        let row = insert_blanks(&self.lines[self.cy], self.cx, n, blank);
        self.lines.set(self.cy, row);
        assert(self@.cells =~= old(self)@.insert_chars(n as int).cells);
    }

    /// Deletes `n` cells at the cursor; what stands to their right moves up.
    pub fn delete_chars(&mut self, n: usize)
        requires
            old(self).wf(),
        ensures
            final(self).wf(),
            final(self)@ == old(self)@.delete_chars(n as int),
    {
        let n: usize = min(max(n, 1), self.cols - self.cx);
        let blank = self.pen.blank_cell();
        let row = delete_cells(&self.lines[self.cy], self.cx, n, blank);
        self.lines.set(self.cy, row);
        assert(self@.cells =~= old(self)@.delete_chars(n as int).cells);
    }

    /// Erases `n` cells from the cursor on.
    pub fn erase_chars(&mut self, n: usize)
        requires
            old(self).wf(),
        ensures
            final(self).wf(),
            final(self)@ == old(self)@.erase_chars(n as int),
    {
        let n: usize = min(max(n, 1), self.cols - self.cx);
        let blank = self.pen.blank_cell();
        let from: usize = self.cx;
        fill(&mut self.lines[self.cy], from, from + n, blank);
        assert(self@.cells =~= old(self)@.erase_chars(n as int).cells);
    }

    /// Inserts `n` blank lines at the cursor, in the scroll region; the rest of the
    /// region moves down. The cursor goes to the first column.
    pub fn insert_lines(&mut self, n: usize)
        requires
            old(self).wf(),
        ensures
            final(self).wf(),
            final(self)@ == old(self)@.insert_lines(n as int),
    {
        if self.cy < self.scroll_top || self.cy > self.scroll_bottom {
            return ;
        }
        self.cx = 0;
        self.wrap_pending = false;
        let n: usize = min(max(n, 1), self.scroll_bottom - self.cy + 1);
        let blank = self.pen.blank_cell();
        shift_down(&mut self.lines, self.cy, self.scroll_bottom, n, self.cols, blank);
    }

    /// Deletes `n` lines at the cursor, in the scroll region; the rest of the region
    /// moves up. The cursor goes to the first column.
    pub fn delete_lines(&mut self, n: usize)
        requires
            old(self).wf(),
        ensures
            final(self).wf(),
            final(self)@ == old(self)@.delete_lines(n as int),
    {
        if self.cy < self.scroll_top || self.cy > self.scroll_bottom {
            return ;
        }
        self.cx = 0;
        self.wrap_pending = false;
        let n: usize = min(max(n, 1), self.scroll_bottom - self.cy + 1);
        let blank = self.pen.blank_cell();
        let _ = shift_up(&mut self.lines, self.cy, self.scroll_bottom, n, self.cols, blank);
    }

    /// Erases in the display: from the cursor on (0), up to and with the cursor (1),
    /// or everything.
    pub fn erase_in_display(&mut self, mode: u16)
        requires
            old(self).wf(),
        ensures
            final(self).wf(),
            final(self)@ == old(self)@.erase_in_display(mode),
    {
        let ghost goal = self@.erase_in_display(mode);
        let blank = self.pen.blank_cell();
        let mut r: usize = 0;
        while r < self.rows
            invariant
                *self == (Grid { lines: self.lines, ..*old(self) }),
                old(self).wf(),
                goal == old(self)@.erase_in_display(mode),
                blank == self.pen.blank(),
                r <= self.rows,
                self.lines@.len() == self.rows,
                forall|i: int| 0 <= i < r ==> (#[trigger] self.lines@[i])@ == goal.cells[i],
                forall|i: int|
                    r <= i < self.rows ==> (#[trigger] self.lines@[i])@ == old(self)@.cells[i],
            decreases self.rows - r,
        {
            let (from, to): (usize, usize) = if mode == 0 {
                if r < self.cy {
                    (0, 0)
                } else if r == self.cy {
                    (self.cx, self.cols)
                } else {
                    (0, self.cols)
                }
            } else if mode == 1 {
                if r < self.cy {
                    (0, self.cols)
                } else if r == self.cy {
                    (0, self.cx + 1)
                } else {
                    (0, 0)
                }
            } else {
                (0, self.cols)
            };
            assert(old(self)@.cells[r as int].len() == self.cols);
            fill(&mut self.lines[r], from, to, blank);
            assert(self.lines@[r as int]@ =~= goal.cells[r as int]);
            r += 1;
        }
        assert(self@.cells =~= goal.cells);
    }

    /// Erases in the line of the cursor: from the cursor on (0), up to and with it (1),
    /// or all of it.
    pub fn erase_in_line(&mut self, mode: u16)
        requires
            old(self).wf(),
        ensures
            final(self).wf(),
            final(self)@ == old(self)@.erase_in_line(mode),
    {
        let blank = self.pen.blank_cell();
        let (from, to): (usize, usize) = if mode == 0 {
            (self.cx, self.cols)
        } else if mode == 1 {
            (0, self.cx + 1)
        } else {
            (0, self.cols)
        };
        fill(&mut self.lines[self.cy], from, to, blank);
        assert(self@.cells =~~= old(self)@.erase_in_line(mode).cells);
    }

    // ---- the alternate screen ----

    /// Puts the main screen aside, with its cursor, and shows a blank one.
    pub fn enter_alt_screen(&mut self)
        requires
            old(self).wf(),
        ensures
            final(self).wf(),
            final(self)@ == old(self)@.enter_alt_screen(),
    {
        if self.alt.is_some() {
            return ;
        }
        let mut lines = filled_rows(self.cols, self.rows, Cell::default());
        std::mem::swap(&mut self.lines, &mut lines);
        let saved_cursor = self.saved_cursor;
        self.saved_cursor = None;
        self.alt = Some(AltSaved { lines, cx: self.cx, cy: self.cy, saved_cursor });
        self.cx = 0;
        self.cy = 0;
        self.scroll_top = 0;
        self.scroll_bottom = self.rows - 1;
        self.wrap_pending = false;
        self.view_offset = 0;
    }

    /// Shows the main screen again, as it was put aside.
    pub fn leave_alt_screen(&mut self)
        requires
            old(self).wf(),
        ensures
            final(self).wf(),
            final(self)@ == old(self)@.leave_alt_screen(),
    {
        match self.alt.take() {
            None => {},
            Some(a) => {
                self.lines = a.lines;
                self.cx = min(a.cx, self.cols - 1);
                self.cy = min(a.cy, self.rows - 1);
                self.saved_cursor = a.saved_cursor;
                self.scroll_top = 0;
                self.scroll_bottom = self.rows - 1;
                self.wrap_pending = false;
                self.view_offset = 0;
            },
        }
    }

    /// Everything as at the start, but the history is kept.
    pub fn full_reset(&mut self)
        requires
            old(self).wf(),
        ensures
            final(self).wf(),
            final(self)@ == old(self)@.full_reset(),
    {
        self.leave_alt_screen();
        self.lines = filled_rows(self.cols, self.rows, Cell::default());
        self.cx = 0;
        self.cy = 0;
        self.pen = Pen::default();
        self.cur_link = 0;
        self.modes = Modes::default();
        self.scroll_top = 0;
        self.scroll_bottom = self.rows - 1;
        self.saved_cursor = None;
        self.wrap_pending = false;
        self.view_offset = 0;
    }

    // ---- taking text ----

    /// Appends the text of one row of a span.
    fn push_span_row(
        &self,
        start: (usize, usize),
        end: (usize, usize),
        row: usize,
        out: &mut String,
    )
        requires
            self.wf(),
        ensures
            final(out)@ == old(out)@ + self@.span_row(start, end, row as int),
    {
        let from: usize = if row == start.1 {
            start.0
        } else {
            0
        };
        let to: usize = if row == end.1 {
            min(end.0.saturating_add(1), self.cols)
        } else {
            self.cols
        };
        let ghost run = self@.visible_run(row as int, from as int, to as int);
        let mut line: Vec<char> = Vec::new();
        let mut c: usize = from;
        assert(crate::screen::shown(run.take(0)) =~= Seq::empty());
        while c < to
            invariant
                self.wf(),
                run == self@.visible_run(row as int, from as int, to as int),
                from <= c,
                c <= to || c == from,
                line@ == crate::screen::shown(run.take(c - from)),
            decreases to - c,
        {
            let cell = self.visible_cell(c, row);
            proof {
                assert(run[c - from] == cell);
                assert(run.take(c - from + 1).drop_last() =~= run.take(c - from));
                assert(run.take(c - from + 1).last() == cell);
            }
            if !cell.wide_spacer {
                line.push(cell.c);
            }
            c += 1;
        }
        assert(run.take(c - from) =~= run);
        trim_line(&mut line);
        push_chars(out, &line);
    }

    /// The text between two places of what is shown, both included, in reading
    /// order. Spaces at the end of a row are left out.
    pub fn text_in_span(&self, a: (usize, usize), b: (usize, usize)) -> (text: String)
        requires
            self.wf(),
        ensures
            text@ == self@.span(a, b),
    {
        let (start, end) = order_places(a, b);
        let mut out = String::new();
        let mut row: usize = start.1;
        while row < end.1
            invariant
                self.wf(),
                start.1 <= row <= end.1,
                out@ == self@.span_before(start, end, row as int),
            decreases end.1 - row,
        {
            self.push_span_row(start, end, row, &mut out);
            out.push('\n');
            row += 1;
        }
        self.push_span_row(start, end, end.1, &mut out);
        out
    }
}

/// Takes the spaces from the end of a line.
fn trim_line(line: &mut Vec<char>)
    ensures
        final(line)@ == crate::screen::trim_spaces(old(line)@),
{
    while line.len() > 0 && line[line.len() - 1] == ' '
        invariant
            crate::screen::trim_spaces(line@) == crate::screen::trim_spaces(old(line)@),
        decreases line@.len(),
    {
        let ghost before = line@;
        let _ = line.pop();
        assert(line@ =~= before.drop_last());
    }
}

/// Appends characters to a string.
fn push_chars(out: &mut String, chars: &Vec<char>)
    ensures
        final(out)@ == old(out)@ + chars@,
{
    let ghost start = out@;
    let mut i: usize = 0;
    assert(start + chars@.take(0) =~= start);
    while i < chars.len()
        invariant
            i <= chars@.len(),
            out@ == start + chars@.take(i as int),
        decreases chars@.len() - i,
    {
        out.push(chars[i]);
        i += 1;
        assert(start + chars@.take(i as int) =~= (start + chars@.take(i - 1)).push(chars@[i - 1]));
    }
    assert(chars@.take(i as int) =~= chars@);
}

/// Moves rows to the end of a queue.
fn append_rows(queue: &mut VecDeque<Vec<Cell>>, rows: Vec<Vec<Cell>>)
    ensures
        crate::rows::rows_view(final(queue)@) == crate::rows::rows_view(old(queue)@)
            + crate::rows::rows_view(rows@),
{
    let ghost start = crate::rows::rows_view(queue@);
    let ghost all = crate::rows::rows_view(rows@);
    assert(start + all.take(0) =~= start);
    for row in it: rows
        invariant
            it.seq() == rows@,
            all == crate::rows::rows_view(rows@),
            crate::rows::rows_view(queue@) == start + all.take(it.index()),
    {
        let ghost before = crate::rows::rows_view(queue@);
        let ghost i = it.index();
        queue.push_back(row);
        proof {
            assert(crate::rows::rows_view(queue@) =~= before.push(all[i]));
            assert(before.push(all[i]) =~= start + all.take(i + 1));
        }
    }
    assert(all.take(all.len() as int) =~= all);
}

/// Blanks the other half of a wide character that stands at a column.
fn clear_wide_partner(row: &mut Vec<Cell>, col: usize)
    ensures
        final(row)@ == crate::screen::without_partner(old(row)@, col as int),
{
    if col >= row.len() {
        return ;
    }
    let cell = row[col];
    if cell.wide_spacer && col > 0 {
        row.set(col - 1, Cell::default());
    } else if char_width(cell.c) == 2 && col + 1 < row.len() && row[col + 1].wide_spacer {
        row.set(col + 1, Cell::default());
    }
}

/// Writes a character of `w` columns into a row.
fn write_char(row: &mut Vec<Cell>, col: usize, w: usize, cell: Cell, spacer: Cell)
    requires
        col < old(row)@.len(),
    ensures
        final(row)@ == crate::screen::written(old(row)@, col as int, w as int, cell, spacer),
        final(row)@.len() == old(row)@.len(),
{
    let last: usize = row.len() - 1;
    clear_wide_partner(row, col);
    if w == 2 && col < last {
        clear_wide_partner(row, col + 1);
    }
    row.set(col, cell);
    if w == 2 && col < last {
        row.set(col + 1, spacer);
    }
}

/// A row with `n` blank cells put in at a column. What passes the end is lost.
fn insert_blanks(row: &Vec<Cell>, at: usize, n: usize, blank: Cell) -> (out: Vec<Cell>)
    requires
        at + n <= row@.len(),
    ensures
        out@ == Seq::new(
            row@.len(),
            |c: int|
                if c < at {
                    row@[c]
                } else if c < at + n {
                    blank
                } else {
                    row@[c - n]
                },
        ),
{
    let mut out: Vec<Cell> = Vec::new();
    let mut c: usize = 0;
    while c < row.len()
        invariant
            at + n <= row@.len(),
            c <= row@.len(),
            out@.len() == c,
            forall|i: int|
                0 <= i < c ==> #[trigger] out@[i] == (if i < at {
                    row@[i]
                } else if i < at + n {
                    blank
                } else {
                    row@[i - n]
                }),
        decreases row@.len() - c,
    {
        if c < at {
            out.push(row[c]);
        } else if c < at + n {
            out.push(blank);
        } else {
            out.push(row[c - n]);
        }
        c += 1;
    }
    out
}

/// A row with `n` cells taken out at a column, filled up at its end.
fn delete_cells(row: &Vec<Cell>, at: usize, n: usize, blank: Cell) -> (out: Vec<Cell>)
    requires
        at + n <= row@.len(),
    ensures
        out@ == Seq::new(
            row@.len(),
            |c: int|
                if c < at {
                    row@[c]
                } else if c + n < row@.len() {
                    row@[c + n]
                } else {
                    blank
                },
        ),
{
    let mut out: Vec<Cell> = Vec::new();
    let mut c: usize = 0;
    while c < row.len()
        invariant
            at + n <= row@.len(),
            c <= row@.len(),
            out@.len() == c,
            forall|i: int|
                0 <= i < c ==> #[trigger] out@[i] == (if i < at {
                    row@[i]
                } else if i + n < row@.len() {
                    row@[i + n]
                } else {
                    blank
                }),
        decreases row@.len() - c,
    {
        if c < at {
            out.push(row[c]);
        } else if n < row.len() - c {
            out.push(row[c + n]);
        } else {
            out.push(blank);
        }
        c += 1;
    }
    out
}

/// The screen put aside, in another size.
fn resize_aside(aside: Option<AltSaved>, cols: usize, rows: usize) -> (r: Option<AltSaved>)
    ensures
        match aside {
            Some(a) => r is Some && r->0.put_aside() == (AltScreen {
                cells: crate::screen::top_left(a.put_aside().cells, cols as int, rows as int),
                ..a.put_aside()
            }),
            None => r is None,
        },
{
    match aside {
        Some(a) => {
            let lines = reflow_keep_topleft(&a.lines, cols, rows);
            Some(AltSaved { lines, cx: a.cx, cy: a.cy, saved_cursor: a.saved_cursor })
        },
        None => None,
    }
}

fn min(a: usize, b: usize) -> (m: usize)
    ensures
        m == vstd::math::min(a as int, b as int),
{
    if a <= b {
        a
    } else {
        b
    }
}

fn max(a: usize, b: usize) -> (m: usize)
    ensures
        m == vstd::math::max(a as int, b as int),
{
    if a >= b {
        a
    } else {
        b
    }
}

/// The bytes from `from` on, with each doubled escape byte made single.
fn undouble(bytes: &Vec<u8>, from: usize) -> (out: Vec<u8>)
    requires
        from <= bytes@.len(),
    ensures
        out@ == crate::screen::undoubled(bytes@.skip(from as int)),
{
    let mut out: Vec<u8> = Vec::new();
    let mut i: usize = from;
    let ghost goal = crate::screen::undoubled(bytes@.skip(from as int));
    assert(out@ + goal =~= goal);
    while i < bytes.len()
        invariant
            i <= bytes@.len(),
            goal == out@ + crate::screen::undoubled(bytes@.skip(i as int)),
        decreases bytes@.len() - i,
    {
        let ghost tail = bytes@.skip(i as int);
        let ghost before = out@;
        if bytes[i] == 0x1b && i + 1 < bytes.len() && bytes[i + 1] == 0x1b {
            out.push(0x1b);
            i += 2;
            proof {
                assert(tail.skip(2) =~= bytes@.skip(i as int));
                assert(before + (seq![0x1bu8] + crate::screen::undoubled(tail.skip(2))) =~= out@
                    + crate::screen::undoubled(bytes@.skip(i as int)));
            }
        } else {
            out.push(bytes[i]);
            i += 1;
            proof {
                assert(tail.skip(1) =~= bytes@.skip(i as int));
                assert(before + (seq![tail[0]] + crate::screen::undoubled(tail.skip(1))) =~= out@
                    + crate::screen::undoubled(bytes@.skip(i as int)));
            }
        }
    }
    assert(out@ + crate::screen::undoubled(bytes@.skip(i as int)) =~= out@);
    out
}

/// The identifier of the link at a place in the table.
fn link_id(place: usize) -> (id: u16)
    requires
        place < usize::MAX,
    ensures
        id == Screen::link_id(place as int),
{
    let n: usize = place + 1;
    assert(n % 0x1_0000 == n as u16) by (bit_vector);
    #[verifier::truncate]
    let id: u16 = n as u16;
    id
}

} // verus!
