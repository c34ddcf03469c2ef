//! What a frame shows, before it is drawn.

use vstd::prelude::*;

use crate::grid::{char_width, Cell, Grid, Selection, Theme};
use crate::screen::Screen;
use crate::session::SidebarRow;
use crate::text::{chars_of, push_text};
use crate::window::WinStatus;

verus! {

/// A row of the sidebar: a connection, or a window below it.
pub struct SidebarItem {
    pub label: String,
    pub is_host: bool,
    pub status: WinStatus,
    pub activity: bool,
    pub alerted: bool,
    pub active: bool,
}

/// The panel of settings: its title, its rows of a name and a value, and the row
/// that is selected.
pub struct PrefView {
    pub title: String,
    pub rows: Vec<(String, String)>,
    pub selected: usize,
}

impl View for SidebarItem {
    type V = SidebarRow;

    open spec fn view(&self) -> SidebarRow {
        SidebarRow {
            label: self.label@,
            is_host: self.is_host,
            status: self.status,
            activity: self.activity,
            alerted: self.alerted,
            active: self.active,
        }
    }
}

/// What a list of rows says.
pub open spec fn items_view(items: Seq<SidebarItem>) -> Seq<SidebarRow> {
    items.map_values(|i: SidebarItem| i@)
}

/// Columns of a row that are painted in one colour.
#[derive(Clone, Copy, PartialEq, Eq, Debug)]
pub struct Span {
    /// The first column.
    pub start: usize,
    /// The column after the last.
    pub end: usize,
    pub color: [u8; 3],
}

/// Text of a row that is drawn in one go.
pub struct TextRun {
    /// The first column.
    pub start: usize,
    /// The column after the last.
    pub end: usize,
    pub text: String,
    pub color: [u8; 3],
    pub bold: bool,
    pub italic: bool,
}

/// What a [`TextRun`] says.
pub struct RunView {
    pub start: int,
    pub end: int,
    pub text: Seq<char>,
    pub color: [u8; 3],
    pub bold: bool,
    pub italic: bool,
}

impl View for TextRun {
    type V = RunView;

    open spec fn view(&self) -> RunView {
        RunView {
            start: self.start as int,
            end: self.end as int,
            text: self.text@,
            color: self.color,
            bold: self.bold,
            italic: self.italic,
        }
    }
}

/// What a list of runs says.
pub open spec fn runs_view(runs: Seq<TextRun>) -> Seq<RunView> {
    runs.map_values(|r: TextRun| r@)
}

// ---- backgrounds ----

impl Screen {
    /// Whether the cursor is drawn: it is visible, and the view is on the live screen.
    pub open spec fn cursor_shown(self) -> bool {
        self.modes.cursor_visible && self.view_offset == 0
    }

    /// The column in which the cursor is drawn in a row.
    pub open spec fn cursor_col(self, row: int) -> Option<usize> {
        if self.cursor_shown() && self.cy == row {
            Some(self.cx as usize)
        } else {
            None
        }
    }

    /// The cells that a row shows.
    pub open spec fn shown_row(self, row: int) -> Seq<Cell> {
        self.visible_run(row, 0, self.cols)
    }

    /// The background that is painted at a place: that of the cursor, or of the
    /// selection, or the cell's own.
    pub open spec fn background(
        self,
        selection: Option<Selection>,
        theme: Theme,
        col: usize,
        row: usize,
    ) -> [u8; 3] {
        if self.cursor_col(row as int) == Some(col) {
            theme.cursor
        } else if selection is Some && selection->0.covers(col, row) {
            theme.selection
        } else {
            self.visible_cell(col as int, row as int).colors(theme, false).1
        }
    }

    /// The backgrounds of a row, column by column.
    pub open spec fn backgrounds(
        self,
        selection: Option<Selection>,
        theme: Theme,
        row: usize,
    ) -> Seq<[u8; 3]> {
        Seq::new(
            self.cols as nat,
            |col: int| self.background(selection, theme, col as usize, row),
        )
    }
}

/// The column in which colours stop being the same as in `start`, from `col` on.
pub open spec fn same_until(colors: Seq<[u8; 3]>, start: int, col: int) -> int
    decreases colors.len() - col,
{
    if col < colors.len() && colors[col] == colors[start] {
        same_until(colors, start, col + 1)
    } else {
        col
    }
}

/// The spans that paint a row, from a column on: neighbours of one colour in one
/// span. What has the colour `plain` is not painted.
pub open spec fn spans_from(colors: Seq<[u8; 3]>, plain: [u8; 3], col: int) -> Seq<Span>
    decreases colors.len() - col,
    via spans_from_decreases
{
    if col < 0 || col >= colors.len() {
        Seq::empty()
    } else {
        let end = same_until(colors, col, col + 1);
        let rest = spans_from(colors, plain, end);
        if colors[col] == plain {
            rest
        } else {
            seq![Span { start: col as usize, end: end as usize, color: colors[col] }] + rest
        }
    }
}

#[via_fn]
proof fn spans_from_decreases(colors: Seq<[u8; 3]>, plain: [u8; 3], col: int) {
    if 0 <= col < colors.len() {
        lemma_same_until(colors, col, col + 1);
    }
}

proof fn lemma_same_until(colors: Seq<[u8; 3]>, start: int, col: int)
    requires
        0 <= start < col <= colors.len(),
        forall|i: int| start <= i < col ==> colors[i] == colors[start],
    ensures
        col <= same_until(colors, start, col) <= colors.len(),
        forall|i: int|
            start <= i < same_until(colors, start, col) ==> colors[i] == colors[start],
        same_until(colors, start, col) < colors.len() ==> colors[same_until(colors, start, col)]
            != colors[start],
    decreases colors.len() - col,
{
    if col < colors.len() && colors[col] == colors[start] {
        lemma_same_until(colors, start, col + 1);
    }
}

/// The colour that a column has once spans are painted over `plain`.
pub open spec fn painted(spans: Seq<Span>, plain: [u8; 3], col: int) -> [u8; 3]
    decreases spans.len(),
{
    if spans.len() == 0 {
        plain
    } else if spans.last().start <= col < spans.last().end {
        spans.last().color
    } else {
        painted(spans.drop_last(), plain, col)
    }
}

proof fn lemma_painted_first(span: Span, rest: Seq<Span>, plain: [u8; 3], col: int)
    ensures
        painted(seq![span] + rest, plain, col) == (if painted_at(rest, col) {
            painted(rest, plain, col)
        } else if span.start <= col < span.end {
            span.color
        } else {
            plain
        }),
        painted_at(seq![span] + rest, col) == (painted_at(rest, col) || span.start <= col
            < span.end),
    decreases rest.len(),
{
    let all = seq![span] + rest;
    if rest.len() == 0 {
        assert(all =~= seq![span]);
        assert(all.drop_last() =~= Seq::empty());
        assert(painted(all.drop_last(), plain, col) == plain);
        assert(!painted_at(all.drop_last(), col));
    } else {
        assert(all.last() == rest.last());
        assert(all.drop_last() =~= seq![span] + rest.drop_last());
        lemma_painted_first(span, rest.drop_last(), plain, col);
    }
}

/// Whether a column is painted by a span.
pub open spec fn painted_at(spans: Seq<Span>, col: int) -> bool
    decreases spans.len(),
{
    if spans.len() == 0 {
        false
    } else {
        spans.last().start <= col < spans.last().end || painted_at(spans.drop_last(), col)
    }
}

proof fn lemma_spans_paint(colors: Seq<[u8; 3]>, plain: [u8; 3], from: int, col: int)
    requires
        0 <= from <= colors.len() <= usize::MAX,
        0 <= col < colors.len(),
    ensures
        col < from ==> !painted_at(spans_from(colors, plain, from), col),
        col >= from ==> painted(spans_from(colors, plain, from), plain, col) == colors[col],
        col >= from ==> (painted_at(spans_from(colors, plain, from), col) <==> colors[col]
            != plain),
    decreases colors.len() - from,
{
    if from < colors.len() {
        lemma_same_until(colors, from, from + 1);
        let end = same_until(colors, from, from + 1);
        lemma_spans_paint(colors, plain, end, col);
        let rest = spans_from(colors, plain, end);
        if colors[from] != plain {
            let span = Span { start: from as usize, end: end as usize, color: colors[from] };
            lemma_painted_first(span, rest, plain, col);
        }
        if from <= col < end {
            assert(colors[col] == colors[from]);
            lemma_unpainted(rest, plain, col);
        }
    }
}

proof fn lemma_unpainted(spans: Seq<Span>, plain: [u8; 3], col: int)
    ensures
        !painted_at(spans, col) ==> painted(spans, plain, col) == plain,
    decreases spans.len(),
{
    if spans.len() > 0 {
        lemma_unpainted(spans.drop_last(), plain, col);
    }
}

/// Painting the spans of a row gives every column its background.
pub proof fn law_spans_paint_every_background(colors: Seq<[u8; 3]>, plain: [u8; 3], col: int)
    requires
        0 <= col < colors.len() <= usize::MAX,
    ensures
        painted(spans_from(colors, plain, 0), plain, col) == colors[col],
        painted_at(spans_from(colors, plain, 0), col) <==> colors[col] != plain,
{
    lemma_spans_paint(colors, plain, 0, col);
}

/// Whether two colours are the same.
fn same_rgb(a: [u8; 3], b: [u8; 3]) -> (r: bool)
    ensures
        r == (a == b),
{
    let r = a[0] == b[0] && a[1] == b[1] && a[2] == b[2];
    proof {
        if r {
            assert(a =~= b);
        }
    }
    r
}

/// The column in which the cursor is drawn in a row.
pub fn cursor_col(grid: &Grid, row: usize) -> (col: Option<usize>)
    requires
        grid.wf(),
    ensures
        col == grid@.cursor_col(row as int),
{
    let (cx, cy) = grid.cursor();
    if grid.modes().cursor_visible && grid.view_offset() == 0 && cy == row {
        Some(cx)
    } else {
        None
    }
}

/// The cells that a row shows.
pub fn row_cells(grid: &Grid, row: usize) -> (cells: Vec<Cell>)
    requires
        grid.wf(),
    ensures
        cells@ == grid@.shown_row(row as int),
{
    let cols: usize = grid.size().0;
    let mut cells: Vec<Cell> = Vec::new();
    let mut c: usize = 0;
    while c < cols
        invariant
            grid.wf(),
            cols == grid@.cols,
            c <= cols,
            cells@ == grid@.shown_row(row as int).take(c as int),
        decreases cols - c,
    {
        cells.push(grid.visible_cell(c, row));
        c += 1;
        assert(grid@.shown_row(row as int).take(c as int) =~= grid@.shown_row(row as int).take(
            c - 1,
        ).push(grid@.visible_cell(c - 1, row as int)));
    }
    assert(grid@.shown_row(row as int).take(c as int) =~= grid@.shown_row(row as int));
    cells
}

/// The background at a place.
fn background_at(
    grid: &Grid,
    selection: Option<Selection>,
    theme: &Theme,
    col: usize,
    row: usize,
) -> (color: [u8; 3])
    requires
        grid.wf(),
    ensures
        color == grid@.background(selection, *theme, col, row),
{
    if let Some(c) = cursor_col(grid, row) {
        if c == col {
            return theme.cursor;
        }
    }
    if let Some(sel) = selection {
        if sel.contains(col, row) {
            return theme.selection;
        }
    }
    grid.visible_cell(col, row).effective_colors(theme, false).1
}

/// The spans that paint the backgrounds of a row.
pub fn row_backgrounds(grid: &Grid, selection: Option<Selection>, theme: &Theme, row: usize) -> (
    spans: Vec<Span>)
    requires
        grid.wf(),
    ensures
        spans@ == spans_from(grid@.backgrounds(selection, *theme, row), theme.bg, 0),
{
    let ghost colors = grid@.backgrounds(selection, *theme, row);
    let ghost goal = spans_from(colors, theme.bg, 0);
    let cols: usize = grid.size().0;
    let mut spans: Vec<Span> = Vec::new();
    let mut col: usize = 0;
    assert(spans@ + goal =~= goal);
    while col < cols
        invariant
            grid.wf(),
            cols == grid@.cols,
            col <= cols,
            colors == grid@.backgrounds(selection, *theme, row),
            goal == spans@ + spans_from(colors, theme.bg, col as int),
        decreases cols - col,
    {
        let start: usize = col;
        let color = background_at(grid, selection, theme, start, row);
        proof {
            lemma_same_until(colors, start as int, start + 1);
        }
        col += 1;
        while col < cols && same_rgb(background_at(grid, selection, theme, col, row), color)
            invariant
                grid.wf(),
                cols == grid@.cols,
                start < col <= cols,
                colors == grid@.backgrounds(selection, *theme, row),
                color == colors[start as int],
                same_until(colors, start as int, start + 1) == same_until(
                    colors,
                    start as int,
                    col as int,
                ),
            decreases cols - col,
        {
            assert(colors[col as int] == color);
            col += 1;
        }
        let ghost before = spans@;
        let ghost rest = spans_from(colors, theme.bg, col as int);
        assert(same_until(colors, start as int, start + 1) == col);
        if !same_rgb(color, theme.bg) {
            let span = Span { start, end: col, color };
            spans.push(span);
            assert(before + (seq![span] + rest) =~= spans@ + rest);
        }
    }
    assert(spans@ + spans_from(colors, theme.bg, col as int) =~= spans@);
    spans
}

// ---- underlines ----

/// The line under a cell: two columns long under a wide character.
pub open spec fn underline(cell: Cell, theme: Theme, cursor: bool, col: int) -> Span {
    Span {
        start: col as usize,
        end: (col + (if crate::width::columns_of(cell.c) == 2 {
            2int
        } else {
            1
        })) as usize,
        color: cell.colors(theme, cursor).0,
    }
}

/// The lines under the first `n` cells of a row. The right half of a wide character
/// has none of its own.
pub open spec fn underlines(cells: Seq<Cell>, cursor: Option<usize>, theme: Theme, n: int) -> Seq<
    Span,
>
    decreases n,
{
    if n <= 0 {
        Seq::empty()
    } else {
        let cell = cells[n - 1];
        let before = underlines(cells, cursor, theme, n - 1);
        if cell.underline && !cell.wide_spacer {
            before.push(underline(cell, theme, cursor == Some((n - 1) as usize), n - 1))
        } else {
            before
        }
    }
}

/// The lines under the cells of a row.
pub fn row_underlines(cells: &Vec<Cell>, cursor: Option<usize>, theme: &Theme) -> (spans: Vec<Span>)
    requires
        cells@.len() < usize::MAX,
    ensures
        spans@ == underlines(cells@, cursor, *theme, cells@.len() as int),
{
    let mut spans: Vec<Span> = Vec::new();
    let mut c: usize = 0;
    while c < cells.len()
        invariant
            cells@.len() < usize::MAX,
            c <= cells@.len(),
            spans@ == underlines(cells@, cursor, *theme, c as int),
        decreases cells@.len() - c,
    {
        let cell = cells[c];
        if cell.underline && !cell.wide_spacer {
            let at_cursor = match cursor {
                Some(k) => k == c,
                None => false,
            };
            let wide: usize = if char_width(cell.c) == 2 {
                2
            } else {
                1
            };
            let color = cell.effective_colors(theme, at_cursor).0;
            spans.push(Span { start: c, end: c + wide, color });
        }
        c += 1;
    }
    spans
}

// ---- text ----

/// Whether a cell goes on with a run of text that another began: it takes one
/// column and is drawn in the same way.
pub open spec fn joins(first: Cell, cell: Cell, theme: Theme) -> bool {
    &&& crate::width::columns_of(cell.c) != 2
    &&& cell.colors(theme, false).0 == first.colors(theme, false).0
    &&& cell.bold == first.bold
    &&& cell.italic == first.italic
}

/// The column in which a run of text ends, from `col` on. The right half of a wide
/// character does not end it; the cursor does.
pub open spec fn joined_until(
    cells: Seq<Cell>,
    cursor: Option<usize>,
    theme: Theme,
    start: int,
    col: int,
) -> int
    decreases cells.len() - col,
{
    if col < cells.len() && cursor != Some(col as usize) && (cells[col].wide_spacer || joins(
        cells[start],
        cells[col],
        theme,
    )) {
        joined_until(cells, cursor, theme, start, col + 1)
    } else {
        col
    }
}

/// The column in which the run that begins in `start` ends. A wide character is a
/// run of its own, with its right half; so is the cell under the cursor.
pub open spec fn run_end(cells: Seq<Cell>, cursor: Option<usize>, theme: Theme, start: int) -> int {
    if crate::width::columns_of(cells[start].c) == 2 {
        if start + 1 < cells.len() && cells[start + 1].wide_spacer {
            start + 2
        } else {
            start + 1
        }
    } else if cursor == Some(start as usize) {
        start + 1
    } else {
        joined_until(cells, cursor, theme, start, start + 1)
    }
}

/// The run of text that begins in a column.
pub open spec fn run_at(cells: Seq<Cell>, cursor: Option<usize>, theme: Theme, start: int) -> RunView {
    let end = run_end(cells, cursor, theme, start);
    RunView {
        start,
        end,
        text: crate::screen::shown(cells.subrange(start, end)),
        color: cells[start].colors(theme, cursor == Some(start as usize)).0,
        bold: cells[start].bold,
        italic: cells[start].italic,
    }
}

/// Whether text shows nothing.
pub open spec fn all_white(text: Seq<char>) -> bool {
    forall|i: int| 0 <= i < text.len() ==> crate::text::is_white(#[trigger] text[i])
}

/// The runs of text of a row, from a column on. Runs that show nothing are left out.
pub open spec fn runs_from(cells: Seq<Cell>, cursor: Option<usize>, theme: Theme, col: int) -> Seq<
    RunView,
>
    decreases cells.len() - col,
    via runs_from_decreases
{
    if col < 0 || col >= cells.len() {
        Seq::empty()
    } else if cells[col].wide_spacer {
        runs_from(cells, cursor, theme, col + 1)
    } else {
        let run = run_at(cells, cursor, theme, col);
        let rest = runs_from(cells, cursor, theme, run.end);
        if all_white(run.text) {
            rest
        } else {
            seq![run] + rest
        }
    }
}

#[via_fn]
proof fn runs_from_decreases(cells: Seq<Cell>, cursor: Option<usize>, theme: Theme, col: int) {
    if 0 <= col < cells.len() {
        lemma_run_end(cells, cursor, theme, col);
    }
}

pub proof fn lemma_joined_until(
    cells: Seq<Cell>,
    cursor: Option<usize>,
    theme: Theme,
    start: int,
    col: int,
)
    requires
        0 <= col <= cells.len(),
    ensures
        col <= joined_until(cells, cursor, theme, start, col) <= cells.len(),
    decreases cells.len() - col,
{
    if col < cells.len() {
        lemma_joined_until(cells, cursor, theme, start, col + 1);
    }
}

pub proof fn lemma_run_end(cells: Seq<Cell>, cursor: Option<usize>, theme: Theme, start: int)
    requires
        0 <= start < cells.len(),
    ensures
        start < run_end(cells, cursor, theme, start) <= cells.len(),
{
    lemma_joined_until(cells, cursor, theme, start, start + 1);
}

proof fn lemma_shown_has(cells: Seq<Cell>, i: int)
    requires
        0 <= i < cells.len(),
        !cells[i].wide_spacer,
    ensures
        crate::screen::shown(cells).contains(cells[i].c),
    decreases cells.len(),
{
    let head = cells.drop_last();
    let text = crate::screen::shown(cells);
    if i == cells.len() - 1 {
        assert(text.last() == cells[i].c);
    } else {
        lemma_shown_has(head, i);
        assert(head[i] == cells[i]);
        let before = crate::screen::shown(head);
        let k = choose|k: int| 0 <= k < before.len() && before[k] == cells[i].c;
        assert(text[k] == cells[i].c);
    }
}

/// Every character that shows anything stands in a run of text that covers its
/// column.
pub proof fn law_every_character_is_drawn(
    cells: Seq<Cell>,
    cursor: Option<usize>,
    theme: Theme,
    from: int,
    col: int,
)
    requires
        0 <= from <= col < cells.len(),
        !cells[col].wide_spacer,
        !crate::text::is_white(cells[col].c),
    ensures
        exists|k: int|
            0 <= k < runs_from(cells, cursor, theme, from).len() && ({
                let run = #[trigger] runs_from(cells, cursor, theme, from)[k];
                run.start <= col < run.end && run.text.contains(cells[col].c)
            }),
    decreases cells.len() - from,
{
    let all = runs_from(cells, cursor, theme, from);
    if cells[from].wide_spacer {
        law_every_character_is_drawn(cells, cursor, theme, from + 1, col);
    } else {
        lemma_run_end(cells, cursor, theme, from);
        let run = run_at(cells, cursor, theme, from);
        let rest = runs_from(cells, cursor, theme, run.end);
        if col < run.end {
            let part = cells.subrange(from, run.end);
            assert(part[col - from] == cells[col]);
            lemma_shown_has(part, col - from);
            let i = choose|i: int| 0 <= i < run.text.len() && run.text[i] == cells[col].c;
            assert(!crate::text::is_white(run.text[i]));
            assert(!all_white(run.text));
            assert(all == seq![run] + rest);
            assert(all[0] == run);
        } else {
            law_every_character_is_drawn(cells, cursor, theme, run.end, col);
            let k = choose|k: int|
                0 <= k < rest.len() && ({
                    let r = #[trigger] rest[k];
                    r.start <= col < r.end && r.text.contains(cells[col].c)
                });
            if all_white(run.text) {
                assert(all == rest);
            } else {
                assert(all == seq![run] + rest);
                assert(all[k + 1] == rest[k]);
            }
        }
    }
}

/// The text that cells show.
fn shown_text(cells: &Vec<Cell>, start: usize, end: usize) -> (text: String)
    requires
        start <= end <= cells@.len(),
    ensures
        text@ == crate::screen::shown(cells@.subrange(start as int, end as int)),
{
    let mut text = String::new();
    let mut c: usize = start;
    assert(cells@.subrange(start as int, start as int) =~= Seq::empty());
    assert(text@ =~= Seq::<char>::empty());
    while c < end
        invariant
            start <= c <= end <= cells@.len(),
            text@ == crate::screen::shown(cells@.subrange(start as int, c as int)),
        decreases end - c,
    {
        let cell = cells[c];
        proof {
            let next = cells@.subrange(start as int, c + 1);
            assert(next.drop_last() =~= cells@.subrange(start as int, c as int));
            assert(next.last() == cell);
        }
        if !cell.wide_spacer {
            text.push(cell.c);
        }
        c += 1;
    }
    text
}

/// Whether text shows nothing.
fn is_blank(text: &str) -> (r: bool)
    ensures
        r == all_white(text@),
{
    let chars = chars_of(text);
    let mut i: usize = 0;
    while i < chars.len()
        invariant
            chars@ == text@,
            i <= chars@.len(),
            forall|j: int| 0 <= j < i ==> crate::text::is_white(#[trigger] text@[j]),
        decreases chars@.len() - i,
    {
        if !crate::text::white(chars[i]) {
            assert(!crate::text::is_white(text@[i as int]));
            return false;
        }
        i += 1;
    }
    true
}

/// The column in which the run that begins in `start` ends.
fn find_run_end(cells: &Vec<Cell>, cursor: Option<usize>, theme: &Theme, start: usize) -> (end: usize)
    requires
        start < cells@.len(),
    ensures
        end == run_end(cells@, cursor, *theme, start as int),
        start < end <= cells@.len(),
{
    let len: usize = cells.len();
    let first = cells[start];
    if char_width(first.c) == 2 {
        if start < len - 1 && cells[start + 1].wide_spacer {
            return start + 2;
        }
        return start + 1;
    }
    let at = match cursor {
        Some(k) => k,
        None => len,
    };
    if at == start {
        return start + 1;
    }
    let fg = first.effective_colors(theme, false).0;
    let mut col: usize = start + 1;
    while col < len
        invariant
            start < col <= len,
            len == cells@.len(),
            first == cells@[start as int],
            fg == first.colors(*theme, false).0,
            match cursor {
                Some(k) => at == k,
                None => at == len,
            },
            joined_until(cells@, cursor, *theme, start as int, start + 1) == joined_until(
                cells@,
                cursor,
                *theme,
                start as int,
                col as int,
            ),
            crate::width::columns_of(first.c) != 2,
            cursor != Some(start),
        decreases len - col,
    {
        if col == at {
            return col;
        }
        let cell = cells[col];
        if !cell.wide_spacer {
            if char_width(cell.c) == 2 {
                return col;
            }
            let ink = cell.effective_colors(theme, false).0;
            if !same_rgb(ink, fg) || cell.bold != first.bold || cell.italic != first.italic {
                return col;
            }
        }
        col += 1;
    }
    col
}

/// The runs of text of a row: neighbours that are drawn in the same way, in one run.
pub fn build_row_runs(cells: &Vec<Cell>, cursor: Option<usize>, theme: &Theme) -> (runs: Vec<
    TextRun,
>)
    ensures
        runs_view(runs@) == runs_from(cells@, cursor, *theme, 0),
{
    let ghost goal = runs_from(cells@, cursor, *theme, 0);
    let mut runs: Vec<TextRun> = Vec::new();
    let mut col: usize = 0;
    assert(runs_view(runs@) + goal =~= goal);
    while col < cells.len()
        invariant
            col <= cells@.len(),
            goal == runs_view(runs@) + runs_from(cells@, cursor, *theme, col as int),
        decreases cells@.len() - col,
    {
        let first = cells[col];
        if first.wide_spacer {
            col += 1;
            continue ;
        }
        let start: usize = col;
        let at_cursor = match cursor {
            Some(k) => k == start,
            None => false,
        };
        col = find_run_end(cells, cursor, theme, start);
        let text = shown_text(cells, start, col);
        let ghost before = runs_view(runs@);
        let ghost rest = runs_from(cells@, cursor, *theme, col as int);
        if !is_blank(text.as_str()) {
            let color = first.effective_colors(theme, at_cursor).0;
            let run = TextRun {
                start,
                end: col,
                text,
                color,
                bold: first.bold,
                italic: first.italic,
            };
            let ghost said = run@;
            runs.push(run);
            assert(runs_view(runs@) =~= before.push(said));
            assert(said == run_at(cells@, cursor, *theme, start as int));
            assert(before + (seq![said] + rest) =~= runs_view(runs@) + rest);
        }
    }
    assert(runs_view(runs@) + runs_from(cells@, cursor, *theme, col as int) =~= runs_view(runs@));
    runs
}

// ---- what has to be drawn anew ----

/// Whether two rows show the same.
pub fn same_cells(a: &Vec<Cell>, b: &Vec<Cell>) -> (r: bool)
    ensures
        r == (a@ == b@),
{
    if a.len() != b.len() {
        return false;
    }
    let mut i: usize = 0;
    while i < a.len()
        invariant
            a@.len() == b@.len(),
            i <= a@.len(),
            forall|j: int| 0 <= j < i ==> a@[j] == b@[j],
        decreases a@.len() - i,
    {
        if a[i] != b[i] {
            return false;
        }
        i += 1;
    }
    assert(a@ =~= b@);
    true
}

/// What a row was drawn from: its cells, and the column of the cursor in it.
pub struct RowKey {
    pub cells: Vec<Cell>,
    pub cursor: Option<usize>,
}

impl RowKey {
    /// Whether a row that was drawn from this has to be drawn anew: only where a
    /// cell has changed, or the cursor.
    pub fn is_stale(&self, cells: &Vec<Cell>, cursor: Option<usize>) -> (r: bool)
        ensures
            r == !(self.cells@ == cells@ && self.cursor == cursor),
    {
        let same_cursor = match (self.cursor, cursor) {
            (Some(a), Some(b)) => a == b,
            (None, None) => true,
            _ => false,
        };
        !(same_cursor && same_cells(&self.cells, cells))
    }
}

// ---- labels ----

/// Text cut to a number of characters, with an ellipsis for what is cut off.
pub open spec fn cut(text: Seq<char>, max: int) -> Seq<char> {
    if text.len() <= max {
        text
    } else if max <= 1 {
        seq!['\u{2026}']
    } else {
        text.take(max - 1).push('\u{2026}')
    }
}

/// Cuts text to a number of characters.
pub fn truncate(text: &str, max_chars: usize) -> (out: String)
    ensures
        out@ == cut(text@, max_chars as int),
{
    let chars = chars_of(text);
    if chars.len() <= max_chars {
        return text.to_owned();
    }
    let mut out = String::new();
    let keep: usize = if max_chars <= 1 {
        0
    } else {
        max_chars - 1
    };
    let mut i: usize = 0;
    assert(out@ =~= text@.take(0));
    while i < keep
        invariant
            chars@ == text@,
            i <= keep <= chars@.len(),
            out@ == text@.take(i as int),
        decreases keep - i,
    {
        out.push(chars[i]);
        i += 1;
        assert(text@.take(i as int) =~= text@.take(i - 1).push(text@[i - 1]));
    }
    out.push('\u{2026}');
    assert(out@ =~= cut(text@, max_chars as int));
    out
}

/// The colour of the dot of a window: red for a notification or a failure, yellow
/// for a running command, green else.
pub open spec fn dot_color(status: WinStatus, alerted: bool) -> [u8; 3] {
    if alerted {
        [0xF3u8, 0x8Bu8, 0xA8u8]
    } else {
        match status {
            WinStatus::Idle => [0xA6u8, 0xE3u8, 0xA1u8],
            WinStatus::Running => [0xF9u8, 0xE2u8, 0xAFu8],
            WinStatus::Failed => [0xF3u8, 0x8Bu8, 0xA8u8],
        }
    }
}

/// The colour of the dot of a window.
pub fn status_color(status: WinStatus, alerted: bool) -> (color: [u8; 3])
    ensures
        color == dot_color(status, alerted),
{
    if alerted {
        return [0xF3, 0x8B, 0xA8];
    }
    match status {
        WinStatus::Idle => [0xA6, 0xE3, 0xA1],
        WinStatus::Running => [0xF9, 0xE2, 0xAF],
        WinStatus::Failed => [0xF3, 0x8B, 0xA8],
    }
}

/// How the label of a row of the sidebar is drawn.
#[derive(Clone, Copy, PartialEq, Eq, Debug, Structural)]
pub enum Tone {
    /// In the colour of a connection.
    Host,
    /// In the foreground.
    Bright,
    /// In a darker foreground.
    Dim,
}

/// How the label of a row is drawn: brightly for the window that is shown, and for
/// one with output that has not been looked at.
pub open spec fn tone_of(row: SidebarRow) -> Tone {
    if row.is_host {
        Tone::Host
    } else if row.active || row.activity {
        Tone::Bright
    } else {
        Tone::Dim
    }
}

impl SidebarItem {
    /// How the label of this row is drawn.
    pub fn tone(&self) -> (tone: Tone)
        ensures
            tone == tone_of(self@),
    {
        if self.is_host {
            Tone::Host
        } else if self.active || self.activity {
            Tone::Bright
        } else {
            Tone::Dim
        }
    }
}

/// The value of a setting between the arrows that change it.
pub fn pref_value(value: &str) -> (text: String)
    ensures
        text@ == seq!['\u{25c0}', ' '] + value@ + seq![' ', '\u{25b6}'],
{
    let mut text = String::new();
    text.push('\u{25c0}');
    text.push(' ');
    push_text(&mut text, value);
    text.push(' ');
    text.push('\u{25b6}');
    assert(text@ =~= seq!['\u{25c0}', ' '] + value@ + seq![' ', '\u{25b6}']);
    text
}

} // verus!
