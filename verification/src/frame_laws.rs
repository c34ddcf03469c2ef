//! What a frame shows of every cell.

use vstd::prelude::*;

use crate::cell::{Cell, Color};
use crate::render::{RunView, Span, Tone};
use crate::screen::Screen;
use crate::selection::Selection;
use crate::session::SidebarRow;
use crate::theme::Theme;
use crate::window::WinStatus;

verus! {

// ---- colours ----

/// The default colours are those of the theme, the first sixteen of the palette too, and
/// a colour of 24 bits is itself.
pub proof fn law_theme_gives_the_base_colours(theme: Theme, i: u8, r: u8, g: u8, b: u8)
    ensures
        Color::Default.rgb(theme, true) == theme.fg,
        Color::Default.rgb(theme, false) == theme.bg,
        i < 16 ==> Color::Indexed(i).rgb(theme, true) == theme.ansi[i as int],
        i < 16 ==> Color::Indexed(i).rgb(theme, false) == theme.ansi[i as int],
        Color::Rgb(r, g, b).rgb(theme, true) == [r, g, b],
        Color::Rgb(r, g, b).rgb(theme, false) == [r, g, b],
        i >= 16 ==> Color::Indexed(i).rgb(theme, true) == crate::cell::xterm_rgb(i),
        i >= 16 ==> Color::Indexed(i).rgb(theme, false) == crate::cell::xterm_rgb(i),
{
}

/// The colour cube has six steps of red, green and blue, in this order of weight: none,
/// and from 95 on in steps of forty.
pub proof fn law_colour_cube_counts_in_sixes(r: int, g: int, b: int)
    requires
        0 <= r < 6,
        0 <= g < 6,
        0 <= b < 6,
    ensures
        ({
            let rgb = crate::cell::xterm_rgb((16 + 36 * r + 6 * g + b) as u8);
            let level = |v: int| if v == 0 {
                0
            } else {
                95 + 40 * (v - 1)
            };
            &&& rgb[0] == level(r)
            &&& rgb[1] == level(g)
            &&& rgb[2] == level(b)
        }),
{
    let x = 36 * r + 6 * g + b;
    assert(x / 36 == r);
    assert(x / 6 == 6 * r + g);
    assert((6 * r + g) % 6 == g);
    assert(x % 6 == b);
}

/// The greys have equal parts of red, green and blue, and grow from 8 in steps of ten.
pub proof fn law_greys_grow_in_steps(i: u8)
    requires
        i >= 232,
    ensures
        crate::cell::xterm_rgb(i)[0] == 8 + 10 * (i - 232),
        crate::cell::xterm_rgb(i)[1] == 8 + 10 * (i - 232),
        crate::cell::xterm_rgb(i)[2] == 8 + 10 * (i - 232),
{
}

/// The sixteen base colours of xterm.
pub proof fn law_base_colours_of_xterm()
    ensures
        crate::cell::xterm_rgb(0)@ == seq![0x00u8, 0x00u8, 0x00u8],
        crate::cell::xterm_rgb(1)@ == seq![0xcdu8, 0x00u8, 0x00u8],
        crate::cell::xterm_rgb(2)@ == seq![0x00u8, 0xcdu8, 0x00u8],
        crate::cell::xterm_rgb(3)@ == seq![0xcdu8, 0xcdu8, 0x00u8],
        crate::cell::xterm_rgb(4)@ == seq![0x00u8, 0x00u8, 0xeeu8],
        crate::cell::xterm_rgb(5)@ == seq![0xcdu8, 0x00u8, 0xcdu8],
        crate::cell::xterm_rgb(6)@ == seq![0x00u8, 0xcdu8, 0xcdu8],
        crate::cell::xterm_rgb(7)@ == seq![0xe5u8, 0xe5u8, 0xe5u8],
        crate::cell::xterm_rgb(8)@ == seq![0x7fu8, 0x7fu8, 0x7fu8],
        crate::cell::xterm_rgb(9)@ == seq![0xffu8, 0x00u8, 0x00u8],
        crate::cell::xterm_rgb(10)@ == seq![0x00u8, 0xffu8, 0x00u8],
        crate::cell::xterm_rgb(11)@ == seq![0xffu8, 0xffu8, 0x00u8],
        crate::cell::xterm_rgb(12)@ == seq![0x5cu8, 0x5cu8, 0xffu8],
        crate::cell::xterm_rgb(13)@ == seq![0xffu8, 0x00u8, 0xffu8],
        crate::cell::xterm_rgb(14)@ == seq![0x00u8, 0xffu8, 0xffu8],
        crate::cell::xterm_rgb(15)@ == seq![0xffu8, 0xffu8, 0xffu8],
{
}

/// A cell without attributes is drawn in its own colours. Reverse video, from the cell
/// or from outside but not from both, exchanges them.
pub proof fn law_plain_cell_is_drawn_in_its_colours(cell: Cell, theme: Theme)
    requires
        !cell.bold,
        !cell.dim,
        !cell.hidden,
    ensures
        ({
            let ink = cell.fg.rgb(theme, true);
            let paper = cell.bg.rgb(theme, false);
            &&& !cell.inverse ==> cell.colors(theme, false) == (ink, paper)
            &&& !cell.inverse ==> cell.colors(theme, true) == (paper, ink)
            &&& cell.inverse ==> cell.colors(theme, false) == (paper, ink)
            &&& cell.inverse ==> cell.colors(theme, true) == (ink, paper)
        }),
{
}

/// Bold makes the eight dark base colours of the foreground their bright twins, and
/// changes no other colour, and no background.
pub proof fn law_bold_brightens_the_base_colours(cell: Cell, theme: Theme, i: u8)
    requires
        !cell.bold,
        !cell.inverse,
    ensures
        ({
            let bold = Cell { bold: true, ..cell };
            &&& cell.fg == Color::Indexed(i) && i < 8 ==> bold.colors(theme, false) == (Cell {
                fg: Color::Indexed((i + 8) as u8),
                ..cell
            }).colors(theme, false)
            &&& cell.fg == Color::Indexed(i) && i >= 8 ==> bold.colors(theme, false)
                == cell.colors(theme, false)
            &&& !(cell.fg is Indexed) ==> bold.colors(theme, false) == cell.colors(theme, false)
            &&& bold.colors(theme, false).1 == cell.bg.rgb(theme, false)
        }),
{
}

/// Dim text has half the brightness in every part, and the same background.
pub proof fn law_dim_halves_the_brightness(cell: Cell, theme: Theme, part: int)
    requires
        !cell.dim,
        !cell.hidden,
        !cell.inverse,
        0 <= part < 3,
    ensures
        ({
            let dim = Cell { dim: true, ..cell };
            &&& dim.colors(theme, false).0[part] == cell.colors(theme, false).0[part] / 2
            &&& dim.colors(theme, false).1 == cell.colors(theme, false).1
        }),
{
}

/// Italics, underlines, strokes and hyperlinks change no colour.
pub proof fn law_other_attributes_change_no_colour(
    cell: Cell,
    theme: Theme,
    extra: bool,
    italic: bool,
    underline: bool,
    strike: bool,
    link: u16,
    c: char,
)
    ensures
        (Cell { italic, underline, strike, link, c, ..cell }).colors(theme, extra) == cell.colors(
            theme,
            extra,
        ),
{
}

// ---- text ----

proof fn lemma_joined(
    cells: Seq<Cell>,
    cursor: Option<usize>,
    theme: Theme,
    start: int,
    col: int,
    at: int,
)
    requires
        0 <= start < col <= cells.len(),
        col <= at < crate::render::joined_until(cells, cursor, theme, start, col),
    ensures
        at < cells.len(),
        cursor != Some(at as usize),
        cells[at].wide_spacer || crate::render::joins(cells[start], cells[at], theme),
    decreases cells.len() - col,
{
    if col < cells.len() {
        crate::render::lemma_joined_until(cells, cursor, theme, start, col + 1);
        if at > col {
            lemma_joined(cells, cursor, theme, start, col + 1, at);
        }
    }
}

/// Whether a run is drawn as the cell in a column asks for: in its colour, its weight
/// and its slant, with the colours exchanged under the cursor.
pub open spec fn looks_like(run: RunView, cell: Cell, theme: Theme, under_cursor: bool) -> bool {
    &&& run.color == cell.colors(theme, under_cursor).0
    &&& run.bold == cell.bold
    &&& run.italic == cell.italic
}

proof fn lemma_run_looks(
    cells: Seq<Cell>,
    cursor: Option<usize>,
    theme: Theme,
    start: int,
    col: int,
)
    requires
        0 <= start < cells.len() <= usize::MAX,
        !cells[start].wide_spacer,
        start <= col < crate::render::run_end(cells, cursor, theme, start),
    ensures
        ({
            let run = crate::render::run_at(cells, cursor, theme, start);
            &&& !cells[col].wide_spacer ==> looks_like(
                run,
                cells[col],
                theme,
                cursor == Some(col as usize),
            )
            &&& !cells[col].wide_spacer && crate::width::columns_of(cells[col].c) == 2 ==> col
                == start && run.end <= start + 2
            &&& !cells[col].wide_spacer && cursor == Some(col as usize) ==> col == start
        }),
{
    crate::render::lemma_run_end(cells, cursor, theme, start);
    if col > start && crate::width::columns_of(cells[start].c) != 2 && cursor != Some(
        start as usize,
    ) {
        lemma_joined(cells, cursor, theme, start, start + 1, col);
    }
}

/// Every character is drawn in its own look: for each column that a run covers, other
/// than the right half of a wide character, the run has the foreground, the weight and
/// the slant of that cell. A wide character has a run of its own, and so has the cell
/// under the cursor. A run shows the characters of its cells in their order.
pub proof fn law_every_character_is_drawn_in_its_own_look(
    cells: Seq<Cell>,
    cursor: Option<usize>,
    theme: Theme,
    from: int,
    k: int,
    col: int,
)
    requires
        0 <= from <= cells.len() <= usize::MAX,
        0 <= k < crate::render::runs_from(cells, cursor, theme, from).len(),
    ensures
        ({
            let run = crate::render::runs_from(cells, cursor, theme, from)[k];
            &&& from <= run.start < run.end <= cells.len()
            &&& run.text == crate::screen::shown(cells.subrange(run.start, run.end))
            &&& run.start <= col < run.end && !cells[col].wide_spacer ==> {
                &&& cursor != Some(col as usize) ==> run.color == cells[col].colors(
                    theme,
                    false,
                ).0
                &&& cursor == Some(col as usize) ==> run.color == cells[col].colors(theme, true).0
                &&& run.bold == cells[col].bold
                &&& run.italic == cells[col].italic
                &&& crate::width::columns_of(cells[col].c) == 2 ==> col == run.start && run.end
                    <= run.start + 2
                &&& cursor == Some(col as usize) ==> col == run.start
            }
        }),
    decreases cells.len() - from,
{
    let all = crate::render::runs_from(cells, cursor, theme, from);
    if from < cells.len() {
        if cells[from].wide_spacer {
            law_every_character_is_drawn_in_its_own_look(cells, cursor, theme, from + 1, k, col);
        } else {
            crate::render::lemma_run_end(cells, cursor, theme, from);
            let run = crate::render::run_at(cells, cursor, theme, from);
            let rest = crate::render::runs_from(cells, cursor, theme, run.end);
            if crate::render::all_white(run.text) {
                assert(all == rest);
                law_every_character_is_drawn_in_its_own_look(
                    cells,
                    cursor,
                    theme,
                    run.end,
                    k,
                    col,
                );
            } else if k == 0 {
                assert(all == seq![run] + rest);
                assert(all[0] == run);
                if run.start <= col < run.end {
                    lemma_run_looks(cells, cursor, theme, from, col);
                }
            } else {
                assert(all == seq![run] + rest);
                assert(all[k] == rest[k - 1]);
                law_every_character_is_drawn_in_its_own_look(
                    cells,
                    cursor,
                    theme,
                    run.end,
                    k - 1,
                    col,
                );
            }
        }
    }
}

/// Runs stand side by side in the order of their columns, and none covers a column of
/// another.
pub proof fn law_runs_do_not_overlap(
    cells: Seq<Cell>,
    cursor: Option<usize>,
    theme: Theme,
    from: int,
    a: int,
    b: int,
)
    requires
        0 <= from <= cells.len() <= usize::MAX,
        0 <= a < b < crate::render::runs_from(cells, cursor, theme, from).len(),
    ensures
        crate::render::runs_from(cells, cursor, theme, from)[a].end
            <= crate::render::runs_from(cells, cursor, theme, from)[b].start,
    decreases cells.len() - from,
{
    let all = crate::render::runs_from(cells, cursor, theme, from);
    if from < cells.len() {
        if cells[from].wide_spacer {
            law_runs_do_not_overlap(cells, cursor, theme, from + 1, a, b);
        } else {
            crate::render::lemma_run_end(cells, cursor, theme, from);
            let run = crate::render::run_at(cells, cursor, theme, from);
            let rest = crate::render::runs_from(cells, cursor, theme, run.end);
            if crate::render::all_white(run.text) {
                law_runs_do_not_overlap(cells, cursor, theme, run.end, a, b);
            } else {
                assert(all == seq![run] + rest);
                assert(all[b] == rest[b - 1]);
                if a == 0 {
                    assert(all[0] == run);
                    law_every_character_is_drawn_in_its_own_look(
                        cells,
                        cursor,
                        theme,
                        run.end,
                        b - 1,
                        0,
                    );
                } else {
                    assert(all[a] == rest[a - 1]);
                    law_runs_do_not_overlap(cells, cursor, theme, run.end, a - 1, b - 1);
                }
            }
        }
    }
}

/// A run ends only where it has to: at the end of the row, after a wide character, after
/// or before the cursor, before a wide character, or where the foreground, the weight or
/// the slant changes. Each shows at least one character that is no white space.
pub proof fn law_runs_are_as_long_as_they_can_be(
    cells: Seq<Cell>,
    cursor: Option<usize>,
    theme: Theme,
    from: int,
    k: int,
)
    requires
        0 <= from <= cells.len() <= usize::MAX,
        0 <= k < crate::render::runs_from(cells, cursor, theme, from).len(),
    ensures
        ({
            let run = crate::render::runs_from(cells, cursor, theme, from)[k];
            let first = cells[run.start];
            let next = cells[run.end];
            &&& run.end == cells.len() || crate::width::columns_of(first.c) == 2 || cursor == Some(
                run.start as usize,
            ) || cursor == Some(run.end as usize) || (!next.wide_spacer && (
            crate::width::columns_of(next.c) == 2 || next.colors(theme, false).0 != first.colors(
                theme,
                false,
            ).0 || next.bold != first.bold || next.italic != first.italic))
            &&& !first.wide_spacer
            &&& exists|i: int|
                0 <= i < run.text.len() && !crate::text::is_white(#[trigger] run.text[i])
        }),
    decreases cells.len() - from,
{
    let all = crate::render::runs_from(cells, cursor, theme, from);
    if from < cells.len() {
        if cells[from].wide_spacer {
            law_runs_are_as_long_as_they_can_be(cells, cursor, theme, from + 1, k);
        } else {
            crate::render::lemma_run_end(cells, cursor, theme, from);
            let run = crate::render::run_at(cells, cursor, theme, from);
            let rest = crate::render::runs_from(cells, cursor, theme, run.end);
            if crate::render::all_white(run.text) {
                law_runs_are_as_long_as_they_can_be(cells, cursor, theme, run.end, k);
            } else if k == 0 {
                assert(all == seq![run] + rest);
                assert(all[0] == run);
                lemma_joined_stops(cells, cursor, theme, from, from + 1);
            } else {
                assert(all == seq![run] + rest);
                assert(all[k] == rest[k - 1]);
                law_runs_are_as_long_as_they_can_be(cells, cursor, theme, run.end, k - 1);
            }
        }
    }
}

proof fn lemma_joined_stops(
    cells: Seq<Cell>,
    cursor: Option<usize>,
    theme: Theme,
    start: int,
    col: int,
)
    requires
        0 <= start < col <= cells.len(),
    ensures
        ({
            let end = crate::render::joined_until(cells, cursor, theme, start, col);
            end >= cells.len() || cursor == Some(end as usize) || (!cells[end].wide_spacer
                && !crate::render::joins(cells[start], cells[end], theme))
        }),
    decreases cells.len() - col,
{
    if col < cells.len() {
        lemma_joined_stops(cells, cursor, theme, start, col + 1);
    }
}

// ---- backgrounds ----

/// The cursor is drawn where it stands, if it is visible and the view is live, and
/// nowhere else.
pub proof fn law_cursor_is_drawn_where_it_stands(s: Screen, row: int, col: usize)
    requires
        s.wf(),
    ensures
        s.cursor_col(row) == Some(col) <==> s.modes.cursor_visible && s.view_offset == 0 && s.cy
            == row && s.cx == col,
{
}

/// Once the spans of a row are painted, the cursor's cell has the colour of the cursor,
/// a selected one the colour of the selection, and any other its own background.
pub proof fn law_backgrounds_show_cursor_and_selection(
    s: Screen,
    selection: Option<Selection>,
    theme: Theme,
    row: usize,
    col: usize,
)
    requires
        s.wf(),
        row < s.rows,
        col < s.cols,
    ensures
        ({
            let spans = crate::render::spans_from(
                s.backgrounds(selection, theme, row),
                theme.bg,
                0,
            );
            let color = crate::render::painted(spans, theme.bg, col as int);
            let at_cursor = s.modes.cursor_visible && s.view_offset == 0 && s.cx == col && s.cy
                == row;
            let selected = selection is Some && selection->0.covers(col, row);
            &&& at_cursor ==> color == theme.cursor
            &&& !at_cursor && selected ==> color == theme.selection
            &&& !at_cursor && !selected ==> color == s.visible_cell(
                col as int,
                row as int,
            ).colors(theme, false).1
        }),
{
    let colors = s.backgrounds(selection, theme, row);
    crate::render::law_spans_paint_every_background(colors, theme.bg, col as int);
    assert(colors[col as int] == s.background(selection, theme, col, row));
}

/// Each colour is painted in one span as far as it goes: a span ends at the end of the
/// row or where the background changes.
pub proof fn law_spans_are_as_long_as_they_can_be(
    colors: Seq<[u8; 3]>,
    plain: [u8; 3],
    from: int,
    k: int,
)
    requires
        0 <= from <= colors.len() <= usize::MAX,
        0 <= k < crate::render::spans_from(colors, plain, from).len(),
    ensures
        ({
            let span = crate::render::spans_from(colors, plain, from)[k];
            &&& from <= span.start < span.end <= colors.len()
            &&& span.color == colors[span.start as int]
            &&& span.color != plain
            &&& span.end == colors.len() || colors[span.end as int] != span.color
        }),
    decreases colors.len() - from,
{
    let all = crate::render::spans_from(colors, plain, from);
    if from < colors.len() {
        lemma_same_stops(colors, from, from + 1);
        let end = crate::render::same_until(colors, from, from + 1);
        let rest = crate::render::spans_from(colors, plain, end);
        if colors[from] == plain {
            law_spans_are_as_long_as_they_can_be(colors, plain, end, k);
        } else {
            let span = Span { start: from as usize, end: end as usize, color: colors[from] };
            assert(all == seq![span] + rest);
            if k == 0 {
                assert(all[0] == span);
            } else {
                assert(all[k] == rest[k - 1]);
                law_spans_are_as_long_as_they_can_be(colors, plain, end, k - 1);
            }
        }
    }
}

proof fn lemma_same_stops(colors: Seq<[u8; 3]>, start: int, col: int)
    requires
        0 <= start < col <= colors.len(),
    ensures
        ({
            let end = crate::render::same_until(colors, start, col);
            &&& col <= end <= colors.len()
            &&& end == colors.len() || colors[end] != colors[start]
        }),
    decreases colors.len() - col,
{
    if col < colors.len() {
        lemma_same_stops(colors, start, col + 1);
    }
}

/// A row is drawn from the cells that it shows.
pub proof fn law_row_is_drawn_from_what_it_shows(s: Screen, row: int, col: int)
    requires
        s.wf(),
        0 <= col < s.cols,
    ensures
        s.shown_row(row).len() == s.cols,
        s.shown_row(row)[col] == s.visible_cell(col, row),
{
}

/// A selection covers, in its first row, what stands from its beginning on, in its last
/// row what stands up to its end, and whole rows between.
pub proof fn law_selection_runs_line_by_line(
    from: (usize, usize),
    to: (usize, usize),
    col: usize,
    row: usize,
)
    requires
        from.1 < to.1 || (from.1 == to.1 && from.0 <= to.0),
    ensures
        ({
            let sel = Selection { anchor: from, head: to };
            &&& row < from.1 || row > to.1 ==> !sel.covers(col, row)
            &&& from.1 < row < to.1 ==> sel.covers(col, row)
            &&& row == from.1 && from.1 < to.1 ==> (sel.covers(col, row) <==> col >= from.0)
            &&& row == to.1 && from.1 < to.1 ==> (sel.covers(col, row) <==> col <= to.0)
            &&& row == from.1 && from.1 == to.1 ==> (sel.covers(col, row) <==> from.0 <= col
                <= to.0)
        }),
{
}

// ---- underlines ----

/// Every underlined character has a line under it, as long as it is wide, in the colour
/// of its text; no line stands under anything else.
pub proof fn law_underlines_stand_under_underlined_characters(
    cells: Seq<Cell>,
    cursor: Option<usize>,
    theme: Theme,
    n: int,
    col: int,
    k: int,
)
    requires
        0 <= n <= cells.len() < usize::MAX,
    ensures
        ({
            let spans = crate::render::underlines(cells, cursor, theme, n);
            &&& 0 <= col < n && cells[col].underline && !cells[col].wide_spacer ==> exists|i: int|
                0 <= i < spans.len() && is_line_under(
                    #[trigger] spans[i],
                    cells[col],
                    theme,
                    cursor == Some(col as usize),
                    col,
                )
            &&& 0 <= k < spans.len() ==> {
                let c = spans[k].start as int;
                &&& 0 <= c < n
                &&& cells[c].underline && !cells[c].wide_spacer
                &&& is_line_under(spans[k], cells[c], theme, cursor == Some(c as usize), c)
            }
        }),
    decreases n,
{
    if n > 0 {
        law_underlines_stand_under_underlined_characters(cells, cursor, theme, n - 1, col, k);
        let before = crate::render::underlines(cells, cursor, theme, n - 1);
        let spans = crate::render::underlines(cells, cursor, theme, n);
        let cell = cells[n - 1];
        if cell.underline && !cell.wide_spacer {
            let line = crate::render::underline(
                cell,
                theme,
                cursor == Some((n - 1) as usize),
                n - 1,
            );
            assert(spans == before.push(line));
            assert(spans[before.len() as int] == line);
            if 0 <= k < before.len() {
                assert(spans[k] == before[k]);
            }
        }
        if 0 <= col < n - 1 && cells[col].underline && !cells[col].wide_spacer {
            let i = choose|i: int|
                0 <= i < before.len() && is_line_under(
                    #[trigger] before[i],
                    cells[col],
                    theme,
                    cursor == Some(col as usize),
                    col,
                );
            assert(spans[i] == before[i]);
        }
    }
}

/// Whether a span is the line under a cell in a column.
pub open spec fn is_line_under(
    span: Span,
    cell: Cell,
    theme: Theme,
    under_cursor: bool,
    col: int,
) -> bool {
    &&& span.start == col
    &&& crate::width::columns_of(cell.c) == 2 ==> span.end == col + 2
    &&& crate::width::columns_of(cell.c) != 2 ==> span.end == col + 1
    &&& span.color == cell.colors(theme, under_cursor).0
}

// ---- labels ----

/// Text that fits is shown whole; other text is cut to the room there is, with an
/// ellipsis at its end and its beginning before that.
pub proof fn law_long_labels_end_in_an_ellipsis(text: Seq<char>, max: int)
    requires
        max >= 0,
    ensures
        ({
            let out = crate::render::cut(text, max);
            &&& text.len() <= max ==> out == text
            &&& text.len() > max ==> out.len() > 0 && out.last() == '\u{2026}'
            &&& text.len() > max && max >= 1 ==> out.len() == max
            &&& text.len() > max ==> out.drop_last() == text.take(out.len() - 1)
        }),
{
    let out = crate::render::cut(text, max);
    if text.len() > max {
        assert(out.drop_last() =~= text.take(out.len() - 1));
    }
}

/// The dot of a window tells a failure, a running command and a waiting shell apart, and
/// a notification from a window that runs or waits undisturbed.
pub proof fn law_dots_tell_the_status_apart(status: WinStatus)
    ensures
        crate::render::dot_color(WinStatus::Idle, false)@ == seq![0xa6u8, 0xe3u8, 0xa1u8],
        crate::render::dot_color(WinStatus::Running, false)@ == seq![0xf9u8, 0xe2u8, 0xafu8],
        crate::render::dot_color(WinStatus::Failed, false)@ == seq![0xf3u8, 0x8bu8, 0xa8u8],
        crate::render::dot_color(status, true)@ == seq![0xf3u8, 0x8bu8, 0xa8u8],
{
}

/// A connection has its own tone; a window is bright where it is shown or has output
/// that nobody has seen, and dim otherwise.
pub proof fn law_tones_of_the_sidebar(row: SidebarRow)
    ensures
        row.is_host <==> crate::render::tone_of(row) == Tone::Host,
        !row.is_host && (row.active || row.activity) <==> crate::render::tone_of(row)
            == Tone::Bright,
        !row.is_host && !row.active && !row.activity <==> crate::render::tone_of(row) == Tone::Dim,
{
}

} // verus!
