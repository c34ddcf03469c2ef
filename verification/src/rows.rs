//! Rows of cells.

use vstd::prelude::*;

use crate::cell::Cell;

verus! {

/// What a list of rows holds.
pub open spec fn rows_view(rows: Seq<Vec<Cell>>) -> Seq<Seq<Cell>> {
    rows.map_values(|row: Vec<Cell>| row@)
}

/// A row of cells that are all the same.
pub fn filled_row(cols: usize, cell: Cell) -> (row: Vec<Cell>)
    ensures
        row@ == crate::screen::uniform_row(cols as int, cell),
{
    let row = vec![cell; cols];
    assert(row@ =~= crate::screen::uniform_row(cols as int, cell));
    row
}

/// Rows of cells that are all the same.
pub fn filled_rows(cols: usize, rows: usize, cell: Cell) -> (out: Vec<Vec<Cell>>)
    ensures
        rows_view(out@) == crate::screen::uniform(cols as int, rows as int, cell),
{
    let mut out: Vec<Vec<Cell>> = Vec::new();
    let mut r: usize = 0;
    while r < rows
        invariant
            r <= rows,
            out@.len() == r,
            forall|i: int|
                0 <= i < r ==> (#[trigger] out@[i])@ == crate::screen::uniform_row(
                    cols as int,
                    cell,
                ),
        decreases rows - r,
    {
        out.push(filled_row(cols, cell));
        r += 1;
    }
    assert(rows_view(out@) =~~= crate::screen::uniform(cols as int, rows as int, cell));
    out
}

/// Sets the cells of a row from `from` to `to` (not included).
pub fn fill(row: &mut Vec<Cell>, from: usize, to: usize, cell: Cell)
    requires
        to <= old(row)@.len(),
    ensures
        final(row)@ == Seq::new(
            old(row)@.len(),
            |c: int|
                if from <= c < to {
                    cell
                } else {
                    old(row)@[c]
                },
        ),
{
    let ghost start = row@;
    let mut c: usize = from;
    while c < to
        invariant
            from <= c,
            from <= to ==> c <= to,
            from > to ==> c == from,
            to <= start.len(),
            row@.len() == start.len(),
            forall|i: int|
                0 <= i < start.len() ==> #[trigger] row@[i] == (if from <= i < c {
                    cell
                } else {
                    start[i]
                }),
        decreases to - c,
    {
        row.set(c, cell);
        c += 1;
    }
    assert(row@ =~= Seq::new(
        start.len(),
        |c: int|
            if from <= c < to {
                cell
            } else {
                start[c]
            },
    ));
}

/// Moves the rows `first` to `last` up by `n`, puts copies of one cell into the
/// rows left free, and hands back the rows that have moved out.
pub fn shift_up(
    rows: &mut Vec<Vec<Cell>>,
    first: usize,
    last: usize,
    n: usize,
    cols: usize,
    cell: Cell,
) -> (out: Vec<Vec<Cell>>)
    requires
        first <= last < old(rows)@.len(),
        n <= last - first + 1,
    ensures
        rows_view(final(rows)@) == crate::screen::moved_up(
            rows_view(old(rows)@),
            first as int,
            last as int,
            n as int,
            crate::screen::uniform_row(cols as int, cell),
        ),
        rows_view(out@) == rows_view(old(rows)@).subrange(first as int, first + n),
{
    let ghost start = rows_view(rows@);
    let ghost fresh = crate::screen::uniform_row(cols as int, cell);
    let mut out: Vec<Vec<Cell>> = Vec::new();
    let mut i: usize = 0;
    assert(rows_view(rows@) =~= crate::screen::moved_up(
        start,
        first as int,
        last as int,
        0,
        fresh,
    ));
    assert(rows_view(out@) =~= start.subrange(first as int, first as int));
    while i < n
        invariant
            i <= n,
            n <= last - first + 1,
            first <= last < start.len(),
            fresh == crate::screen::uniform_row(cols as int, cell),
            rows@.len() == start.len(),
            rows_view(rows@) == crate::screen::moved_up(
                start,
                first as int,
                last as int,
                i as int,
                fresh,
            ),
            rows_view(out@) == start.subrange(first as int, first + i),
        decreases n - i,
    {
        let ghost before = rows_view(rows@);
        let row = rows.remove(first);
        assert(row@ == before[first as int]);
        assert(row@ == start[first + i]);
        let ghost taken = rows_view(out@);
        out.push(row);
        assert(rows_view(out@) =~= taken.push(row@));
        rows.insert(last, filled_row(cols, cell));
        i += 1;
        proof {
            let after = rows_view(rows@);
            assert forall|r: int| 0 <= r < start.len() implies #[trigger] after[r]
                == crate::screen::moved_up(
                start,
                first as int,
                last as int,
                i as int,
                fresh,
            )[r] by {
                if first <= r < last {
                    assert(after[r] == before[r + 1]);
                } else if r == last {
                    assert(after[r] == fresh);
                } else {
                    assert(after[r] == before[r]);
                }
            }
            assert(after =~= crate::screen::moved_up(
                start,
                first as int,
                last as int,
                i as int,
                fresh,
            ));
            assert(rows_view(out@) =~= start.subrange(first as int, first + i));
        }
    }
    out
}

/// Moves the rows `first` to `last` down by `n` and puts copies of one cell into
/// the rows left free.
pub fn shift_down(
    rows: &mut Vec<Vec<Cell>>,
    first: usize,
    last: usize,
    n: usize,
    cols: usize,
    cell: Cell,
)
    requires
        first <= last < old(rows)@.len(),
        n <= last - first + 1,
    ensures
        rows_view(final(rows)@) == crate::screen::moved_down(
            rows_view(old(rows)@),
            first as int,
            last as int,
            n as int,
            crate::screen::uniform_row(cols as int, cell),
        ),
{
    let ghost start = rows_view(rows@);
    let ghost fresh = crate::screen::uniform_row(cols as int, cell);
    let mut i: usize = 0;
    assert(rows_view(rows@) =~= crate::screen::moved_down(
        start,
        first as int,
        last as int,
        0,
        fresh,
    ));
    while i < n
        invariant
            i <= n,
            n <= last - first + 1,
            first <= last < start.len(),
            fresh == crate::screen::uniform_row(cols as int, cell),
            rows@.len() == start.len(),
            rows_view(rows@) == crate::screen::moved_down(
                start,
                first as int,
                last as int,
                i as int,
                fresh,
            ),
        decreases n - i,
    {
        let ghost before = rows_view(rows@);
        let _ = rows.remove(last);
        rows.insert(first, filled_row(cols, cell));
        i += 1;
        proof {
            let after = rows_view(rows@);
            assert forall|r: int| 0 <= r < start.len() implies #[trigger] after[r]
                == crate::screen::moved_down(
                start,
                first as int,
                last as int,
                i as int,
                fresh,
            )[r] by {
                if first < r <= last {
                    assert(after[r] == before[r - 1]);
                } else if r == first {
                    assert(after[r] == fresh);
                } else {
                    assert(after[r] == before[r]);
                }
            }
            assert(after =~= crate::screen::moved_down(
                start,
                first as int,
                last as int,
                i as int,
                fresh,
            ));
        }
    }
}

/// The top left part of a raster, cut or filled up with empty cells to a size.
pub fn reflow_keep_topleft(src: &Vec<Vec<Cell>>, cols: usize, rows: usize) -> (out: Vec<Vec<Cell>>)
    ensures
        rows_view(out@) == crate::screen::top_left(rows_view(src@), cols as int, rows as int),
{
    let ghost target = crate::screen::top_left(rows_view(src@), cols as int, rows as int);
    let mut out: Vec<Vec<Cell>> = Vec::new();
    let mut r: usize = 0;
    while r < rows
        invariant
            r <= rows,
            out@.len() == r,
            target == crate::screen::top_left(rows_view(src@), cols as int, rows as int),
            forall|i: int| 0 <= i < r ==> (#[trigger] out@[i])@ == target[i],
        decreases rows - r,
    {
        let mut row: Vec<Cell> = Vec::new();
        let mut c: usize = 0;
        while c < cols
            invariant
                c <= cols,
                r < rows,
                row@.len() == c,
                target == crate::screen::top_left(rows_view(src@), cols as int, rows as int),
                forall|i: int| 0 <= i < c ==> row@[i] == target[r as int][i],
            decreases cols - c,
        {
            if r < src.len() && c < src[r].len() {
                row.push(src[r][c]);
            } else {
                row.push(Cell::default());
            }
            c += 1;
        }
        assert(row@ =~= target[r as int]);
        out.push(row);
        r += 1;
    }
    assert(rows_view(out@) =~= target);
    out
}

} // verus!
