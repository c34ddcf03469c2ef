//! The part of the screen that the mouse has selected.

use vstd::prelude::*;

verus! {

/// A selection by mouse, in columns and rows of what is shown: `anchor` is where
/// it began, `head` is where it has got to. It runs line by line, as text does.
#[derive(Clone, Copy, PartialEq, Eq, Debug)]
pub struct Selection {
    /// Column and row.
    pub anchor: (usize, usize),
    /// Column and row.
    pub head: (usize, usize),
}

/// Whether the place `a` (column, row) comes no later than `b` in reading order.
pub open spec fn reads_before(a: (usize, usize), b: (usize, usize)) -> bool {
    a.1 < b.1 || (a.1 == b.1 && a.0 <= b.0)
}

/// Two places in reading order.
pub open spec fn in_order(
    a: (usize, usize),
    b: (usize, usize),
) -> ((usize, usize), (usize, usize)) {
    if reads_before(a, b) {
        (a, b)
    } else {
        (b, a)
    }
}

/// Puts two places into reading order.
pub fn order_places(
    a: (usize, usize),
    b: (usize, usize),
) -> (r: ((usize, usize), (usize, usize)))
    ensures
        r == in_order(a, b),
{
    if a.1 < b.1 || (a.1 == b.1 && a.0 <= b.0) {
        (a, b)
    } else {
        (b, a)
    }
}

impl Selection {
    /// Whether a place lies between the two ends in reading order, both included.
    pub open spec fn covers(self, col: usize, row: usize) -> bool {
        let (s, e) = in_order(self.anchor, self.head);
        reads_before(s, (col, row)) && reads_before((col, row), e)
    }

    /// The two ends in reading order.
    pub fn ordered(&self) -> (r: ((usize, usize), (usize, usize)))
        ensures
            r == in_order(self.anchor, self.head),
    {
        order_places(self.anchor, self.head)
    }

    /// Whether the place is selected.
    pub fn contains(&self, col: usize, row: usize) -> (r: bool)
        ensures
            r == self.covers(col, row),
    {
        let (s, e) = self.ordered();
        if row < s.1 || row > e.1 {
            return false;
        }
        let left: usize = if row == s.1 {
            s.0
        } else {
            0
        };
        let right: usize = if row == e.1 {
            e.0
        } else {
            usize::MAX
        };
        col >= left && col <= right
    }

    /// Whether the selection has not left the place where it began.
    pub fn is_empty(&self) -> (r: bool)
        ensures
            r == (self.anchor == self.head),
    {
        self.anchor.0 == self.head.0 && self.anchor.1 == self.head.1
    }
}

} // verus!
