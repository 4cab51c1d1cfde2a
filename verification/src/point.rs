//! Source positions.

use vstd::prelude::*;

verus! {

/// A zero-based row/column position in a source file.
#[derive(Clone, Copy, Debug, PartialEq, Eq, Structural, PartialOrd, Ord, Hash, Default)]
pub struct Point {
    pub row: usize,
    pub column: usize,
}

impl Point {
    pub fn new(row: usize, column: usize) -> (p: Point)
        ensures
            p.row == row,
            p.column == column,
    {
        Point { row, column }
    }

    /// Row-major order: an earlier row wins, then an earlier column.
    pub open spec fn before(self, other: Point) -> bool {
        self.row < other.row || (self.row == other.row && self.column < other.column)
    }

    pub open spec fn at_or_before(self, other: Point) -> bool {
        self == other || self.before(other)
    }

    pub fn is_before(&self, other: &Point) -> (r: bool)
        ensures
            r == self.before(*other),
    {
        self.row < other.row || (self.row == other.row && self.column < other.column)
    }

    pub fn is_at_or_before(&self, other: &Point) -> (r: bool)
        ensures
            r == self.at_or_before(*other),
    {
        self.row < other.row || (self.row == other.row && self.column <= other.column)
    }
}

/// `before` is a strict total order on points.
pub proof fn lemma_point_order(a: Point, b: Point, c: Point)
    ensures
        !a.before(a),
        a.before(b) && b.before(c) ==> a.before(c),
        a.before(b) || b.before(a) || a == b,
        a.before(b) ==> !b.before(a),
{
}

} // verus!
