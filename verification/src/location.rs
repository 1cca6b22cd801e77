//! Positions in source text.

use vstd::prelude::*;

verus! {

/// A position in source text; both coordinates count from zero.
#[derive(Clone, Copy, Debug, PartialEq, Eq, Structural)]
pub struct Location {
    pub col: usize,
    pub line: usize,
}

impl Default for Location {
    fn default() -> (r: Self)
        ensures
            r == (Location { col: 0, line: 0 }),
    {
        Location { col: 0, line: 0 }
    }
}

impl Location {
    /// The position in the given line and column.
    pub fn new(line: usize, col: usize) -> (r: Self)
        ensures
            r.line == line,
            r.col == col,
    {
        Location { col, line }
    }

    /// The position reached from `self` by reading the character `c`.
    pub open spec fn after(self, c: char) -> Location {
        if c == '\n' {
            Location { col: 0, line: (self.line + 1) as usize }
        } else {
            Location { col: (self.col + 1) as usize, line: self.line }
        }
    }

    /// The position reached from `self` by reading all of `text`.
    pub open spec fn after_all(self, text: Seq<char>) -> Location
        decreases text.len(),
    {
        if text.len() == 0 {
            self
        } else {
            self.after_all(text.drop_last()).after(text.last())
        }
    }

    /// Whether `count` further characters can be read from here without
    /// either coordinate leaving the machine's range.
    pub open spec fn has_room(self, count: int) -> bool {
        &&& self.line + count <= usize::MAX
        &&& self.col + count <= usize::MAX
    }

    /// Moves to the start of the next line.
    pub fn newline(&mut self)
        requires
            old(self).line < usize::MAX,
        ensures
            final(self).line == old(self).line + 1,
            final(self).col == 0,
    {
        self.line += 1;
        self.col = 0;
    }

    /// Moves `by` columns to the right on the same line.
    pub fn advance_col(&mut self, by: usize)
        requires
            old(self).col + by <= usize::MAX,
        ensures
            final(self).col == old(self).col + by,
            final(self).line == old(self).line,
    {
        self.col += by
    }
}

} // verus!
