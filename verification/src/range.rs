//! Positions and ranges in source text.

use vstd::prelude::*;

verus! {

/// Represents a range in the source code.
pub type Range = core::ops::Range<Position>;

/// A position within a text document.
#[derive(Clone, Copy, PartialEq, Eq, Structural, Debug)]
pub struct Position {
    pub index: usize,
    pub line: usize,
    pub col: usize,
}

impl Position {
    /// The start of a document.
    pub fn new() -> (p: Position)
        ensures
            p.index == 0 && p.line == 0 && p.col == 0,
    {
        Position { index: 0, line: 0, col: 0 }
    }

    /// Moves one column to the right, one character further in the text.
    pub fn move_to_next_col(&mut self)
        requires
            old(self).index < usize::MAX,
            old(self).col < usize::MAX,
        ensures
            final(self).index == old(self).index + 1,
            final(self).col == old(self).col + 1,
            final(self).line == old(self).line,
    {
        self.index = self.index + 1;
        self.col = self.col + 1;
    }

    /// Moves one column to the left, one character back in the text.
    pub fn move_to_prev_col(&mut self)
        requires
            old(self).index >= 1,
            old(self).col >= 1,
        ensures
            final(self).index == old(self).index - 1,
            final(self).col == old(self).col - 1,
            final(self).line == old(self).line,
    {
        self.index = self.index - 1;
        self.col = self.col - 1;
    }

    /// Moves to the start of the next line; the index stays where it is.
    pub fn move_to_next_line(&mut self)
        requires
            old(self).line < usize::MAX,
        ensures
            final(self).line == old(self).line + 1,
            final(self).col == 0,
            final(self).index == old(self).index,
    {
        self.line = self.line + 1;
        self.col = 0;
    }
}

/// Moving to the next column and back to the previous one returns to the
/// position one started from.
pub proof fn law_next_col_then_prev_col(p: Position, q: Position, r: Position)
    requires
        p.index < usize::MAX,
        p.col < usize::MAX,
        q.index == p.index + 1 && q.col == p.col + 1 && q.line == p.line,
        r.index == q.index - 1 && r.col == q.col - 1 && r.line == q.line,
    ensures
        r == p,
{
}

} // verus!
