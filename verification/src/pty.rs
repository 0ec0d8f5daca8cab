//! The size of a terminal.

use vstd::prelude::*;

verus! {

/// How many columns and lines a terminal has.
#[derive(Debug, Clone, Copy, PartialEq, Eq, Structural)]
pub struct PtyDimensions {
    pub cols: usize,
    pub lines: usize,
}

impl PtyDimensions {
    /// All lines; none are kept beyond the screen.
    pub fn total_lines(&self) -> (r: usize)
        ensures
            r == self.lines,
    {
        self.lines
    }

    /// The lines on the screen.
    pub fn screen_lines(&self) -> (r: usize)
        ensures
            r == self.lines,
    {
        self.lines
    }

    /// The columns.
    pub fn columns(&self) -> (r: usize)
        ensures
            r == self.cols,
    {
        self.cols
    }
}

} // verus!
