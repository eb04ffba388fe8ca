//! The canvas: the fixed character grid available for painting.
//!
//! Its size is a snapshot of the terminal dimensions taken once at startup
//! and never changes during a session. The bottom two rows are reserved (the
//! status line and the wrap margin), so a workable canvas is at least four
//! rows tall and one column wide.

use vstd::prelude::*;

verus! {

/// Width and height of the paintable grid, in character cells.
#[derive(Clone, Copy, PartialEq, Eq, Structural, Debug)]
pub struct Canvas {
    pub width: u16,
    pub height: u16,
}

impl Canvas {
    /// A canvas is workable when it has at least one column and enough rows
    /// for the wrap algorithm's two reserved bottom rows.
    pub open spec fn wf(self) -> bool {
        self.width >= 1 && self.height >= 4
    }

    /// Snapshot the terminal size as the canvas.
    pub fn new(width: u16, height: u16) -> (c: Canvas)
        requires
            width >= 1,
            height >= 4,
        ensures
            c == (Canvas { width, height }),
            c.wf(),
    {
        Canvas { width, height }
    }
}

} // verus!
