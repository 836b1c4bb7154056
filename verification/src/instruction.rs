//! The output-sink vocabulary: the terminal instructions a frame is composed
//! of. Rendering is verified as the exact sequence of instructions it emits;
//! carrying them out against a real terminal is left to the surrounding
//! program.

use crate::color::Rgb;
use vstd::prelude::*;

verus! {

/// One instruction to the output sink.
#[derive(Clone, Copy, Debug, PartialEq, Eq, Structural)]
pub enum Instruction {
    /// Hide the cursor.
    HideCursor,
    /// Move the write position to the given column and row.
    MoveTo(u16, u16),
    /// Set the background color for what is printed next.
    SetBackground(Rgb),
    /// Set the foreground color for what is printed next.
    SetForeground(Rgb),
    /// Print one character at the write position.
    Print(char),
    /// Reset any color override.
    ResetColors,
    /// Flush buffered output to the terminal.
    Flush,
}

} // verus!
