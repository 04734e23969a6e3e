//! One character position's state in the terminal grid: a glyph and its
//! foreground and background colors in the display's 16-bit pixel format.

use vstd::prelude::*;

verus! {

/// Black in the display's 16-bit pixel format.
pub const COLOR_BLACK: u16 = 0x0000;

/// White in the display's 16-bit pixel format.
pub const COLOR_WHITE: u16 = 0xFFFF;

/// One terminal cell: a glyph with foreground and background colors.
#[derive(Clone, Copy, PartialEq, Eq, Structural, Debug)]
pub struct Cell {
    /// The character shown at this grid position.
    pub glyph: char,
    /// Foreground color of the glyph's set pixels.
    pub fg: u16,
    /// Background color of the glyph's clear pixels.
    pub bg: u16,
}

impl Cell {
    /// The cell every grid position holds before anything is drawn: a
    /// space over the cleared display's background.
    pub open spec fn spec_blank() -> Cell {
        Cell { glyph: ' ', fg: COLOR_WHITE, bg: COLOR_BLACK }
    }

    pub fn blank() -> (c: Cell)
        ensures
            c == Cell::spec_blank(),
    {
        Cell { glyph: ' ', fg: COLOR_WHITE, bg: COLOR_BLACK }
    }

    pub fn new(glyph: char, fg: u16, bg: u16) -> (c: Cell)
        ensures
            c == (Cell { glyph, fg, bg }),
    {
        Cell { glyph, fg, bg }
    }
}

} // verus!
