//! Display geometry: pixel dimensions, rotation, and the derived cell grid.
//!
//! The glyph cell is a fixed 6 by 10 pixel rectangle in a 16-bit-per-pixel
//! format, so a display's cell grid is its effective pixel size divided by
//! the glyph size. Rotating the display by a quarter turn swaps the
//! effective width and height, which is why orientation must be fixed
//! before the grid is ever computed.

use vstd::prelude::*;

verus! {

/// Width of one glyph cell in pixels.
pub const GLYPH_WIDTH: u16 = 6;

/// Height of one glyph cell in pixels.
pub const GLYPH_HEIGHT: u16 = 10;

/// Bytes per pixel in the display's framebuffer format.
pub const BYTES_PER_PIXEL: u16 = 2;

/// One of the four rotations a display controller supports.
#[derive(Clone, Copy, PartialEq, Eq, Structural, Debug)]
pub enum Rotation {
    Deg0,
    Deg90,
    Deg180,
    Deg270,
}

impl Rotation {
    /// A quarter-turn rotation swaps the display's width and height.
    pub open spec fn swaps_axes(self) -> bool {
        self is Deg90 || self is Deg270
    }
}

/// Immutable pixel dimensions of the panel plus the chosen rotation.
#[derive(Clone, Copy, PartialEq, Eq, Structural, Debug)]
pub struct DisplayGeometry {
    /// Native panel width in pixels, before rotation.
    pub width: u16,
    /// Native panel height in pixels, before rotation.
    pub height: u16,
    /// Rotation applied by the display controller.
    pub rotation: Rotation,
}

impl DisplayGeometry {
    /// A geometry is usable when the panel has at least one glyph cell in
    /// each direction under its rotation.
    pub open spec fn wf(self) -> bool {
        &&& GLYPH_WIDTH as int <= self.spec_effective_width() as int
        &&& GLYPH_HEIGHT as int <= self.spec_effective_height() as int
    }

    /// Width in pixels after rotation.
    pub open spec fn spec_effective_width(self) -> u16 {
        if self.rotation.swaps_axes() {
            self.height
        } else {
            self.width
        }
    }

    /// Height in pixels after rotation.
    pub open spec fn spec_effective_height(self) -> u16 {
        if self.rotation.swaps_axes() {
            self.width
        } else {
            self.height
        }
    }

    pub fn effective_width(&self) -> (r: u16)
        ensures
            r == self.spec_effective_width(),
    {
        match self.rotation {
            Rotation::Deg90 | Rotation::Deg270 => self.height,
            Rotation::Deg0 | Rotation::Deg180 => self.width,
        }
    }

    pub fn effective_height(&self) -> (r: u16)
        ensures
            r == self.spec_effective_height(),
    {
        match self.rotation {
            Rotation::Deg90 | Rotation::Deg270 => self.width,
            Rotation::Deg0 | Rotation::Deg180 => self.height,
        }
    }

    /// Number of glyph columns the rotated display holds.
    pub open spec fn spec_columns(self) -> int {
        self.spec_effective_width() as int / GLYPH_WIDTH as int
    }

    /// Number of glyph rows the rotated display holds.
    pub open spec fn spec_rows(self) -> int {
        self.spec_effective_height() as int / GLYPH_HEIGHT as int
    }

    pub fn columns(&self) -> (r: u16)
        ensures
            r as int == self.spec_columns(),
    {
        self.effective_width() / GLYPH_WIDTH
    }

    pub fn rows(&self) -> (r: u16)
        ensures
            r as int == self.spec_rows(),
    {
        self.effective_height() / GLYPH_HEIGHT
    }

    /// Bytes needed to transfer one full pixel row of the rotated display.
    pub open spec fn spec_row_bytes(self) -> int {
        self.spec_effective_width() as int * BYTES_PER_PIXEL as int
    }

    pub fn row_bytes(&self) -> (r: u32)
        ensures
            r as int == self.spec_row_bytes(),
    {
        self.effective_width() as u32 * BYTES_PER_PIXEL as u32
    }
}

/// Bytes needed to transfer one glyph cell's pixel rectangle.
pub open spec fn spec_cell_bytes() -> int {
    GLYPH_WIDTH as int * GLYPH_HEIGHT as int * BYTES_PER_PIXEL as int
}

pub fn cell_bytes() -> (r: u32)
    ensures
        r as int == spec_cell_bytes(),
{
    let w: u32 = GLYPH_WIDTH as u32;
    let h: u32 = GLYPH_HEIGHT as u32;
    let b: u32 = BYTES_PER_PIXEL as u32;
    assert(w == 6 && h == 10 && b == 2);
    w * h * b
}

} // verus!
