//! The display-controller bootstrap sequence as a typed state machine.
//!
//! The driver for a pixel display must be initialized, then oriented, then
//! cleared, in that order, before a cell-grid backend may be built over
//! it: the glyph-to-pixel mapping and the clear operation's target
//! rectangle both depend on the final width and height after rotation.
//! Each step here consumes the previous state and returns the next, so a
//! backend can only ever be constructed over a display that was oriented
//! before it was cleared. The types record the configuration the external
//! driver was given; the driver itself performs the hardware work.

use vstd::prelude::*;
use crate::geometry::{DisplayGeometry, Rotation};

verus! {

/// A display controller that has been initialized and reset, but whose
/// orientation is not yet fixed. Its geometry is still the panel's native
/// one, so no cell grid may be derived from it.
pub struct ControllerDriver {
    /// Native panel width in pixels.
    pub width: u16,
    /// Native panel height in pixels.
    pub height: u16,
    /// Capacity in bytes of the scratch buffer the transport was built
    /// with; every single pixel-rectangle transfer must fit in it.
    pub scratch_capacity: usize,
}

impl ControllerDriver {
    /// Records a controller the external driver has initialized and reset
    /// over a transport with the given scratch buffer.
    pub fn init(width: u16, height: u16, scratch_capacity: usize) -> (c: ControllerDriver)
        ensures
            c == (ControllerDriver { width, height, scratch_capacity }),
    {
        ControllerDriver { width, height, scratch_capacity }
    }

    /// Fixes the display's orientation. Consuming `self` here is what
    /// makes "orientation before clear, clear before backend" a
    /// compile-time sequence rather than a convention.
    pub fn set_orientation(self, rotation: Rotation) -> (c: ConfiguredController)
        ensures
            c.geometry == (DisplayGeometry { width: self.width, height: self.height, rotation }),
            c.scratch_capacity == self.scratch_capacity,
    {
        ConfiguredController {
            geometry: DisplayGeometry { width: self.width, height: self.height, rotation },
            scratch_capacity: self.scratch_capacity,
        }
    }
}

/// A controller whose orientation is fixed. Only now is the effective
/// width and height, and with it the cell grid, well defined.
pub struct ConfiguredController {
    /// Pixel dimensions and rotation, now immutable.
    pub geometry: DisplayGeometry,
    /// Scratch buffer capacity carried over from the transport.
    pub scratch_capacity: usize,
}

impl ConfiguredController {
    /// Clears the full rotated display to one background color. The clear
    /// must happen after orientation is set, because its target rectangle
    /// is the rotated panel; the adapter later only rewrites rectangles
    /// that changed, so skipped pixels keep this color.
    pub fn clear(self, color: u16) -> (c: ClearedController)
        ensures
            c.geometry == self.geometry,
            c.scratch_capacity == self.scratch_capacity,
            c.clear_color == color,
    {
        ClearedController {
            geometry: self.geometry,
            scratch_capacity: self.scratch_capacity,
            clear_color: color,
        }
    }
}

/// An oriented controller whose whole display holds one known color. This
/// is the only state from which a backend adapter can be constructed.
pub struct ClearedController {
    /// Pixel dimensions and rotation.
    pub geometry: DisplayGeometry,
    /// Scratch buffer capacity carried over from the transport.
    pub scratch_capacity: usize,
    /// The color every pixel of the display holds.
    pub clear_color: u16,
}

} // verus!
