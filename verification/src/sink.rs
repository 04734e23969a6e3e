//! The pixel-write interface the backend adapter drives, and two
//! in-memory implementations of it.
//!
//! A `PixelSink` stands for the display-controller driver plus transport:
//! it accepts one pixel-rectangle write at a time and either records it on
//! the display or fails with a transport error. Its specification views
//! the sink as the sequence of writes it has accepted, so the adapter's
//! flush contract can say exactly which writes reach the display and in
//! what order.

use vstd::prelude::*;
use crate::geometry::{GLYPH_WIDTH, GLYPH_HEIGHT};

verus! {

/// One pixel-rectangle write: the glyph cell's bounding box in pixels,
/// and the glyph with its colors from which the driver rasterizes the
/// rectangle's pixel content.
#[derive(Clone, Copy, PartialEq, Eq, Structural, Debug)]
pub struct PixelWrite {
    /// Left edge of the rectangle in pixels.
    pub x: u16,
    /// Top edge of the rectangle in pixels.
    pub y: u16,
    /// Rectangle width in pixels.
    pub width: u16,
    /// Rectangle height in pixels.
    pub height: u16,
    /// The glyph whose raster fills the rectangle.
    pub glyph: char,
    /// Color of the glyph's set pixels.
    pub fg: u16,
    /// Color of the glyph's clear pixels.
    pub bg: u16,
}

impl PixelWrite {
    /// Every write the adapter emits covers exactly one glyph cell.
    pub open spec fn covers_glyph_cell(self) -> bool {
        self.width == GLYPH_WIDTH && self.height == GLYPH_HEIGHT
    }
}

/// Failure of the byte transport below the display controller. A single
/// failed write is fatal for the rendering process; nothing retries.
#[derive(Clone, Copy, PartialEq, Eq, Structural, Debug)]
pub enum TransportError {
    /// The bus rejected or aborted the transfer.
    BusWrite,
}

/// A destination for pixel-rectangle writes, viewed as the sequence of
/// writes it has accepted since construction.
pub trait PixelSink: Sized {
    /// The writes this sink has accepted, oldest first. Implementations
    /// override this; the default stands only for sinks whose log is
    /// not observed.
    open spec fn log(&self) -> Seq<PixelWrite> {
        Seq::empty()
    }

    /// Transfers one pixel rectangle. On success the write, and nothing
    /// else, is appended to the sink's log; on failure the display is
    /// untouched.
    fn write_rect(&mut self, w: &PixelWrite) -> (r: Result<(), TransportError>)
        ensures
            r is Ok ==> final(self).log() == old(self).log().push(*w),
            r is Err ==> final(self).log() == old(self).log(),
    ;
}

/// An in-memory sink that accepts every write: the model of a simulated
/// display, and the sink the test suite inspects.
pub struct RecordingSurface {
    /// Every write accepted so far, oldest first.
    pub writes: Vec<PixelWrite>,
}

impl RecordingSurface {
    pub fn new() -> (s: RecordingSurface)
        ensures
            s.log() == Seq::<PixelWrite>::empty(),
    {
        RecordingSurface { writes: Vec::new() }
    }

    /// Number of writes accepted so far.
    pub fn write_count(&self) -> (n: usize)
        ensures
            n == self.log().len(),
    {
        self.writes.len()
    }
}

impl PixelSink for RecordingSurface {
    open spec fn log(&self) -> Seq<PixelWrite> {
        self.writes@
    }

    fn write_rect(&mut self, w: &PixelWrite) -> (r: Result<(), TransportError>)
        ensures
            r is Ok,
    {
        self.writes.push(*w);
        Ok(())
    }
}

/// A sink whose bus is dead: every transfer fails. It models the fatal
/// transport-failure path, which aborts a flush at its first write.
pub struct BrokenBus {
}

impl BrokenBus {
    pub fn new() -> (s: BrokenBus)
        ensures
            s.log() == Seq::<PixelWrite>::empty(),
    {
        BrokenBus { }
    }
}

impl PixelSink for BrokenBus {
    open spec fn log(&self) -> Seq<PixelWrite> {
        Seq::empty()
    }

    fn write_rect(&mut self, _w: &PixelWrite) -> (r: Result<(), TransportError>)
        ensures
            r is Err,
    {
        Err(TransportError::BusWrite)
    }
}

} // verus!
