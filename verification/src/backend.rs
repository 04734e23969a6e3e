//! The backend adapter: a terminal-cell grid over a pixel display.
//!
//! The adapter keeps three views of the grid: `screen`, the cells the
//! display showed after the last completed flush; `staged`, the cells as
//! drawn since then; and `dirty`, the positions staged since the last
//! flush. `draw_cells` stages cells and marks them; `flush` sends one
//! pixel-rectangle write per marked cell, in row-major order, through the
//! pixel sink, commits the staged cells, and runs the post-flush hook.

use vstd::prelude::*;
use crate::cell::Cell;
use crate::controller::ClearedController;
use crate::frame::{lemma_grid_index, lemma_u16_product_fits};
use crate::geometry::{
    spec_cell_bytes, cell_bytes, DisplayGeometry, GLYPH_HEIGHT, GLYPH_WIDTH,
};
use crate::hook::{FlushHook, HookSignal};
use crate::sink::{PixelSink, PixelWrite};

verus! {

/// The terminal conditions of the rendering process. None of them is
/// recoverable: the render loop halts on every one.
#[derive(Clone, Copy, PartialEq, Eq, Structural, Debug)]
pub enum FatalError {
    /// The transport's scratch buffer cannot hold one pixel-rectangle or
    /// one display-row transfer, so a flush would truncate data.
    ScratchTooSmall,
    /// The byte transport failed during a transfer.
    Transport,
    /// The post-flush hook reported an external termination condition.
    WindowClosed,
}

/// The cell at grid index `pos` after applying `ups` in order, each
/// update `(column, row, cell)` landing at index `row * cols + column`;
/// the last update to a position wins.
pub open spec fn spec_cell_after(orig: Cell, pos: int, ups: Seq<(u16, u16, Cell)>, cols: int) -> Cell
    decreases ups.len(),
{
    if ups.len() == 0 {
        orig
    } else if spec_update_index(ups.last(), cols) == pos {
        ups.last().2
    } else {
        spec_cell_after(orig, pos, ups.drop_last(), cols)
    }
}

/// The grid index the update `(column, row, cell)` lands at.
pub open spec fn spec_update_index(u: (u16, u16, Cell), cols: int) -> int {
    u.1 as int * cols + u.0 as int
}

/// Whether some update in `ups` lands at grid index `pos`.
pub open spec fn spec_touched(pos: int, ups: Seq<(u16, u16, Cell)>, cols: int) -> bool {
    exists|j: int| 0 <= j < ups.len() && #[trigger] spec_update_index(ups[j], cols) == pos
}

/// Every position of `cur` below `len` holds `base` updated by `ups`.
pub open spec fn staged_matches(
    cur: Seq<Cell>,
    base: Seq<Cell>,
    ups: Seq<(u16, u16, Cell)>,
    cols: int,
    len: int,
) -> bool {
    forall|pos: int| 0 <= pos < len ==> cur[pos] == spec_cell_after(base[pos], pos, ups, cols)
}

/// Every position of `cur` below `len` is marked exactly when it was
/// marked in `base` or some update in `ups` lands on it.
pub open spec fn dirty_matches(
    cur: Seq<bool>,
    base: Seq<bool>,
    ups: Seq<(u16, u16, Cell)>,
    cols: int,
    len: int,
) -> bool {
    forall|pos: int| 0 <= pos < len ==> cur[pos] == (base[pos] || spec_touched(pos, ups, cols))
}

pub proof fn lemma_touched_snoc(pos: int, ups: Seq<(u16, u16, Cell)>, k: int, cols: int)
    requires
        0 <= k < ups.len(),
    ensures
        spec_touched(pos, ups.take(k + 1), cols) <==> (spec_touched(pos, ups.take(k), cols)
            || spec_update_index(ups[k], cols) == pos),
{
    if spec_touched(pos, ups.take(k + 1), cols) {
        let j = choose|j: int|
            0 <= j < k + 1 && #[trigger] spec_update_index(ups.take(k + 1)[j], cols) == pos;
        if j < k {
            assert(ups.take(k)[j] == ups.take(k + 1)[j]);
            assert(spec_update_index(ups.take(k)[j], cols) == pos);
            assert(spec_touched(pos, ups.take(k), cols));
        }
    }
    if spec_touched(pos, ups.take(k), cols) {
        let j = choose|j: int|
            0 <= j < k && #[trigger] spec_update_index(ups.take(k)[j], cols) == pos;
        assert(ups.take(k + 1)[j] == ups.take(k)[j]);
        assert(spec_update_index(ups.take(k + 1)[j], cols) == pos);
        assert(spec_touched(pos, ups.take(k + 1), cols));
    }
    if spec_update_index(ups[k], cols) == pos {
        assert(ups.take(k + 1)[k] == ups[k]);
        assert(spec_update_index(ups.take(k + 1)[k], cols) == pos);
        assert(spec_touched(pos, ups.take(k + 1), cols));
    }
}

proof fn lemma_cell_after_snoc(orig: Cell, pos: int, ups: Seq<(u16, u16, Cell)>, k: int, cols: int)
    requires
        0 <= k < ups.len(),
    ensures
        spec_cell_after(orig, pos, ups.take(k + 1), cols) == (
            if spec_update_index(ups[k], cols) == pos {
                ups[k].2
            } else {
                spec_cell_after(orig, pos, ups.take(k), cols)
            }
        ),
{
    assert(ups.take(k + 1).last() == ups[k]);
    assert(ups.take(k + 1).drop_last() =~= ups.take(k));
}

/// The cell-grid adapter over a pixel display. `S` is the display driver
/// and transport it writes through; `H` is the post-flush hook.
pub struct BackendAdapter<S: PixelSink, H: FlushHook> {
    /// Pixel dimensions and rotation, fixed at bootstrap.
    pub geometry: DisplayGeometry,
    /// Scratch buffer capacity of the transport, in bytes.
    pub scratch_capacity: usize,
    /// Cell columns of the grid.
    pub cols: u16,
    /// Cell rows of the grid.
    pub rows: u16,
    /// Cells as shown by the display after the last completed flush.
    pub screen: Vec<Cell>,
    /// Cells as drawn since the last flush.
    pub staged: Vec<Cell>,
    /// Positions staged since the last flush, row-major.
    pub dirty: Vec<bool>,
    /// The display driver and transport.
    pub sink: S,
    /// The post-flush hook.
    pub hook: H,
    /// Latched when the hook reported `Close`; every later flush fails.
    pub closed: bool,
}

impl<S: PixelSink, H: FlushHook> BackendAdapter<S, H> {
    /// Cells in the grid.
    pub open spec fn grid_len(self) -> int {
        self.cols as int * self.rows as int
    }

    pub open spec fn wf(self) -> bool {
        &&& self.geometry.wf()
        &&& self.cols as int == self.geometry.spec_columns()
        &&& self.rows as int == self.geometry.spec_rows()
        &&& self.cols as int * GLYPH_WIDTH as int <= self.geometry.spec_effective_width() as int
        &&& self.rows as int * GLYPH_HEIGHT as int <= self.geometry.spec_effective_height() as int
        &&& self.screen@.len() == self.grid_len()
        &&& self.staged@.len() == self.grid_len()
        &&& self.dirty@.len() == self.grid_len()
    }

    /// Two adapters agree on everything the bootstrap fixed.
    pub open spec fn same_config(self, other: Self) -> bool {
        &&& self.geometry == other.geometry
        &&& self.scratch_capacity == other.scratch_capacity
        &&& self.cols == other.cols
        &&& self.rows == other.rows
    }

    /// The scratch buffer holds the largest single transfer the adapter
    /// ever asks of the transport: one glyph rectangle, and one display
    /// row as used by the bootstrap clear.
    pub open spec fn scratch_ok(self) -> bool {
        &&& self.scratch_capacity as int >= self.geometry.spec_row_bytes()
        &&& self.scratch_capacity as int >= spec_cell_bytes()
    }

    /// The pixel-rectangle write that flushing grid index `i` emits: the
    /// glyph cell's exact pixel bounding box, with the staged glyph and
    /// colors.
    pub open spec fn spec_write_at(self, i: int) -> PixelWrite {
        PixelWrite {
            x: ((i % self.cols as int) * GLYPH_WIDTH as int) as u16,
            y: ((i / self.cols as int) * GLYPH_HEIGHT as int) as u16,
            width: GLYPH_WIDTH,
            height: GLYPH_HEIGHT,
            glyph: self.staged@[i].glyph,
            fg: self.staged@[i].fg,
            bg: self.staged@[i].bg,
        }
    }

    /// The writes a flush would emit for the dirty cells among grid
    /// indices `[0, n)`, in row-major order.
    pub open spec fn pending_prefix(self, n: int) -> Seq<PixelWrite>
        decreases n,
    {
        if n <= 0 {
            Seq::empty()
        } else if self.dirty@[n - 1] {
            self.pending_prefix(n - 1).push(self.spec_write_at(n - 1))
        } else {
            self.pending_prefix(n - 1)
        }
    }

    /// Exactly the writes the next flush sends: one per dirty cell, in
    /// row-major order.
    pub open spec fn pending_writes(self) -> Seq<PixelWrite> {
        self.pending_prefix(self.grid_len())
    }

    /// A longer row-major prefix never has fewer pending writes.
    pub proof fn lemma_pending_monotone(self, j: int, k: int)
        requires
            0 <= j <= k,
        ensures
            self.pending_prefix(j).len() <= self.pending_prefix(k).len(),
        decreases k,
    {
        if j < k {
            self.lemma_pending_monotone(j, k - 1);
        }
    }

    /// Builds the adapter over an initialized, oriented and cleared
    /// display. The whole grid starts blank, clean, and open.
    pub fn new(controller: ClearedController, sink: S, hook: H) -> (b: BackendAdapter<S, H>)
        requires
            controller.geometry.wf(),
        ensures
            b.wf(),
            b.geometry == controller.geometry,
            b.scratch_capacity == controller.scratch_capacity,
            b.sink == sink,
            b.hook == hook,
            !b.closed,
            b.staged@ == b.screen@,
            forall|i: int| 0 <= i < b.grid_len() ==> b.screen@[i] == Cell::spec_blank(),
            forall|i: int| 0 <= i < b.grid_len() ==> b.staged@[i] == Cell::spec_blank(),
            forall|i: int| 0 <= i < b.grid_len() ==> !b.dirty@[i],
    {
        let geometry = controller.geometry;
        let cols = geometry.columns();
        let rows = geometry.rows();
        proof {
            lemma_div_mul_le(geometry.spec_effective_width() as int, GLYPH_WIDTH as int);
            lemma_div_mul_le(geometry.spec_effective_height() as int, GLYPH_HEIGHT as int);
            lemma_u16_product_fits(cols as int, rows as int);
        }
        let total: usize = cols as usize * rows as usize;
        let mut screen: Vec<Cell> = Vec::new();
        let mut staged: Vec<Cell> = Vec::new();
        let mut dirty: Vec<bool> = Vec::new();
        let mut i: usize = 0;
        while i < total
            invariant
                i <= total,
                screen@.len() == i,
                staged@.len() == i,
                dirty@.len() == i,
                forall|j: int| 0 <= j < i ==> screen@[j] == Cell::spec_blank(),
                forall|j: int| 0 <= j < i ==> staged@[j] == Cell::spec_blank(),
                forall|j: int| 0 <= j < i ==> !dirty@[j],
            decreases total - i,
        {
            screen.push(Cell::blank());
            staged.push(Cell::blank());
            dirty.push(false);
            i = i + 1;
        }
        proof {
            assert(staged@ =~= screen@);
        }
        BackendAdapter {
            geometry,
            scratch_capacity: controller.scratch_capacity,
            cols,
            rows,
            screen,
            staged,
            dirty,
            sink,
            hook,
            closed: false,
        }
    }

    /// The grid's dimensions, (columns, rows). Constant for the process
    /// lifetime, and well defined only because orientation was fixed
    /// before this adapter could be built.
    pub fn size(&self) -> (r: (u16, u16))
        ensures
            r.0 == self.cols,
            r.1 == self.rows,
    {
        (self.cols, self.rows)
    }

    /// Whether the transport's scratch buffer is large enough for every
    /// single transfer a flush or a clear performs.
    pub fn scratch_fits(&self) -> (r: bool)
        ensures
            r == self.scratch_ok(),
    {
        let row_b = self.geometry.row_bytes();
        let cell_b = cell_bytes();
        (self.scratch_capacity as u64) >= (row_b as u64) && (self.scratch_capacity as u64) >= (
        cell_b as u64)
    }

    /// Stages the given cells and marks their positions for the next
    /// flush. The display itself is untouched until `flush`.
    #[verifier::rlimit(60)]
    pub fn draw_cells(&mut self, updates: &Vec<(u16, u16, Cell)>)
        requires
            old(self).wf(),
            forall|j: int|
                0 <= j < updates@.len() ==> updates@[j].0 < old(self).cols
                    && updates@[j].1 < old(self).rows,
        ensures
            final(self).wf(),
            final(self).same_config(*old(self)),
            final(self).screen == old(self).screen,
            final(self).sink == old(self).sink,
            final(self).hook == old(self).hook,
            final(self).closed == old(self).closed,
            forall|pos: int|
                0 <= pos < final(self).grid_len() ==> final(self).staged@[pos] == spec_cell_after(
                    old(self).staged@[pos],
                    pos,
                    updates@,
                    old(self).cols as int,
                ),
            forall|pos: int|
                0 <= pos < final(self).grid_len() ==> final(self).dirty@[pos]
                    == (old(self).dirty@[pos] || spec_touched(pos, updates@, old(self).cols as int)),
    {
        let ghost pre = *self;
        let ghost ups = updates@;
        let mut k: usize = 0;
        while k < updates.len()
            invariant
                pre == *old(self),
                k <= ups.len(),
                updates@ == ups,
                forall|j: int| 0 <= j < ups.len() ==> ups[j].0 < pre.cols && ups[j].1 < pre.rows,
                pre.wf(),
                self.geometry == pre.geometry,
                self.scratch_capacity == pre.scratch_capacity,
                self.cols == pre.cols,
                self.rows == pre.rows,
                self.screen == pre.screen,
                self.sink == pre.sink,
                self.hook == pre.hook,
                self.closed == pre.closed,
                self.staged@.len() == pre.staged@.len(),
                self.dirty@.len() == pre.dirty@.len(),
                staged_matches(
                    self.staged@,
                    pre.staged@,
                    ups.take(k as int),
                    pre.cols as int,
                    pre.grid_len(),
                ),
                dirty_matches(
                    self.dirty@,
                    pre.dirty@,
                    ups.take(k as int),
                    pre.cols as int,
                    pre.grid_len(),
                ),
            decreases ups.len() - k,
        {
            let (cx, cy, cell) = updates[k];
            proof {
                lemma_grid_index(cx as int, cy as int, pre.cols as int, pre.rows as int);
            }
            let idx: usize = cy as usize * self.cols as usize + cx as usize;
            self.staged.set(idx, cell);
            self.dirty.set(idx, true);
            proof {
                let kk = k as int;
                assert(spec_update_index(ups[kk], pre.cols as int) == idx as int);
                assert forall|pos: int| 0 <= pos < pre.grid_len() implies self.staged@[pos]
                    == spec_cell_after(
                    pre.staged@[pos],
                    pos,
                    ups.take(kk + 1),
                    pre.cols as int,
                ) by {
                    lemma_cell_after_snoc(pre.staged@[pos], pos, ups, kk, pre.cols as int);
                }
                assert(staged_matches(
                    self.staged@,
                    pre.staged@,
                    ups.take(kk + 1),
                    pre.cols as int,
                    pre.grid_len(),
                ));
                assert forall|pos: int| 0 <= pos < pre.grid_len() implies self.dirty@[pos] == (
                pre.dirty@[pos] || spec_touched(pos, ups.take(kk + 1), pre.cols as int)) by {
                    lemma_touched_snoc(pos, ups, kk, pre.cols as int);
                    if pos == idx as int {
                        assert(ups.take(kk + 1)[kk] == ups[kk]);
                        assert(spec_update_index(ups[kk], pre.cols as int) == pos);
                    }
                }
                assert(dirty_matches(
                    self.dirty@,
                    pre.dirty@,
                    ups.take(kk + 1),
                    pre.cols as int,
                    pre.grid_len(),
                ));
            }
            k = k + 1;
        }
        proof {
            assert(ups.take(ups.len() as int) =~= ups);
        }
    }

    /// Pushes every dirty cell's pixel rectangle to the display, in
    /// row-major order, commits the staged cells as the displayed
    /// content, and runs the post-flush hook.
    ///
    /// After a hook has reported `Close`, flushing fails with
    /// `WindowClosed` before touching the display. A scratch buffer too
    /// small for one row or one glyph rectangle fails with
    /// `ScratchTooSmall` before touching the display. A transport failure
    /// aborts mid-transfer: the log then grows by some row-major prefix
    /// of the pending writes and nothing is committed. A flush with
    /// nothing pending makes no transfer at all, so it always succeeds.
    pub fn flush(&mut self) -> (r: Result<usize, FatalError>)
        requires
            old(self).wf(),
        ensures
            final(self).wf(),
            final(self).same_config(*old(self)),
            old(self).closed ==> r == Err::<usize, FatalError>(FatalError::WindowClosed)
                && *final(self) == *old(self),
            !old(self).closed && !old(self).scratch_ok() ==> r == Err::<usize, FatalError>(
                FatalError::ScratchTooSmall,
            ) && *final(self) == *old(self),
            !old(self).closed && old(self).scratch_ok() && old(self).pending_writes().len() == 0
                ==> r is Ok,
            !old(self).closed && old(self).scratch_ok() ==> (match r {
                Ok(n) => {
                    &&& n as int == old(self).pending_writes().len()
                    &&& final(self).sink.log() == old(self).sink.log() + old(self).pending_writes()
                    &&& final(self).screen@ == old(self).staged@
                    &&& final(self).staged == old(self).staged
                    &&& forall|i: int| 0 <= i < final(self).grid_len() ==> !final(self).dirty@[i]
                    &&& final(self).closed == (old(self).hook.next_signal() is Close)
                },
                Err(e) => {
                    &&& e == FatalError::Transport
                    &&& final(self).screen == old(self).screen
                    &&& final(self).staged == old(self).staged
                    &&& final(self).dirty == old(self).dirty
                    &&& final(self).hook == old(self).hook
                    &&& final(self).closed == old(self).closed
                    &&& exists|i: int|
                        0 <= i <= old(self).grid_len() && final(self).sink.log()
                            == old(self).sink.log() + old(self).pending_prefix(i)
                },
            }),
    {
        if self.closed {
            return Err(FatalError::WindowClosed);
        }
        let row_b = self.geometry.row_bytes();
        let cell_b = cell_bytes();
        if (self.scratch_capacity as u64) < (row_b as u64) || (self.scratch_capacity as u64)
            < (cell_b as u64) {
            return Err(FatalError::ScratchTooSmall);
        }
        let ghost pre = *self;
        proof {
            lemma_u16_product_fits(self.cols as int, self.rows as int);
        }
        let total: usize = self.cols as usize * self.rows as usize;
        let mut count: usize = 0;
        let mut i: usize = 0;
        while i < total
            invariant
                pre == *old(self),
                !pre.closed,
                pre.scratch_ok(),
                i <= total,
                count <= i,
                total == pre.grid_len(),
                pre.wf(),
                self.geometry == pre.geometry,
                self.scratch_capacity == pre.scratch_capacity,
                self.cols == pre.cols,
                self.rows == pre.rows,
                self.screen == pre.screen,
                self.staged == pre.staged,
                self.dirty == pre.dirty,
                self.hook == pre.hook,
                self.closed == pre.closed,
                count as int == pre.pending_prefix(i as int).len(),
                self.sink.log() == pre.sink.log() + pre.pending_prefix(i as int),
            decreases total - i,
        {
            if self.dirty[i] {
                let cx: usize = i % self.cols as usize;
                let cy: usize = i / self.cols as usize;
                proof {
                    lemma_mul_div_cell(i as int, pre.cols as int, pre.rows as int);
                    lemma_px_bounds(
                        cx as int,
                        cy as int,
                        pre.cols as int,
                        pre.rows as int,
                        pre.geometry.spec_effective_width() as int,
                        pre.geometry.spec_effective_height() as int,
                    );
                }
                let px: u16 = (cx as u16) * GLYPH_WIDTH;
                let py: u16 = (cy as u16) * GLYPH_HEIGHT;
                let cell = self.staged[i];
                let w = PixelWrite {
                    x: px,
                    y: py,
                    width: GLYPH_WIDTH,
                    height: GLYPH_HEIGHT,
                    glyph: cell.glyph,
                    fg: cell.fg,
                    bg: cell.bg,
                };
                proof {
                    assert(w == pre.spec_write_at(i as int));
                }
                match self.sink.write_rect(&w) {
                    Ok(_) => {
                        count = count + 1;
                        proof {
                            assert(pre.sink.log() + pre.pending_prefix(i as int + 1) =~= (
                            pre.sink.log() + pre.pending_prefix(i as int)).push(
                                pre.spec_write_at(i as int),
                            ));
                        }
                    },
                    Err(_) => {
                        proof {
                            assert(self.sink.log() == old(self).sink.log()
                                + old(self).pending_prefix(i as int));
                            pre.lemma_pending_monotone(i as int + 1, total as int);
                            assert(old(self).pending_writes().len() >= 1);
                        }
                        return Err(FatalError::Transport);
                    },
                }
            }
            i = i + 1;
        }
        proof {
            assert(pre.pending_prefix(total as int) == pre.pending_writes());
        }
        let ghost mid = *self;
        let mut j: usize = 0;
        while j < total
            invariant
                j <= total,
                total == pre.grid_len(),
                pre.wf(),
                self.geometry == pre.geometry,
                self.scratch_capacity == pre.scratch_capacity,
                self.cols == pre.cols,
                self.rows == pre.rows,
                self.staged == pre.staged,
                self.hook == pre.hook,
                self.closed == pre.closed,
                self.sink == mid.sink,
                self.screen@.len() == pre.screen@.len(),
                self.dirty@.len() == pre.dirty@.len(),
                forall|p: int| 0 <= p < j ==> self.screen@[p] == pre.staged@[p],
                forall|p: int| 0 <= p < j ==> !self.dirty@[p],
            decreases total - j,
        {
            let c = self.staged[j];
            self.screen.set(j, c);
            self.dirty.set(j, false);
            j = j + 1;
        }
        proof {
            assert(self.screen@ =~= pre.staged@);
        }
        let s = self.hook.after_flush();
        match s {
            HookSignal::Close => {
                self.closed = true;
            },
            HookSignal::Continue => {
                self.closed = false;
            },
        }
        Ok(count)
    }
}

/// For 0 <= a and 0 < b: (a / b) * b <= a.
pub proof fn lemma_div_mul_le(a: int, b: int)
    requires
        0 <= a,
        0 < b,
    ensures
        0 <= a / b,
        (a / b) * b <= a,
{
    assert(0 <= a / b && (a / b) * b <= a) by (nonlinear_arith)
        requires
            0 <= a,
            0 < b,
    ;
}

/// Row-major index arithmetic: for i inside a cols-by-rows grid, the
/// coordinates recovered by division lie inside the grid.
proof fn lemma_mul_div_cell(i: int, cols: int, rows: int)
    requires
        0 < cols,
        0 < rows,
        0 <= i < rows * cols,
    ensures
        0 <= i % cols < cols,
        0 <= i / cols < rows,
{
    assert(0 <= i % cols < cols && 0 <= i / cols < rows) by (nonlinear_arith)
        requires
            0 < cols,
            0 < rows,
            0 <= i < rows * cols,
    ;
}

/// A glyph cell's pixel origin stays inside the display, and so inside a
/// 16-bit coordinate.
proof fn lemma_px_bounds(cx: int, cy: int, cols: int, rows: int, eff_w: int, eff_h: int)
    requires
        0 <= cx < cols,
        0 <= cy < rows,
        cols * GLYPH_WIDTH as int <= eff_w,
        rows * GLYPH_HEIGHT as int <= eff_h,
        eff_w <= 0xFFFF,
        eff_h <= 0xFFFF,
    ensures
        0 <= cx * GLYPH_WIDTH as int <= 0xFFFF,
        0 <= cy * GLYPH_HEIGHT as int <= 0xFFFF,
{
    assert(0 <= cx * GLYPH_WIDTH as int && (cx + 1) * GLYPH_WIDTH as int <= cols
        * GLYPH_WIDTH as int) by (nonlinear_arith)
        requires
            0 <= cx < cols,
            0 < GLYPH_WIDTH as int,
    ;
    assert(0 <= cy * GLYPH_HEIGHT as int && (cy + 1) * GLYPH_HEIGHT as int <= rows
        * GLYPH_HEIGHT as int) by (nonlinear_arith)
        requires
            0 <= cy < rows,
            0 < GLYPH_HEIGHT as int,
    ;
}

} // verus!
