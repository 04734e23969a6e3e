//! The render loop: one draw cycle over the backend adapter.
//!
//! A cycle takes a frame the caller has populated, diffs it against the
//! cells the display already shows, hands exactly the changed cells to
//! the adapter, and flushes. The cycle's contract names the precise
//! sequence of pixel writes the display receives: one write per changed
//! cell, row-major, and none for an unchanged cell.

use vstd::prelude::*;
use crate::backend::{
    spec_cell_after, spec_touched, spec_update_index, BackendAdapter, FatalError,
};
use crate::cell::Cell;
use crate::frame::Frame;
use crate::geometry::{GLYPH_HEIGHT, GLYPH_WIDTH};
use crate::hook::FlushHook;
use crate::sink::{PixelSink, PixelWrite};

verus! {

/// The pixel-rectangle write a cycle emits for grid index `i`: the glyph
/// cell's bounding box with the frame's cell content.
pub open spec fn spec_cycle_write(frameseq: Seq<Cell>, cols: int, i: int) -> PixelWrite {
    PixelWrite {
        x: ((i % cols) * GLYPH_WIDTH as int) as u16,
        y: ((i / cols) * GLYPH_HEIGHT as int) as u16,
        width: GLYPH_WIDTH,
        height: GLYPH_HEIGHT,
        glyph: frameseq[i].glyph,
        fg: frameseq[i].fg,
        bg: frameseq[i].bg,
    }
}

/// The writes a cycle emits for grid indices `[0, n)`: one per cell
/// whose frame content differs from the displayed content, row-major.
pub open spec fn spec_cycle_prefix(screen: Seq<Cell>, frameseq: Seq<Cell>, cols: int, n: int) -> Seq<
    PixelWrite,
>
    decreases n,
{
    if n <= 0 {
        Seq::empty()
    } else if frameseq[n - 1] != screen[n - 1] {
        spec_cycle_prefix(screen, frameseq, cols, n - 1).push(
            spec_cycle_write(frameseq, cols, n - 1),
        )
    } else {
        spec_cycle_prefix(screen, frameseq, cols, n - 1)
    }
}

/// Exactly the pixel writes one cycle pushes to the display: the cells
/// whose content differs from the previously flushed state, each once,
/// in row-major order, and no others.
pub open spec fn spec_cycle_writes(screen: Seq<Cell>, frameseq: Seq<Cell>, cols: int) -> Seq<
    PixelWrite,
> {
    spec_cycle_prefix(screen, frameseq, cols, screen.len() as int)
}

/// One update lies inside the cols-by-rows grid and carries the frame's
/// cell for its position.
pub open spec fn diff_entry_ok(
    u: (u16, u16, Cell),
    frameseq: Seq<Cell>,
    cols: int,
    rows: int,
) -> bool {
    &&& (u.0 as int) < cols
    &&& (u.1 as int) < rows
    &&& 0 <= spec_update_index(u, cols) < frameseq.len()
    &&& u.2 == frameseq[spec_update_index(u, cols)]
}

/// Every update in `ups` lies inside the cols-by-rows grid and carries
/// the frame's cell for its position.
pub open spec fn diff_sound(
    ups: Seq<(u16, u16, Cell)>,
    frameseq: Seq<Cell>,
    cols: int,
    rows: int,
) -> bool {
    forall|j: int| 0 <= j < ups.len() ==> diff_entry_ok(#[trigger] ups[j], frameseq, cols, rows)
}

/// Every update in `ups` lands below grid index `n`.
pub open spec fn diff_below(ups: Seq<(u16, u16, Cell)>, cols: int, n: int) -> bool {
    forall|j: int| 0 <= j < ups.len() ==> #[trigger] spec_update_index(ups[j], cols) < n
}

/// Below `n`, a position is touched by `ups` exactly when the frame
/// content differs from the displayed content there.
pub open spec fn diff_complete(
    ups: Seq<(u16, u16, Cell)>,
    frameseq: Seq<Cell>,
    screen: Seq<Cell>,
    cols: int,
    n: int,
) -> bool {
    forall|pos: int|
        0 <= pos < n ==> (spec_touched(pos, ups, cols) <==> frameseq[pos] != screen[pos])
}

proof fn lemma_touched_push(pos: int, ups: Seq<(u16, u16, Cell)>, u: (u16, u16, Cell), cols: int)
    ensures
        spec_touched(pos, ups.push(u), cols) <==> (spec_touched(pos, ups, cols)
            || spec_update_index(u, cols) == pos),
{
    if spec_touched(pos, ups.push(u), cols) {
        let j = choose|j: int|
            0 <= j < ups.push(u).len() && #[trigger] spec_update_index(ups.push(u)[j], cols)
                == pos;
        if j < ups.len() {
            assert(ups.push(u)[j] == ups[j]);
            assert(spec_update_index(ups[j], cols) == pos);
            assert(spec_touched(pos, ups, cols));
        } else {
            assert(ups.push(u)[j] == u);
        }
    }
    if spec_touched(pos, ups, cols) {
        let j = choose|j: int|
            0 <= j < ups.len() && #[trigger] spec_update_index(ups[j], cols) == pos;
        assert(ups.push(u)[j] == ups[j]);
        assert(spec_update_index(ups.push(u)[j], cols) == pos);
        assert(spec_touched(pos, ups.push(u), cols));
    }
    if spec_update_index(u, cols) == pos {
        assert(ups.push(u)[ups.len() as int] == u);
        assert(spec_update_index(ups.push(u)[ups.len() as int], cols) == pos);
        assert(spec_touched(pos, ups.push(u), cols));
    }
}

/// Applying a diff-sound update list to any base yields the frame's cell
/// at every touched position and the base cell elsewhere.
proof fn lemma_cell_after_diff(
    orig: Cell,
    pos: int,
    ups: Seq<(u16, u16, Cell)>,
    frameseq: Seq<Cell>,
    cols: int,
    rows: int,
)
    requires
        diff_sound(ups, frameseq, cols, rows),
        0 <= pos < frameseq.len(),
    ensures
        spec_cell_after(orig, pos, ups, cols) == (if spec_touched(pos, ups, cols) {
            frameseq[pos]
        } else {
            orig
        }),
    decreases ups.len(),
{
    if ups.len() == 0 {
        assert(!spec_touched(pos, ups, cols));
    } else {
        let k = ups.len() - 1;
        let last = ups[k as int];
        assert(ups.take(k as int + 1) =~= ups);
        crate::backend::lemma_touched_snoc(pos, ups, k as int, cols);
        assert(ups.drop_last() =~= ups.take(k as int));
        assert(diff_sound(ups.drop_last(), frameseq, cols, rows)) by {
            assert forall|j: int| 0 <= j < ups.drop_last().len() implies diff_entry_ok(
                #[trigger] ups.drop_last()[j],
                frameseq,
                cols,
                rows,
            ) by {
                assert(ups.drop_last()[j] == ups[j]);
                assert(diff_entry_ok(ups[j], frameseq, cols, rows));
            }
        }
        lemma_cell_after_diff(orig, pos, ups.drop_last(), frameseq, cols, rows);
        if spec_update_index(last, cols) == pos {
            assert(spec_cell_after(orig, pos, ups, cols) == last.2);
            assert(last.2 == frameseq[pos]);
        }
    }
}

/// An adapter whose dirty marks are exactly the positions where its
/// staged content differs from `screen` has, as its pending writes, the
/// cycle writes of that diff.
proof fn lemma_pending_is_cycle<S: PixelSink, H: FlushHook>(
    b: BackendAdapter<S, H>,
    screen: Seq<Cell>,
    n: int,
)
    requires
        b.staged@.len() == b.grid_len(),
        b.dirty@.len() == b.grid_len(),
        screen.len() == b.grid_len(),
        forall|pos: int|
            0 <= pos < b.grid_len() ==> b.dirty@[pos] == (b.staged@[pos] != screen[pos]),
        0 <= n <= b.grid_len(),
    ensures
        b.pending_prefix(n) == spec_cycle_prefix(screen, b.staged@, b.cols as int, n),
    decreases n,
{
    if n > 0 {
        lemma_pending_is_cycle(b, screen, n - 1);
        assert(b.spec_write_at(n - 1) == spec_cycle_write(b.staged@, b.cols as int, n - 1));
    }
}

/// The render loop: owns the backend adapter and drives one diff-flush
/// cycle per call.
pub struct Terminal<S: PixelSink, H: FlushHook> {
    /// The backend adapter, exclusively owned for the process lifetime.
    pub backend: BackendAdapter<S, H>,
}

impl<S: PixelSink, H: FlushHook> Terminal<S, H> {
    /// Between cycles the adapter has nothing staged: the displayed
    /// content and the staging buffer agree and no cell is marked.
    pub open spec fn wf(self) -> bool {
        &&& self.backend.wf()
        &&& self.backend.staged@ == self.backend.screen@
        &&& forall|i: int| 0 <= i < self.backend.grid_len() ==> !self.backend.dirty@[i]
    }

    /// Takes ownership of a freshly constructed backend adapter.
    pub fn new(backend: BackendAdapter<S, H>) -> (t: Terminal<S, H>)
        requires
            backend.wf(),
            backend.staged@ == backend.screen@,
            forall|i: int| 0 <= i < backend.grid_len() ==> !backend.dirty@[i],
        ensures
            t.wf(),
            t.backend == backend,
    {
        Terminal { backend }
    }

    /// A blank frame of the grid's dimensions, for one render pass.
    pub fn new_frame(&self) -> (f: Frame)
        ensures
            f.wf(),
            f.cols == self.backend.cols,
            f.rows == self.backend.rows,
            forall|i: int| 0 <= i < f.cells@.len() ==> f.cells@[i] == Cell::spec_blank(),
    {
        Frame::blank(self.backend.cols, self.backend.rows)
    }

    /// Runs one render cycle with an already populated frame: diffs it
    /// against the displayed content, stages exactly the changed cells,
    /// and flushes them.
    ///
    /// On success the display shows the frame, and the sink received
    /// precisely the cycle's writes: one glyph rectangle per changed
    /// cell, row-major. A second cycle with an identical frame succeeds
    /// with zero writes. After a hook has reported `Close`, the cycle
    /// fails with `WindowClosed` and stages nothing; an undersized
    /// scratch buffer fails with `ScratchTooSmall` and stages nothing; a
    /// transport failure aborts with `Transport` after some row-major
    /// prefix of the cycle's writes. A cycle that changes nothing makes
    /// no transfer at all, so it always succeeds.
    pub fn draw(&mut self, frame: &Frame) -> (r: Result<usize, FatalError>)
        requires
            old(self).wf(),
            frame.wf(),
            frame.cols == old(self).backend.cols,
            frame.rows == old(self).backend.rows,
        ensures
            final(self).backend.same_config(old(self).backend),
            old(self).backend.closed ==> r == Err::<usize, FatalError>(FatalError::WindowClosed)
                && *final(self) == *old(self),
            !old(self).backend.closed && !old(self).backend.scratch_ok() ==> r == Err::<
                usize,
                FatalError,
            >(FatalError::ScratchTooSmall) && *final(self) == *old(self),
            !old(self).backend.closed && old(self).backend.scratch_ok() && spec_cycle_writes(
                old(self).backend.screen@,
                frame.cells@,
                old(self).backend.cols as int,
            ).len() == 0 ==> r is Ok,
            !old(self).backend.closed && old(self).backend.scratch_ok() ==> (match r {
                Ok(n) => {
                    &&& final(self).wf()
                    &&& n as int == spec_cycle_writes(
                        old(self).backend.screen@,
                        frame.cells@,
                        old(self).backend.cols as int,
                    ).len()
                    &&& final(self).backend.sink.log() == old(self).backend.sink.log()
                        + spec_cycle_writes(
                        old(self).backend.screen@,
                        frame.cells@,
                        old(self).backend.cols as int,
                    )
                    &&& final(self).backend.screen@ == frame.cells@
                    &&& final(self).backend.closed == (old(
                        self,
                    ).backend.hook.next_signal() is Close)
                },
                Err(e) => {
                    &&& e == FatalError::Transport
                    &&& final(self).backend.screen == old(self).backend.screen
                    &&& exists|k: int|
                        0 <= k <= old(self).backend.grid_len() && final(self).backend.sink.log()
                            == old(self).backend.sink.log() + spec_cycle_prefix(
                            old(self).backend.screen@,
                            frame.cells@,
                            old(self).backend.cols as int,
                            k,
                        )
                },
            }),
    {
        if self.backend.closed {
            return Err(FatalError::WindowClosed);
        }
        if !self.backend.scratch_fits() {
            return Err(FatalError::ScratchTooSmall);
        }
        let ghost b0 = self.backend;
        let ghost cols_g = self.backend.cols as int;
        let ghost rows_g = self.backend.rows as int;
        let cols: u16 = self.backend.cols;
        let total: usize = self.backend.screen.len();
        let mut updates: Vec<(u16, u16, Cell)> = Vec::new();
        let mut i: usize = 0;
        while i < total
            invariant
                b0 == old(self).backend,
                *self == *old(self),
                old(self).wf(),
                frame.wf(),
                frame.cols == b0.cols,
                frame.rows == b0.rows,
                cols == b0.cols,
                total == b0.grid_len(),
                total == b0.screen@.len(),
                i <= total,
                diff_sound(updates@, frame.cells@, cols_g, rows_g),
                diff_below(updates@, cols_g, i as int),
                diff_complete(updates@, frame.cells@, b0.screen@, cols_g, i as int),
                cols_g == b0.cols as int,
                rows_g == b0.rows as int,
            decreases total - i,
        {
            let cx: usize = i % cols as usize;
            let cy: usize = i / cols as usize;
            proof {
                lemma_cell_coords(i as int, cols_g, rows_g);
            }
            let fc = frame.cells[i];
            let sc = self.backend.screen[i];
            let changed: bool = fc != sc;
            if changed {
                let u = (cx as u16, cy as u16, fc);
                let ghost ups0 = updates@;
                updates.push(u);
                proof {
                    assert(updates@ == ups0.push(u));
                    assert(spec_update_index(u, cols_g) == i as int);
                    assert forall|pos: int| 0 <= pos < i as int + 1 implies (spec_touched(
                        pos,
                        updates@,
                        cols_g,
                    ) <==> frame.cells@[pos] != b0.screen@[pos]) by {
                        lemma_touched_push(pos, ups0, u, cols_g);
                    }
                    assert(diff_complete(updates@, frame.cells@, b0.screen@, cols_g, i as int + 1));
                    assert forall|j: int| 0 <= j < updates@.len() implies diff_entry_ok(
                        #[trigger] updates@[j],
                        frame.cells@,
                        cols_g,
                        rows_g,
                    ) by {
                        if j < ups0.len() {
                            assert(updates@[j] == ups0[j]);
                            assert(diff_entry_ok(ups0[j], frame.cells@, cols_g, rows_g));
                        } else {
                            assert(updates@[j] == u);
                        }
                    }
                    assert(diff_sound(updates@, frame.cells@, cols_g, rows_g));
                    assert forall|j: int| 0 <= j < updates@.len() implies #[trigger] spec_update_index(
                        updates@[j],
                        cols_g,
                    ) < i as int + 1 by {
                        if j < ups0.len() {
                            assert(updates@[j] == ups0[j]);
                            assert(spec_update_index(ups0[j], cols_g) < i as int);
                        } else {
                            assert(updates@[j] == u);
                        }
                    }
                    assert(diff_below(updates@, cols_g, i as int + 1));
                }
            } else {
                proof {
                    assert forall|pos: int| 0 <= pos < i as int + 1 implies (spec_touched(
                        pos,
                        updates@,
                        cols_g,
                    ) <==> frame.cells@[pos] != b0.screen@[pos]) by {
                        if pos == i as int {
                            if spec_touched(pos, updates@, cols_g) {
                                let j = choose|j: int|
                                    0 <= j < updates@.len() && #[trigger] spec_update_index(
                                        updates@[j],
                                        cols_g,
                                    ) == pos;
                                assert(spec_update_index(updates@[j], cols_g) < i as int);
                            }
                        }
                    }
                    assert(diff_complete(updates@, frame.cells@, b0.screen@, cols_g, i as int + 1));
                    assert(diff_below(updates@, cols_g, i as int + 1));
                }
            }
            i = i + 1;
        }
        proof {
            assert forall|j: int| 0 <= j < updates@.len() implies updates@[j].0 < b0.cols
                && updates@[j].1 < b0.rows by {
                assert(diff_entry_ok(updates@[j], frame.cells@, cols_g, rows_g));
            }
        }
        self.backend.draw_cells(&updates);
        proof {
            let mid = self.backend;
            assert forall|pos: int| 0 <= pos < mid.grid_len() implies mid.staged@[pos]
                == frame.cells@[pos] by {
                lemma_cell_after_diff(
                    b0.staged@[pos],
                    pos,
                    updates@,
                    frame.cells@,
                    cols_g,
                    rows_g,
                );
            }
            assert(mid.staged@ =~= frame.cells@);
            assert forall|pos: int| 0 <= pos < mid.grid_len() implies mid.dirty@[pos] == (
            mid.staged@[pos] != b0.screen@[pos]) by {
                lemma_cell_after_diff(
                    b0.staged@[pos],
                    pos,
                    updates@,
                    frame.cells@,
                    cols_g,
                    rows_g,
                );
            }
            lemma_pending_is_cycle(mid, b0.screen@, mid.grid_len());
        }
        let ghost mid = self.backend;
        let res = self.backend.flush();
        match res {
            Ok(n) => {
                proof {
                    assert(self.backend.screen@ =~= frame.cells@);
                }
                Ok(n)
            },
            Err(e) => {
                proof {
                    let k = choose|k: int|
                        0 <= k <= mid.grid_len() && self.backend.sink.log() == mid.sink.log()
                            + mid.pending_prefix(k);
                    lemma_pending_is_cycle(mid, b0.screen@, k);
                    assert(spec_cycle_writes(b0.screen@, frame.cells@, cols_g).len()
                        == mid.pending_writes().len());
                }
                Err(e)
            },
        }
    }
}

/// Grid-index coordinate arithmetic: the column and row recovered from a
/// row-major index by division lie inside the grid and rebuild the
/// index.
pub proof fn lemma_cell_coords(i: int, cols: int, rows: int)
    requires
        0 < cols,
        0 < rows,
        0 <= i < cols * rows,
    ensures
        0 <= i % cols < cols,
        0 <= i / cols < rows,
        (i / cols) * cols + i % cols == i,
{
    assert(0 <= i % cols < cols && 0 <= i / cols < rows && (i / cols) * cols + i % cols == i)
        by (nonlinear_arith)
        requires
            0 < cols,
            0 < rows,
            0 <= i < cols * rows,
    ;
}

} // verus!
