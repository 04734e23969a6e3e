//! The library's global laws, stated and proved over the same spec
//! functions its contracts use.

use vstd::prelude::*;
use crate::cell::Cell;
use crate::geometry::{DisplayGeometry, GLYPH_HEIGHT, GLYPH_WIDTH};
use crate::sink::PixelWrite;
use crate::terminal::{spec_cycle_prefix, spec_cycle_write, spec_cycle_writes};

verus! {

/// Whether some write in `ws` has its pixel origin at (px, py).
pub open spec fn spec_writes_cover(ws: Seq<PixelWrite>, px: int, py: int) -> bool {
    exists|k: int| 0 <= k < ws.len() && (#[trigger] ws[k]).x as int == px && ws[k].y as int == py
}

proof fn lemma_cover_push(ws: Seq<PixelWrite>, w: PixelWrite, px: int, py: int)
    ensures
        spec_writes_cover(ws.push(w), px, py) <==> (spec_writes_cover(ws, px, py) || (w.x as int
            == px && w.y as int == py)),
{
    if spec_writes_cover(ws.push(w), px, py) {
        let k = choose|k: int|
            0 <= k < ws.push(w).len() && (#[trigger] ws.push(w)[k]).x as int == px
                && ws.push(w)[k].y as int == py;
        if k < ws.len() {
            assert(ws.push(w)[k] == ws[k]);
            assert(spec_writes_cover(ws, px, py));
        } else {
            assert(ws.push(w)[k] == w);
        }
    }
    if spec_writes_cover(ws, px, py) {
        let k = choose|k: int|
            0 <= k < ws.len() && (#[trigger] ws[k]).x as int == px && ws[k].y as int == py;
        assert(ws.push(w)[k] == ws[k]);
        assert(spec_writes_cover(ws.push(w), px, py));
    }
    if w.x as int == px && w.y as int == py {
        assert(ws.push(w)[ws.len() as int] == w);
        assert(spec_writes_cover(ws.push(w), px, py));
    }
}

/// Two distinct grid indices give pixel origins that differ in at least
/// one coordinate.
proof fn lemma_origin_injective(i: int, j: int, cols: int)
    requires
        0 < cols,
        0 <= i,
        0 <= j,
        i != j,
    ensures
        !((i % cols) * GLYPH_WIDTH as int == (j % cols) * GLYPH_WIDTH as int && (i / cols)
            * GLYPH_HEIGHT as int == (j / cols) * GLYPH_HEIGHT as int),
{
    assert(!((i % cols) * GLYPH_WIDTH as int == (j % cols) * GLYPH_WIDTH as int && (i / cols)
        * GLYPH_HEIGHT as int == (j / cols) * GLYPH_HEIGHT as int)) by (nonlinear_arith)
        requires
            0 < cols,
            0 <= i,
            0 <= j,
            i != j,
            GLYPH_WIDTH as int == 6,
            GLYPH_HEIGHT as int == 10,
    ;
}

/// A glyph-cell pixel origin of an index inside a grid whose rotated
/// pixel size fits in 16 bits is itself a 16-bit value.
proof fn lemma_origin_bounds(i: int, cols: int, rows: int)
    requires
        0 < cols,
        0 < rows,
        0 <= i < cols * rows,
        cols * GLYPH_WIDTH as int <= 0xFFFF,
        rows * GLYPH_HEIGHT as int <= 0xFFFF,
    ensures
        0 <= (i % cols) * GLYPH_WIDTH as int <= 0xFFFF,
        0 <= (i / cols) * GLYPH_HEIGHT as int <= 0xFFFF,
{
    assert(0 <= (i % cols) * GLYPH_WIDTH as int <= 0xFFFF && 0 <= (i / cols)
        * GLYPH_HEIGHT as int <= 0xFFFF) by (nonlinear_arith)
        requires
            0 < cols,
            0 < rows,
            0 <= i < cols * rows,
            cols * GLYPH_WIDTH as int <= 0xFFFF,
            rows * GLYPH_HEIGHT as int <= 0xFFFF,
    ;
}

proof fn lemma_cycle_cover(
    screen: Seq<Cell>,
    frameseq: Seq<Cell>,
    cols: int,
    rows: int,
    n: int,
    pos: int,
)
    requires
        0 < cols,
        0 < rows,
        screen.len() == frameseq.len(),
        screen.len() == cols * rows,
        cols * GLYPH_WIDTH as int <= 0xFFFF,
        rows * GLYPH_HEIGHT as int <= 0xFFFF,
        0 <= n <= screen.len(),
        0 <= pos < screen.len(),
    ensures
        spec_writes_cover(
            spec_cycle_prefix(screen, frameseq, cols, n),
            (pos % cols) * GLYPH_WIDTH as int,
            (pos / cols) * GLYPH_HEIGHT as int,
        ) <==> (pos < n && frameseq[pos] != screen[pos]),
    decreases n,
{
    let px = (pos % cols) * GLYPH_WIDTH as int;
    let py = (pos / cols) * GLYPH_HEIGHT as int;
    lemma_origin_bounds(pos, cols, rows);
    if n == 0 {
        assert(!spec_writes_cover(spec_cycle_prefix(screen, frameseq, cols, 0), px, py));
    } else {
        lemma_cycle_cover(screen, frameseq, cols, rows, n - 1, pos);
        if frameseq[n - 1] != screen[n - 1] {
            let w = spec_cycle_write(frameseq, cols, n - 1);
            lemma_origin_bounds(n - 1, cols, rows);
            assert(w.x as int == ((n - 1) % cols) * GLYPH_WIDTH as int);
            assert(w.y as int == ((n - 1) / cols) * GLYPH_HEIGHT as int);
            lemma_cover_push(spec_cycle_prefix(screen, frameseq, cols, n - 1), w, px, py);
            if n - 1 != pos {
                lemma_origin_injective(n - 1, pos, cols);
            }
        }
    }
}

/// Exactly the changed cells are flushed: within one cycle, the pixel
/// writes cover the glyph-cell origin of a grid position precisely when
/// the frame's content there differs from the previously flushed
/// content — no missed dirty cell, and no write for an unchanged cell.
pub proof fn law_cycle_covers_exactly_changes(
    screen: Seq<Cell>,
    frameseq: Seq<Cell>,
    cols: int,
    rows: int,
    pos: int,
)
    requires
        0 < cols,
        0 < rows,
        screen.len() == frameseq.len(),
        screen.len() == cols * rows,
        cols * GLYPH_WIDTH as int <= 0xFFFF,
        rows * GLYPH_HEIGHT as int <= 0xFFFF,
        0 <= pos < screen.len(),
    ensures
        spec_writes_cover(
            spec_cycle_writes(screen, frameseq, cols),
            (pos % cols) * GLYPH_WIDTH as int,
            (pos / cols) * GLYPH_HEIGHT as int,
        ) <==> frameseq[pos] != screen[pos],
{
    lemma_cycle_cover(screen, frameseq, cols, rows, screen.len() as int, pos);
}

/// Flushing is idempotent: a cycle whose frame equals the displayed
/// content — as after a completed flush with no intervening draws —
/// performs zero pixel writes.
pub proof fn law_identical_cycle_writes_nothing(screen: Seq<Cell>, cols: int)
    ensures
        spec_cycle_writes(screen, screen, cols).len() == 0,
{
    lemma_identical_prefix_empty(screen, cols, screen.len() as int);
}

proof fn lemma_identical_prefix_empty(screen: Seq<Cell>, cols: int, n: int)
    ensures
        spec_cycle_prefix(screen, screen, cols, n).len() == 0,
    decreases n,
{
    if n > 0 {
        lemma_identical_prefix_empty(screen, cols, n - 1);
    }
}

/// A quarter-turn rotation on a non-square panel changes the effective
/// pixel size, and with it the derived cell grid's basis: the geometry a
/// backend is built over differs observably depending on whether
/// orientation was set before construction.
pub proof fn law_rotation_swaps_size(base: DisplayGeometry, rotated: DisplayGeometry)
    requires
        base.width == rotated.width,
        base.height == rotated.height,
        base.width != base.height,
        !base.rotation.swaps_axes(),
        rotated.rotation.swaps_axes(),
    ensures
        rotated.spec_effective_width() != base.spec_effective_width(),
        rotated.spec_effective_height() != base.spec_effective_height(),
{
}

} // verus!
