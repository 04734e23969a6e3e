//! One render pass's write surface: a cell grid the draw callback fills,
//! which the render loop then diffs against the displayed content.

use vstd::prelude::*;
use crate::cell::Cell;

verus! {

/// A rectangular region of the cell grid, in cell coordinates.
#[derive(Clone, Copy, PartialEq, Eq, Structural, Debug)]
pub struct Region {
    /// Leftmost column of the region.
    pub x: u16,
    /// Topmost row of the region.
    pub y: u16,
    /// Width in cells.
    pub width: u16,
    /// Height in cells.
    pub height: u16,
}

impl Region {
    /// The cell position (cx, cy) lies inside this region.
    pub open spec fn contains(self, cx: int, cy: int) -> bool {
        &&& self.x as int <= cx < self.x as int + self.width as int
        &&& self.y as int <= cy < self.y as int + self.height as int
    }

    /// The region lies inside a grid of the given dimensions.
    pub open spec fn within(self, cols: int, rows: int) -> bool {
        &&& self.x as int + self.width as int <= cols
        &&& self.y as int + self.height as int <= rows
    }
}

/// The write surface for exactly one render pass: a grid of cells, all
/// blank when the pass begins, row-major in memory.
pub struct Frame {
    /// Number of cell columns.
    pub cols: u16,
    /// Number of cell rows.
    pub rows: u16,
    /// The cells, row-major: index `y * cols + x`.
    pub cells: Vec<Cell>,
}

impl Frame {
    /// The grid holds exactly `cols * rows` cells.
    pub open spec fn wf(self) -> bool {
        self.cells@.len() == self.cols as int * self.rows as int
    }

    /// Row-major index of the cell position (cx, cy).
    pub open spec fn index_of(self, cx: int, cy: int) -> int {
        cy * self.cols as int + cx
    }

    /// The cell at position (cx, cy).
    pub open spec fn cell(self, cx: int, cy: int) -> Cell {
        self.cells@[self.index_of(cx, cy)]
    }

    /// A frame of the given dimensions with every cell blank.
    pub fn blank(cols: u16, rows: u16) -> (f: Frame)
        ensures
            f.wf(),
            f.cols == cols,
            f.rows == rows,
            forall|i: int| 0 <= i < f.cells@.len() ==> f.cells@[i] == Cell::spec_blank(),
    {
        proof {
            lemma_u16_product_fits(cols as int, rows as int);
        }
        let total: usize = cols as usize * rows as usize;
        let mut cells: Vec<Cell> = Vec::new();
        let mut i: usize = 0;
        while i < total
            invariant
                i <= total,
                cells@.len() == i,
                forall|j: int| 0 <= j < i ==> cells@[j] == Cell::spec_blank(),
            decreases total - i,
        {
            cells.push(Cell::blank());
            i = i + 1;
        }
        Frame { cols, rows, cells }
    }

    /// The whole grid as a region, for the draw callback's layout.
    pub fn area(&self) -> (r: Region)
        ensures
            r == (Region { x: 0u16, y: 0u16, width: self.cols, height: self.rows }),
    {
        Region { x: 0, y: 0, width: self.cols, height: self.rows }
    }

    /// Writes one cell. Everything else in the frame is untouched.
    pub fn set_cell(&mut self, cx: u16, cy: u16, cell: Cell)
        requires
            old(self).wf(),
            cx < old(self).cols,
            cy < old(self).rows,
        ensures
            final(self).wf(),
            final(self).cols == old(self).cols,
            final(self).rows == old(self).rows,
            final(self).cells@ == old(self).cells@.update(
                old(self).index_of(cx as int, cy as int),
                cell,
            ),
    {
        proof {
            lemma_grid_index(cx as int, cy as int, self.cols as int, self.rows as int);
        }
        let idx: usize = cy as usize * self.cols as usize + cx as usize;
        self.cells.set(idx, cell);
    }

    /// Reads one cell.
    pub fn cell_at(&self, cx: u16, cy: u16) -> (c: Cell)
        requires
            self.wf(),
            cx < self.cols,
            cy < self.rows,
        ensures
            c == self.cell(cx as int, cy as int),
    {
        proof {
            lemma_grid_index(cx as int, cy as int, self.cols as int, self.rows as int);
        }
        let idx: usize = cy as usize * self.cols as usize + cx as usize;
        self.cells[idx]
    }
}

/// The product of two 16-bit quantities fits in 32 bits, and so in a
/// machine word.
pub proof fn lemma_u16_product_fits(a: int, b: int)
    requires
        0 <= a <= 0xFFFF,
        0 <= b <= 0xFFFF,
    ensures
        0 <= a * b <= 0xFFFE_0001,
{
    assert(0 <= a * b <= 0xFFFE_0001) by (nonlinear_arith)
        requires
            0 <= a <= 0xFFFF,
            0 <= b <= 0xFFFF,
    ;
}

/// A row-major cell index lies inside the grid, and within a machine
/// word, whenever its coordinates do.
pub proof fn lemma_grid_index(cx: int, cy: int, cols: int, rows: int)
    requires
        0 <= cx < cols,
        0 <= cy < rows,
        cols <= 0xFFFF,
        rows <= 0xFFFF,
    ensures
        0 <= cy * cols + cx < rows * cols,
        0 <= cy * cols + cx < cols * rows,
        cy * cols + cx <= 0xFFFE_0001,
{
    assert(0 <= cy * cols + cx < rows * cols && cy * cols + cx < cols * rows) by (nonlinear_arith)
        requires
            0 <= cx < cols,
            0 <= cy < rows,
    ;
    lemma_u16_product_fits(rows, cols);
}

} // verus!
