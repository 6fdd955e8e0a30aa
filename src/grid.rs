//! Cell storage: a fixed-size, row-major grid of one-byte cells (0 dead, 1 alive).

use vstd::prelude::*;

verus! {

/// What a grid holds, seen mathematically.
pub struct GridModel {
    pub width: int,
    pub height: int,
    pub cells: Seq<u8>,
}

/// Position of cell `(x, y)` in the row-major byte sequence of a grid `width` cells wide.
pub open spec fn cell_index(width: int, x: int, y: int) -> int {
    y * width + x
}

/// A grid is non-empty, holds one byte per cell, and every byte is 0 or 1.
pub open spec fn grid_wf(cells: Seq<u8>, width: int, height: int) -> bool {
    &&& width > 0
    &&& height > 0
    &&& cells.len() == width * height
    &&& forall|i: int| 0 <= i < cells.len() ==> #[trigger] cells[i] <= 1
}

/// Cell `(x, y)` of a grid lies at an index inside its byte sequence.
pub proof fn lemma_cell_index_bounds(width: int, height: int, x: int, y: int)
    requires
        0 <= x < width,
        0 <= y < height,
    ensures
        0 <= y * width <= cell_index(width, x, y) < width * height,
{
    assert(0 <= y * width <= y * width + x < width * height) by (nonlinear_arith)
        requires
            0 <= x < width,
            0 <= y < height,
    ;
}

/// Every index of a grid's byte sequence is the index of exactly one cell.
pub proof fn lemma_index_to_cell(width: int, height: int, i: int)
    requires
        width > 0,
        0 <= i < width * height,
    ensures
        0 <= i % width < width,
        0 <= i / width < height,
        cell_index(width, i % width, i / width) == i,
{
    vstd::arithmetic::div_mod::lemma_fundamental_div_mod(i, width);
    vstd::arithmetic::div_mod::lemma_mod_bound(i, width);
    vstd::arithmetic::div_mod::lemma_div_pos_is_pos(i, width);
    assert(i / width < height) by {
        assert(width * height - 1 == (height - 1) * width + (width - 1)) by (nonlinear_arith);
        vstd::arithmetic::div_mod::lemma_div_is_ordered(i, width * height - 1, width);
        vstd::arithmetic::div_mod::lemma_fundamental_div_mod_converse(
            width * height - 1,
            width,
            height - 1,
            width - 1,
        );
    }
    assert(cell_index(width, i % width, i / width) == i) by (nonlinear_arith)
        requires
            i == width * (i / width) + (i % width),
    ;
}

/// The cell of a given index: its column and row are the remainder and the quotient by the width.
pub proof fn lemma_cell_of_index(width: int, x: int, y: int)
    requires
        0 <= x < width,
        0 <= y,
    ensures
        cell_index(width, x, y) % width == x,
        cell_index(width, x, y) / width == y,
{
    vstd::arithmetic::div_mod::lemma_fundamental_div_mod_converse(y * width + x, width, y, x);
}

/// A grid of cells, fixed in size when it is made.
pub struct CellGrid {
    width: u32,
    height: u32,
    cells: Vec<u8>,
}

impl View for CellGrid {
    type V = GridModel;

    closed spec fn view(&self) -> GridModel {
        GridModel { width: self.width as int, height: self.height as int, cells: self.cells@ }
    }
}

impl CellGrid {
    pub open spec fn wf(&self) -> bool {
        &&& grid_wf(self@.cells, self@.width, self@.height)
        &&& self@.cells.len() <= usize::MAX
        &&& self@.width <= u32::MAX
        &&& self@.height <= u32::MAX
    }

    /// A `width` by `height` grid with every cell dead.
    pub fn new_dead(width: u32, height: u32) -> (g: CellGrid)
        requires
            width > 0,
            height > 0,
            width * height <= usize::MAX,
        ensures
            g.wf(),
            g@.width == width,
            g@.height == height,
            forall|i: int| 0 <= i < g@.cells.len() ==> #[trigger] g@.cells[i] == 0,
    {
        let n: usize = (width as usize) * (height as usize);
        let mut cells: Vec<u8> = Vec::with_capacity(n);
        let mut i: usize = 0;
        while i < n
            invariant
                i <= n,
                cells@.len() == i,
                forall|k: int| 0 <= k < i ==> #[trigger] cells@[k] == 0,
            decreases n - i,
        {
            cells.push(0);
            i = i + 1;
        }
        CellGrid { width, height, cells }
    }

    /// A grid with no cells, used only as a stand-in while a slot's grid is moved out.
    pub(crate) fn vacant() -> (g: CellGrid) {
        CellGrid { width: 0, height: 0, cells: Vec::new() }
    }

    pub fn width(&self) -> (r: u32)
        ensures
            r == self@.width,
    {
        self.width
    }

    pub fn height(&self) -> (r: u32)
        ensures
            r == self@.height,
    {
        self.height
    }

    /// The bytes of the grid, row by row.
    pub fn cells(&self) -> (r: &Vec<u8>)
        ensures
            r@ == self@.cells,
    {
        &self.cells
    }

    /// The state of cell `(x, y)`.
    pub fn cell(&self, x: u32, y: u32) -> (r: u8)
        requires
            self.wf(),
            x < self@.width,
            y < self@.height,
        ensures
            r == self@.cells[cell_index(self@.width, x as int, y as int)],
            r <= 1,
    {
        proof {
            lemma_cell_index_bounds(self.width as int, self.height as int, x as int, y as int);
        }
        self.cells[(y as usize) * (self.width as usize) + (x as usize)]
    }

    /// Sets cell `(x, y)` to `value`, leaving every other cell as it was.
    pub fn set_cell(&mut self, x: u32, y: u32, value: u8)
        requires
            old(self).wf(),
            x < old(self)@.width,
            y < old(self)@.height,
            value <= 1,
        ensures
            final(self).wf(),
            final(self)@.width == old(self)@.width,
            final(self)@.height == old(self)@.height,
            final(self)@.cells == old(self)@.cells.update(
                cell_index(old(self)@.width, x as int, y as int),
                value,
            ),
    {
        proof {
            lemma_cell_index_bounds(self.width as int, self.height as int, x as int, y as int);
        }
        let i: usize = (y as usize) * (self.width as usize) + (x as usize);
        self.cells.set(i, value);
    }

    /// Sets the cell at row-major position `i` to `value`.
    pub fn set_index(&mut self, i: usize, value: u8)
        requires
            old(self).wf(),
            i < old(self)@.cells.len(),
            value <= 1,
        ensures
            final(self).wf(),
            final(self)@.width == old(self)@.width,
            final(self)@.height == old(self)@.height,
            final(self)@.cells == old(self)@.cells.update(i as int, value),
    {
        self.cells.set(i, value);
    }
}

} // verus!
