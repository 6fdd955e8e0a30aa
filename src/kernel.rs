//! The step kernel: one generation of Conway's rule on a toroidal grid.

use vstd::prelude::*;
use crate::grid::{
    CellGrid, cell_index, lemma_cell_index_bounds, lemma_cell_of_index, lemma_index_to_cell,
};

verus! {

/// 1 if the cell at `(x, y)`, taken modulo the grid's size on each axis, is alive; else 0.
pub open spec fn alive_wrapped(cells: Seq<u8>, width: int, height: int, x: int, y: int) -> int {
    if cells[cell_index(width, x % width, y % height)] == 1 {
        1
    } else {
        0
    }
}

/// How many of the eight cells around `(x, y)` are alive, with both axes wrapping around.
pub open spec fn live_neighbors(cells: Seq<u8>, width: int, height: int, x: int, y: int) -> int {
    alive_wrapped(cells, width, height, x - 1, y - 1) + alive_wrapped(cells, width, height, x, y - 1)
        + alive_wrapped(cells, width, height, x + 1, y - 1) + alive_wrapped(
        cells,
        width,
        height,
        x - 1,
        y,
    ) + alive_wrapped(cells, width, height, x + 1, y) + alive_wrapped(
        cells,
        width,
        height,
        x - 1,
        y + 1,
    ) + alive_wrapped(cells, width, height, x, y + 1) + alive_wrapped(
        cells,
        width,
        height,
        x + 1,
        y + 1,
    )
}

/// Conway's rule: alive next iff three neighbours are alive, or the cell is alive and two are.
pub open spec fn life_rule(state: u8, neighbors: int) -> u8 {
    if neighbors == 3 || (state == 1 && neighbors == 2) {
        1
    } else {
        0
    }
}

/// The next state of cell `(x, y)`.
pub open spec fn next_cell(cells: Seq<u8>, width: int, height: int, x: int, y: int) -> u8 {
    life_rule(cells[cell_index(width, x, y)], live_neighbors(cells, width, height, x, y))
}

/// The whole next generation, row by row.
pub open spec fn life_step(cells: Seq<u8>, width: int, height: int) -> Seq<u8> {
    Seq::new(
        (width * height) as nat,
        |i: int| next_cell(cells, width, height, i % width, i / width),
    )
}

/// Stepping one to either side of a coordinate, modulo the axis length, is the
/// neighbouring coordinate, or the one at the far edge.
pub proof fn lemma_wrap(c: int, n: int)
    requires
        0 <= c < n,
    ensures
        c % n == c,
        (c - 1) % n == (if c == 0 {
            n - 1
        } else {
            c - 1
        }),
        (c + 1) % n == (if c + 1 == n {
            0
        } else {
            c + 1
        }),
{
    vstd::arithmetic::div_mod::lemma_fundamental_div_mod_converse(c, n, 0, c);
    if c == 0 {
        vstd::arithmetic::div_mod::lemma_fundamental_div_mod_converse(c - 1, n, -1, n - 1);
    } else {
        vstd::arithmetic::div_mod::lemma_fundamental_div_mod_converse(c - 1, n, 0, c - 1);
    }
    if c + 1 == n {
        vstd::arithmetic::div_mod::lemma_fundamental_div_mod_converse(c + 1, n, 1, 0);
    } else {
        vstd::arithmetic::div_mod::lemma_fundamental_div_mod_converse(c + 1, n, 0, c + 1);
    }
}

fn alive_bit(v: u8) -> (r: u8)
    ensures
        r == (if v == 1 {
            1u8
        } else {
            0u8
        }),
{
    if v == 1 {
        1
    } else {
        0
    }
}

/// Counts the live neighbours of `(x, y)` in `read`.
pub fn count_live_neighbors(read: &CellGrid, x: u32, y: u32) -> (n: u8)
    requires
        read.wf(),
        x < read@.width,
        y < read@.height,
    ensures
        n as int == live_neighbors(read@.cells, read@.width, read@.height, x as int, y as int),
        n <= 8,
{
    let w = read.width();
    let h = read.height();
    let left = if x == 0 {
        w - 1
    } else {
        x - 1
    };
    let right = if x + 1 == w {
        0
    } else {
        x + 1
    };
    let up = if y == 0 {
        h - 1
    } else {
        y - 1
    };
    let down = if y + 1 == h {
        0
    } else {
        y + 1
    };
    proof {
        lemma_wrap(x as int, w as int);
        lemma_wrap(y as int, h as int);
    }
    let mut n: u8 = alive_bit(read.cell(left, up));
    n = n + alive_bit(read.cell(x, up));
    n = n + alive_bit(read.cell(right, up));
    n = n + alive_bit(read.cell(left, y));
    n = n + alive_bit(read.cell(right, y));
    n = n + alive_bit(read.cell(left, down));
    n = n + alive_bit(read.cell(x, down));
    n = n + alive_bit(read.cell(right, down));
    n
}

/// The next state of cell `(x, y)` of `read`.
pub fn next_cell_state(read: &CellGrid, x: u32, y: u32) -> (r: u8)
    requires
        read.wf(),
        x < read@.width,
        y < read@.height,
    ensures
        r == next_cell(read@.cells, read@.width, read@.height, x as int, y as int),
        r <= 1,
{
    let n = count_live_neighbors(read, x, y);
    let state = read.cell(x, y);
    if n == 3 || (state == 1 && n == 2) {
        1
    } else {
        0
    }
}

/// How a generation is computed. Both strategies give the same grid.
#[derive(Clone, Copy, Debug, PartialEq, Eq, Structural)]
pub enum StepStrategy {
    /// Visits the cells by coordinates, row by row and column by column.
    Raster,
    /// Walks the grid as one linear buffer, deriving each cell's coordinates from its
    /// index. Grids stepped this way must have sides that are multiples of the tile size.
    Compute,
}

/// The granularity, in cells, of the sides of a grid stepped by `Compute`.
pub const TILE_SIZE: u32 = 8;

impl StepStrategy {
    /// The granularity that the grid's sides must be multiples of.
    pub open spec fn spec_tile_size(self) -> int {
        match self {
            StepStrategy::Raster => 1,
            StepStrategy::Compute => TILE_SIZE as int,
        }
    }

    pub fn tile_size(&self) -> (r: u32)
        ensures
            r == self.spec_tile_size(),
    {
        match self {
            StepStrategy::Raster => 1,
            StepStrategy::Compute => TILE_SIZE,
        }
    }

    /// Writes the generation after `read` into `write`, one byte per cell. `read` is not
    /// changed, and what `write` held before does not matter.
    pub fn step(&self, read: &CellGrid, write: &mut CellGrid)
        requires
            read.wf(),
            old(write).wf(),
            old(write)@.width == read@.width,
            old(write)@.height == read@.height,
        ensures
            final(write).wf(),
            final(write)@.width == read@.width,
            final(write)@.height == read@.height,
            final(write)@.cells == life_step(read@.cells, read@.width, read@.height),
    {
        match self {
            StepStrategy::Raster => step_by_rows(read, write),
            StepStrategy::Compute => step_linear(read, write),
        }
    }
}

fn step_by_rows(read: &CellGrid, write: &mut CellGrid)
    requires
        read.wf(),
        old(write).wf(),
        old(write)@.width == read@.width,
        old(write)@.height == read@.height,
    ensures
        final(write).wf(),
        final(write)@.width == read@.width,
        final(write)@.height == read@.height,
        final(write)@.cells == life_step(read@.cells, read@.width, read@.height),
{
    let w = read.width();
    let h = read.height();
    let ghost cells = read@.cells;
    let mut y: u32 = 0;
    while y < h
        invariant
            read.wf(),
            write.wf(),
            w == read@.width,
            h == read@.height,
            cells == read@.cells,
            write@.width == w,
            write@.height == h,
            y <= h,
            forall|cx: int, cy: int|
                0 <= cx < w && 0 <= cy < y ==> #[trigger] write@.cells[cell_index(w as int, cx, cy)]
                    == next_cell(cells, w as int, h as int, cx, cy),
        decreases h - y,
    {
        let mut x: u32 = 0;
        while x < w
            invariant
                read.wf(),
                write.wf(),
                w == read@.width,
                h == read@.height,
                cells == read@.cells,
                write@.width == w,
                write@.height == h,
                y < h,
                x <= w,
                forall|cx: int, cy: int|
                    0 <= cx < w && 0 <= cy < h && (cy < y || (cy == y && cx < x))
                        ==> #[trigger] write@.cells[cell_index(w as int, cx, cy)] == next_cell(
                        cells,
                        w as int,
                        h as int,
                        cx,
                        cy,
                    ),
            decreases w - x,
        {
            let v = next_cell_state(read, x, y);
            let ghost before = write@.cells;
            write.set_cell(x, y, v);
            assert forall|cx: int, cy: int|
                0 <= cx < w && 0 <= cy < h && (cy < y || (cy == y && cx < x + 1)) implies
                #[trigger] write@.cells[cell_index(w as int, cx, cy)] == next_cell(
                cells,
                w as int,
                h as int,
                cx,
                cy,
            ) by {
                lemma_cell_index_bounds(w as int, h as int, cx, cy);
                lemma_cell_index_bounds(w as int, h as int, x as int, y as int);
                if cx != x || cy != y {
                    lemma_cell_of_index(w as int, cx, cy);
                    lemma_cell_of_index(w as int, x as int, y as int);
                    assert(cell_index(w as int, cx, cy) != cell_index(w as int, x as int, y as int));
                    assert(before[cell_index(w as int, cx, cy)] == next_cell(
                        cells,
                        w as int,
                        h as int,
                        cx,
                        cy,
                    ));
                }
            }
            x = x + 1;
        }
        y = y + 1;
    }
    proof {
        assert forall|i: int| 0 <= i < (w as int) * (h as int) implies #[trigger] write@.cells[i]
            == life_step(cells, w as int, h as int)[i] by {
            lemma_index_to_cell(w as int, h as int, i);
        }
        assert(write@.cells =~= life_step(cells, w as int, h as int));
    }
}

fn step_linear(read: &CellGrid, write: &mut CellGrid)
    requires
        read.wf(),
        old(write).wf(),
        old(write)@.width == read@.width,
        old(write)@.height == read@.height,
    ensures
        final(write).wf(),
        final(write)@.width == read@.width,
        final(write)@.height == read@.height,
        final(write)@.cells == life_step(read@.cells, read@.width, read@.height),
{
    let w = read.width();
    let h = read.height();
    let ghost cells = read@.cells;
    let n: usize = (w as usize) * (h as usize);
    let mut i: usize = 0;
    while i < n
        invariant
            read.wf(),
            write.wf(),
            w == read@.width,
            h == read@.height,
            cells == read@.cells,
            write@.width == w,
            write@.height == h,
            n == (w as int) * (h as int),
            i <= n,
            forall|k: int|
                0 <= k < i ==> #[trigger] write@.cells[k] == life_step(cells, w as int, h as int)[k],
        decreases n - i,
    {
        proof {
            lemma_index_to_cell(w as int, h as int, i as int);
        }
        let x = (i % (w as usize)) as u32;
        let y = (i / (w as usize)) as u32;
        let v = next_cell_state(read, x, y);
        write.set_index(i, v);
        i = i + 1;
    }
    proof {
        assert(write@.cells =~= life_step(cells, w as int, h as int));
    }
}

/// An `n` by `n` grid whose only live cell is `(0, 0)`.
pub open spec fn lone_corner_cell(n: int) -> Seq<u8> {
    Seq::new((n * n) as nat, |i: int| if i == 0 { 1u8 } else { 0u8 })
}

/// In a grid `n` cells wide, only cell `(0, 0)` has index 0.
proof fn lemma_index_zero(n: int, x: int, y: int)
    requires
        0 <= x < n,
        0 <= y,
    ensures
        (cell_index(n, x, y) == 0) <==> (x == 0 && y == 0),
{
    assert(y * n >= 0 && (y >= 1 ==> y * n >= n)) by (nonlinear_arith)
        requires
            n > 0,
            y >= 0,
    ;
}

/// Wrap-around on both axes: the live cell at `(0, 0)` of an `n` by `n` grid (`n >= 3`) is
/// the one live neighbour of each of `(n-1, n-1)`, `(n-1, 0)`, `(n-1, 1)`, `(0, n-1)`,
/// `(0, 1)`, `(1, n-1)`, `(1, 0)` and `(1, 1)`.
pub proof fn lemma_corner_wraps(n: int, x: int, y: int)
    requires
        n >= 3,
        x == n - 1 || x == 0 || x == 1,
        y == n - 1 || y == 0 || y == 1,
        !(x == 0 && y == 0),
    ensures
        live_neighbors(lone_corner_cell(n), n, n, x, y) == 1,
{
    let cells = lone_corner_cell(n);
    lemma_wrap(x, n);
    lemma_wrap(y, n);
    let xl = (x - 1) % n;
    let xr = (x + 1) % n;
    let yu = (y - 1) % n;
    let yd = (y + 1) % n;
    assert forall|a: int, b: int| 0 <= a < n && 0 <= b < n implies #[trigger] cells[cell_index(n, a, b)]
        == (if a == 0 && b == 0 {
        1u8
    } else {
        0u8
    }) by {
        lemma_index_zero(n, a, b);
        lemma_cell_index_bounds(n, n, a, b);
    }
    assert(cells[cell_index(n, xl, yu)] == (if xl == 0 && yu == 0 { 1u8 } else { 0u8 }));
    assert(cells[cell_index(n, x, yu)] == (if x == 0 && yu == 0 { 1u8 } else { 0u8 }));
    assert(cells[cell_index(n, xr, yu)] == (if xr == 0 && yu == 0 { 1u8 } else { 0u8 }));
    assert(cells[cell_index(n, xl, y)] == (if xl == 0 && y == 0 { 1u8 } else { 0u8 }));
    assert(cells[cell_index(n, xr, y)] == (if xr == 0 && y == 0 { 1u8 } else { 0u8 }));
    assert(cells[cell_index(n, xl, yd)] == (if xl == 0 && yd == 0 { 1u8 } else { 0u8 }));
    assert(cells[cell_index(n, x, yd)] == (if x == 0 && yd == 0 { 1u8 } else { 0u8 }));
    assert(cells[cell_index(n, xr, yd)] == (if xr == 0 && yd == 0 { 1u8 } else { 0u8 }));
}

/// `start <= c < start + len`.
pub open spec fn in_span(c: int, start: int, len: int) -> bool {
    start <= c < start + len
}

/// A `width` by `height` grid whose live cells are exactly the `rw` by `rh` rectangle at
/// `(x0, y0)`.
pub open spec fn rect_cells(width: int, height: int, x0: int, y0: int, rw: int, rh: int) -> Seq<u8> {
    Seq::new(
        (width * height) as nat,
        |i: int|
            if in_span(i % width, x0, rw) && in_span(i / width, y0, rh) {
                1u8
            } else {
                0u8
            },
    )
}

/// 1 if `(x, y)` lies in the rectangle, else 0.
pub open spec fn rect_bit(x: int, y: int, x0: int, y0: int, rw: int, rh: int) -> int {
    if in_span(x, x0, rw) && in_span(y, y0, rh) {
        1
    } else {
        0
    }
}

/// The coordinate before `c` on an axis of `n` cells, wrapping around.
pub open spec fn before(c: int, n: int) -> int {
    if c == 0 {
        n - 1
    } else {
        c - 1
    }
}

/// The coordinate after `c` on an axis of `n` cells, wrapping around.
pub open spec fn after(c: int, n: int) -> int {
    if c + 1 == n {
        0
    } else {
        c + 1
    }
}

proof fn lemma_rect_alive(
    width: int,
    height: int,
    x0: int,
    y0: int,
    rw: int,
    rh: int,
    a: int,
    b: int,
)
    requires
        width > 0,
        height > 0,
    ensures
        alive_wrapped(rect_cells(width, height, x0, y0, rw, rh), width, height, a, b) == rect_bit(
            a % width,
            b % height,
            x0,
            y0,
            rw,
            rh,
        ),
{
    let ca = a % width;
    let cb = b % height;
    vstd::arithmetic::div_mod::lemma_mod_bound(a, width);
    vstd::arithmetic::div_mod::lemma_mod_bound(b, height);
    lemma_cell_index_bounds(width, height, ca, cb);
    lemma_cell_of_index(width, ca, cb);
}

/// The next state of a cell of a rectangle-shaped grid, in terms of which of the nine cells
/// around it lie in the rectangle.
proof fn lemma_rect_next(
    width: int,
    height: int,
    x0: int,
    y0: int,
    rw: int,
    rh: int,
    x: int,
    y: int,
)
    requires
        0 <= x < width,
        0 <= y < height,
    ensures
        next_cell(rect_cells(width, height, x0, y0, rw, rh), width, height, x, y) == life_rule(
            rect_bit(x, y, x0, y0, rw, rh) as u8,
            rect_bit(before(x, width), before(y, height), x0, y0, rw, rh) + rect_bit(
                x,
                before(y, height),
                x0,
                y0,
                rw,
                rh,
            ) + rect_bit(after(x, width), before(y, height), x0, y0, rw, rh) + rect_bit(
                before(x, width),
                y,
                x0,
                y0,
                rw,
                rh,
            ) + rect_bit(after(x, width), y, x0, y0, rw, rh) + rect_bit(
                before(x, width),
                after(y, height),
                x0,
                y0,
                rw,
                rh,
            ) + rect_bit(x, after(y, height), x0, y0, rw, rh) + rect_bit(
                after(x, width),
                after(y, height),
                x0,
                y0,
                rw,
                rh,
            ),
        ),
{
    let cells = rect_cells(width, height, x0, y0, rw, rh);
    lemma_wrap(x, width);
    lemma_wrap(y, height);
    lemma_cell_index_bounds(width, height, x, y);
    lemma_cell_of_index(width, x, y);
    lemma_rect_alive(width, height, x0, y0, rw, rh, x - 1, y - 1);
    lemma_rect_alive(width, height, x0, y0, rw, rh, x, y - 1);
    lemma_rect_alive(width, height, x0, y0, rw, rh, x + 1, y - 1);
    lemma_rect_alive(width, height, x0, y0, rw, rh, x - 1, y);
    lemma_rect_alive(width, height, x0, y0, rw, rh, x + 1, y);
    lemma_rect_alive(width, height, x0, y0, rw, rh, x - 1, y + 1);
    lemma_rect_alive(width, height, x0, y0, rw, rh, x, y + 1);
    lemma_rect_alive(width, height, x0, y0, rw, rh, x + 1, y + 1);
}

/// A 2 by 2 block lying inside a grid of at least 4 by 4 cells is a still life.
pub proof fn lemma_block_still(width: int, height: int, x0: int, y0: int)
    requires
        width >= 4,
        height >= 4,
        0 <= x0,
        x0 + 2 <= width,
        0 <= y0,
        y0 + 2 <= height,
    ensures
        life_step(rect_cells(width, height, x0, y0, 2, 2), width, height) == rect_cells(
            width,
            height,
            x0,
            y0,
            2,
            2,
        ),
{
    let cells = rect_cells(width, height, x0, y0, 2, 2);
    assert forall|i: int| 0 <= i < width * height implies #[trigger] life_step(
        cells,
        width,
        height,
    )[i] == cells[i] by {
        lemma_index_to_cell(width, height, i);
        lemma_rect_next(width, height, x0, y0, 2, 2, i % width, i / width);
    }
    assert(life_step(cells, width, height) =~= cells);
}

/// A blinker whose 3 by 3 box at `(x0, y0)` lies inside a grid of at least 4 by 4 cells
/// turns from the vertical bar through the box's centre to the horizontal one, and back.
pub proof fn lemma_blinker_flips(width: int, height: int, x0: int, y0: int)
    requires
        width >= 4,
        height >= 4,
        0 <= x0,
        x0 + 3 <= width,
        0 <= y0,
        y0 + 3 <= height,
    ensures
        life_step(rect_cells(width, height, x0 + 1, y0, 1, 3), width, height) == rect_cells(
            width,
            height,
            x0,
            y0 + 1,
            3,
            1,
        ),
        life_step(rect_cells(width, height, x0, y0 + 1, 3, 1), width, height) == rect_cells(
            width,
            height,
            x0 + 1,
            y0,
            1,
            3,
        ),
{
    let vertical = rect_cells(width, height, x0 + 1, y0, 1, 3);
    let horizontal = rect_cells(width, height, x0, y0 + 1, 3, 1);
    assert forall|i: int| 0 <= i < width * height implies #[trigger] life_step(
        vertical,
        width,
        height,
    )[i] == horizontal[i] by {
        lemma_index_to_cell(width, height, i);
        lemma_rect_next(width, height, x0 + 1, y0, 1, 3, i % width, i / width);
    }
    assert(life_step(vertical, width, height) =~= horizontal);
    assert forall|i: int| 0 <= i < width * height implies #[trigger] life_step(
        horizontal,
        width,
        height,
    )[i] == vertical[i] by {
        lemma_index_to_cell(width, height, i);
        lemma_rect_next(width, height, x0, y0 + 1, 3, 1, i % width, i / width);
    }
    assert(life_step(horizontal, width, height) =~= vertical);
}

/// Cell `(x, y)` lies more than one step, across either edge, from `(0, 0)` on some axis.
pub open spec fn far_from_corner(width: int, height: int, x: int, y: int) -> bool {
    !((x == width - 1 || x == 0 || x == 1) && (y == height - 1 || y == 0 || y == 1))
}

proof fn lemma_cell_not_corner(width: int, height: int, a: int, b: int)
    requires
        0 <= a < width,
        0 <= b < height,
    ensures
        0 <= cell_index(width, a, b) < width * height,
        (cell_index(width, a, b) == 0) <==> (a == 0 && b == 0),
{
    lemma_cell_index_bounds(width, height, a, b);
    lemma_index_zero(width, a, b);
}

/// Locality across the edges: the next state of a cell far from `(0, 0)` does not depend
/// on `(0, 0)`, so two grids that differ only there step to grids that differ only at
/// `(0, 0)` and its eight neighbours, found by wrapping around.
pub proof fn lemma_corner_reach(c1: Seq<u8>, c2: Seq<u8>, width: int, height: int, x: int, y: int)
    requires
        width >= 3,
        height >= 3,
        c1.len() == width * height,
        c2.len() == width * height,
        forall|i: int| 0 < i < width * height ==> #[trigger] c1[i] == c2[i],
        0 <= x < width,
        0 <= y < height,
        far_from_corner(width, height, x, y),
    ensures
        next_cell(c1, width, height, x, y) == next_cell(c2, width, height, x, y),
{
    lemma_wrap(x, width);
    lemma_wrap(y, height);
    let xl = before(x, width);
    let xr = after(x, width);
    let yu = before(y, height);
    let yd = after(y, height);
    lemma_cell_not_corner(width, height, xl, yu);
    lemma_cell_not_corner(width, height, x, yu);
    lemma_cell_not_corner(width, height, xr, yu);
    lemma_cell_not_corner(width, height, xl, y);
    lemma_cell_not_corner(width, height, x, y);
    lemma_cell_not_corner(width, height, xr, y);
    lemma_cell_not_corner(width, height, xl, yd);
    lemma_cell_not_corner(width, height, x, yd);
    lemma_cell_not_corner(width, height, xr, yd);
    assert(c1[cell_index(width, xl, yu)] == c2[cell_index(width, xl, yu)]);
    assert(c1[cell_index(width, x, yu)] == c2[cell_index(width, x, yu)]);
    assert(c1[cell_index(width, xr, yu)] == c2[cell_index(width, xr, yu)]);
    assert(c1[cell_index(width, xl, y)] == c2[cell_index(width, xl, y)]);
    assert(c1[cell_index(width, x, y)] == c2[cell_index(width, x, y)]);
    assert(c1[cell_index(width, xr, y)] == c2[cell_index(width, xr, y)]);
    assert(c1[cell_index(width, xl, yd)] == c2[cell_index(width, xl, yd)]);
    assert(c1[cell_index(width, x, yd)] == c2[cell_index(width, x, yd)]);
    assert(c1[cell_index(width, xr, yd)] == c2[cell_index(width, xr, yd)]);
}

} // verus!
