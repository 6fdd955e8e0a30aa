//! Rectangular reads and writes of a grid's cells.

use vstd::prelude::*;
use crate::grid::{
    CellGrid, cell_index, lemma_cell_index_bounds, lemma_cell_of_index, lemma_index_to_cell,
};

verus! {

/// Cell `(cx, cy)` lies in the `w` by `h` rectangle whose top-left cell is `(x, y)`.
pub open spec fn in_rect(cx: int, cy: int, x: int, y: int, w: int, h: int) -> bool {
    x <= cx < x + w && y <= cy < y + h
}

/// The rectangle lies wholly inside a `grid_w` by `grid_h` grid.
pub open spec fn rect_inside(grid_w: int, grid_h: int, x: int, y: int, w: int, h: int) -> bool {
    x + w <= grid_w && y + h <= grid_h
}

/// The bytes of a grid `grid_w` cells wide after the rectangle at `(x, y)` is overwritten
/// with `data`, which holds the rectangle row by row.
pub open spec fn with_area(
    cells: Seq<u8>,
    grid_w: int,
    x: int,
    y: int,
    w: int,
    h: int,
    data: Seq<u8>,
) -> Seq<u8> {
    Seq::new(
        cells.len(),
        |i: int|
            if in_rect(i % grid_w, i / grid_w, x, y, w, h) {
                data[cell_index(w, i % grid_w - x, i / grid_w - y)]
            } else {
                cells[i]
            },
    )
}

/// The bytes of the rectangle at `(x, y)` of a grid `grid_w` cells wide, row by row.
pub open spec fn area_of(cells: Seq<u8>, grid_w: int, x: int, y: int, w: int, h: int) -> Seq<u8> {
    Seq::new((w * h) as nat, |k: int| cells[cell_index(grid_w, x + k % w, y + k / w)])
}

/// Reading back a rectangle that was just written gives the bytes written.
pub proof fn lemma_area_round_trip(
    cells: Seq<u8>,
    grid_w: int,
    grid_h: int,
    x: int,
    y: int,
    w: int,
    h: int,
    data: Seq<u8>,
)
    requires
        grid_w > 0,
        cells.len() == grid_w * grid_h,
        0 <= x,
        0 <= y,
        0 <= w,
        0 <= h,
        rect_inside(grid_w, grid_h, x, y, w, h),
        data.len() == w * h,
    ensures
        area_of(with_area(cells, grid_w, x, y, w, h, data), grid_w, x, y, w, h) == data,
{
    let after = with_area(cells, grid_w, x, y, w, h, data);
    assert forall|k: int| 0 <= k < w * h implies #[trigger] area_of(after, grid_w, x, y, w, h)[k]
        == data[k] by {
        assert(w > 0) by (nonlinear_arith)
            requires
                0 <= k < w * h,
                w >= 0,
                h >= 0,
        ;
        lemma_index_to_cell(w, h, k);
        let cx = x + k % w;
        let cy = y + k / w;
        lemma_cell_index_bounds(grid_w, grid_h, cx, cy);
        lemma_cell_of_index(grid_w, cx, cy);
    }
    assert(area_of(after, grid_w, x, y, w, h) =~= data);
}

/// A rectangle inside a grid has no more cells than the grid.
pub proof fn lemma_rect_size(grid_w: int, grid_h: int, w: int, h: int)
    requires
        0 <= w <= grid_w,
        0 <= h <= grid_h,
    ensures
        w * h <= grid_w * grid_h,
{
    assert(w * h <= grid_w * grid_h) by (nonlinear_arith)
        requires
            0 <= w <= grid_w,
            0 <= h <= grid_h,
    ;
}

/// Overwrites the `w` by `h` rectangle at `(x, y)` with `data`, row by row.
pub fn write_rect(grid: &mut CellGrid, data: &[u8], x: u32, y: u32, w: u32, h: u32)
    requires
        old(grid).wf(),
        data@.len() == w * h,
        forall|i: int| 0 <= i < data@.len() ==> #[trigger] data@[i] <= 1,
        rect_inside(old(grid)@.width, old(grid)@.height, x as int, y as int, w as int, h as int),
    ensures
        final(grid).wf(),
        final(grid)@.width == old(grid)@.width,
        final(grid)@.height == old(grid)@.height,
        final(grid)@.cells == with_area(
            old(grid)@.cells,
            old(grid)@.width,
            x as int,
            y as int,
            w as int,
            h as int,
            data@,
        ),
{
    let ghost gw = grid@.width;
    let ghost gh = grid@.height;
    let ghost start = grid@.cells;
    let mut r: u32 = 0;
    let mut k: usize = 0;
    while r < h
        invariant
            grid.wf(),
            grid@.width == gw,
            grid@.height == gh,
            data@.len() == w * h,
            forall|i: int| 0 <= i < data@.len() ==> #[trigger] data@[i] <= 1,
            rect_inside(gw, gh, x as int, y as int, w as int, h as int),
            r <= h,
            k == r * w,
            forall|cx: int, cy: int|
                0 <= cx < gw && 0 <= cy < gh ==> #[trigger] grid@.cells[cell_index(gw, cx, cy)] == (
                if in_rect(cx, cy, x as int, y as int, w as int, r as int) {
                    data@[cell_index(w as int, cx - x, cy - y)]
                } else {
                    start[cell_index(gw, cx, cy)]
                }),
        decreases h - r,
    {
        let mut c: u32 = 0;
        while c < w
            invariant
                grid.wf(),
                grid@.width == gw,
                grid@.height == gh,
                data@.len() == w * h,
                forall|i: int| 0 <= i < data@.len() ==> #[trigger] data@[i] <= 1,
                rect_inside(gw, gh, x as int, y as int, w as int, h as int),
                r < h,
                c <= w,
                k == r * w + c,
                forall|cx: int, cy: int|
                    0 <= cx < gw && 0 <= cy < gh ==> #[trigger] grid@.cells[cell_index(gw, cx, cy)]
                        == (if in_rect(cx, cy, x as int, y as int, w as int, r as int) || (cy == y
                        + r && x <= cx < x + c) {
                        data@[cell_index(w as int, cx - x, cy - y)]
                    } else {
                        start[cell_index(gw, cx, cy)]
                    }),
            decreases w - c,
        {
            proof {
                lemma_cell_index_bounds(w as int, h as int, c as int, r as int);
            }
            let v = data[k];
            let ghost before = grid@.cells;
            grid.set_cell(x + c, y + r, v);
            assert forall|cx: int, cy: int| 0 <= cx < gw && 0 <= cy < gh implies #[trigger] grid@.cells[cell_index(gw, cx, cy)]
                == (if in_rect(cx, cy, x as int, y as int, w as int, r as int) || (cy == y + r && x
                <= cx < x + c + 1) {
                data@[cell_index(w as int, cx - x, cy - y)]
            } else {
                start[cell_index(gw, cx, cy)]
            }) by {
                lemma_cell_index_bounds(gw, gh, cx, cy);
                lemma_cell_index_bounds(gw, gh, (x + c) as int, (y + r) as int);
                if cx != x + c || cy != y + r {
                    lemma_cell_of_index(gw, cx, cy);
                    lemma_cell_of_index(gw, (x + c) as int, (y + r) as int);
                    assert(cell_index(gw, cx, cy) != cell_index(gw, (x + c) as int, (y + r) as int));
                    assert(grid@.cells[cell_index(gw, cx, cy)] == before[cell_index(gw, cx, cy)]);
                }
            }
            c = c + 1;
            k = k + 1;
        }
        assert(k == (r + 1) * w) by (nonlinear_arith)
            requires
                k == r * w + w,
        ;
        r = r + 1;
    }
    proof {
        let target = with_area(start, gw, x as int, y as int, w as int, h as int, data@);
        assert forall|i: int| 0 <= i < grid@.cells.len() implies #[trigger] grid@.cells[i]
            == target[i] by {
            lemma_index_to_cell(gw, gh, i);
        }
        assert(grid@.cells =~= target);
    }
}

/// The bytes of the `w` by `h` rectangle at `(x, y)`, row by row.
pub fn read_rect(grid: &CellGrid, x: u32, y: u32, w: u32, h: u32) -> (r: Vec<u8>)
    requires
        grid.wf(),
        rect_inside(grid@.width, grid@.height, x as int, y as int, w as int, h as int),
    ensures
        r@ == area_of(grid@.cells, grid@.width, x as int, y as int, w as int, h as int),
{
    let ghost gw = grid@.width;
    let ghost gh = grid@.height;
    let ghost cells = grid@.cells;
    proof {
        lemma_rect_size(gw, gh, w as int, h as int);
    }
    let mut out: Vec<u8> = Vec::new();
    let mut r: u32 = 0;
    while r < h
        invariant
            grid.wf(),
            grid@.width == gw,
            grid@.height == gh,
            grid@.cells == cells,
            rect_inside(gw, gh, x as int, y as int, w as int, h as int),
            (w as int) * (h as int) <= gw * gh,
            r <= h,
            out@.len() == r * w,
            forall|k: int| 0 <= k < out@.len() ==> #[trigger] out@[k] == cells[cell_index(gw, x + k % (w as int), y + k / (w as int))],
        decreases h - r,
    {
        let mut c: u32 = 0;
        while c < w
            invariant
                grid.wf(),
                grid@.width == gw,
                grid@.height == gh,
                grid@.cells == cells,
                rect_inside(gw, gh, x as int, y as int, w as int, h as int),
                (w as int) * (h as int) <= gw * gh,
                r < h,
                c <= w,
                out@.len() == r * w + c,
                forall|k: int| 0 <= k < out@.len() ==> #[trigger] out@[k] == cells[cell_index(gw, x + k % (w as int), y + k / (w as int))],
            decreases w - c,
        {
            proof {
                lemma_cell_index_bounds(w as int, h as int, c as int, r as int);
                lemma_cell_of_index(w as int, c as int, r as int);
            }
            let v = grid.cell(x + c, y + r);
            out.push(v);
            c = c + 1;
        }
        assert(out@.len() == (r + 1) * w) by (nonlinear_arith)
            requires
                out@.len() == r * w + w,
        ;
        r = r + 1;
    }
    proof {
        assert(out@.len() == (w as int) * (h as int)) by (nonlinear_arith)
            requires out@.len() == r * w, r == h;
        assert(out@ =~= area_of(cells, gw, x as int, y as int, w as int, h as int));
    }
    out
}

} // verus!
