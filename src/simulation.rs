//! The double-buffered simulation: two grids, the index of the current one, and the
//! clock that throttles steps.

use vstd::prelude::*;
use crate::area::{area_of, lemma_area_round_trip, read_rect, rect_inside, with_area, write_rect};
use crate::grid::{CellGrid, GridModel};
use crate::grid::cell_index;
use crate::kernel::{
    StepStrategy, far_from_corner, lemma_blinker_flips, lemma_block_still, lemma_corner_reach,
    life_step, rect_cells,
};

verus! {

/// Why an operation of the simulation was refused.
#[derive(Clone, Copy, Debug, PartialEq, Eq, Structural)]
pub enum GolError {
    /// A side is zero, not a multiple of the strategy's tile size, or the grid does not fit
    /// in memory.
    InvalidDimensions,
    /// The payload does not hold exactly one byte, 0 or 1, per cell of the rectangle.
    SizeMismatch,
    /// The width of a read is not a multiple of the copy row alignment.
    AlignmentError,
    /// The rectangle does not lie inside the grid.
    OutOfBounds,
}

/// Reads copy whole rows whose byte length must be a multiple of this.
pub const COPY_ROW_ALIGNMENT: u32 = 256;

/// The sides a simulation can be made with under `strategy`.
pub open spec fn dimensions_valid(strategy: StepStrategy, width: int, height: int) -> bool {
    &&& width > 0
    &&& height > 0
    &&& width % strategy.spec_tile_size() == 0
    &&& height % strategy.spec_tile_size() == 0
    &&& width * height <= usize::MAX
}

/// A payload for a `w` by `h` rectangle: one byte per cell, each 0 or 1.
pub open spec fn payload_valid(data: Seq<u8>, w: int, h: int) -> bool {
    &&& data.len() == w * h
    &&& forall|i: int| 0 <= i < data.len() ==> #[trigger] data[i] <= 1
}

/// What a simulation holds, seen mathematically.
pub struct LifeModel {
    /// The two slots.
    pub grids: Seq<GridModel>,
    /// Which slot is current: readable, and the one that edits go to.
    pub current: int,
    pub strategy: StepStrategy,
    /// When the last step ran.
    pub last_step_time: int,
    /// The least time between two steps.
    pub step_interval: int,
}

impl LifeModel {
    pub open spec fn current_grid(self) -> GridModel {
        self.grids[self.current]
    }

    /// The slot that the next step writes.
    pub open spec fn next_index(self) -> int {
        1 - self.current
    }

    pub open spec fn width(self) -> int {
        self.grids[0].width
    }

    pub open spec fn height(self) -> int {
        self.grids[0].height
    }

    pub open spec fn wf(self) -> bool {
        &&& self.grids.len() == 2
        &&& (self.current == 0 || self.current == 1)
        &&& self.grids[1].width == self.width()
        &&& self.grids[1].height == self.height()
        &&& dimensions_valid(self.strategy, self.width(), self.height())
        &&& self.width() <= u32::MAX
        &&& self.height() <= u32::MAX
        &&& forall|i: int|
            0 <= i < 2 ==> crate::grid::grid_wf(
                #[trigger] self.grids[i].cells,
                self.width(),
                self.height(),
            )
    }
}

/// The simulation after one step: the next slot holds the generation after the current
/// grid and becomes current; the grid that was current stays as it was.
pub open spec fn stepped(m: LifeModel) -> LifeModel {
    LifeModel {
        grids: m.grids.update(
            m.next_index(),
            GridModel {
                width: m.width(),
                height: m.height(),
                cells: life_step(m.current_grid().cells, m.width(), m.height()),
            },
        ),
        current: m.next_index(),
        strategy: m.strategy,
        last_step_time: m.last_step_time,
        step_interval: m.step_interval,
    }
}

/// At time `now` at least the step interval has passed since the last step.
pub open spec fn step_due(m: LifeModel, now: int) -> bool {
    now >= m.last_step_time + m.step_interval
}

/// The simulation after the coordinator is called at time `now`: one step, stamped `now`,
/// if one is due, else no change.
pub open spec fn after_maybe_step(m: LifeModel, now: int) -> LifeModel {
    if step_due(m, now) {
        LifeModel { last_step_time: now, ..stepped(m) }
    } else {
        m
    }
}

/// The simulation after the rectangle at `(x, y)` of the current grid is overwritten with `data`.
pub open spec fn area_written(
    m: LifeModel,
    x: int,
    y: int,
    w: int,
    h: int,
    data: Seq<u8>,
) -> LifeModel {
    LifeModel {
        grids: m.grids.update(
            m.current,
            GridModel {
                cells: with_area(m.current_grid().cells, m.width(), x, y, w, h, data),
                ..m.current_grid()
            },
        ),
        ..m
    }
}

/// The number of steps that calls of the coordinator at the times `nows`, in order, run.
pub open spec fn steps_run(m: LifeModel, nows: Seq<int>) -> nat
    decreases nows.len(),
{
    if nows.len() == 0 {
        0
    } else {
        (if step_due(m, nows[0]) {
            1nat
        } else {
            0nat
        }) + steps_run(after_maybe_step(m, nows[0]), nows.drop_first())
    }
}

/// Calls made while no step is due leave the simulation alone.
proof fn lemma_none_due(m: LifeModel, nows: Seq<int>)
    requires
        forall|i: int| 0 <= i < nows.len() ==> #[trigger] nows[i] < m.last_step_time + m.step_interval,
    ensures
        steps_run(m, nows) == 0,
    decreases nows.len(),
{
    if nows.len() > 0 {
        assert(nows[0] < m.last_step_time + m.step_interval);
        assert forall|i: int| 0 <= i < nows.drop_first().len() implies #[trigger] nows.drop_first()[i]
            < m.last_step_time + m.step_interval by {
            assert(nows.drop_first()[i] == nows[i + 1]);
        }
        lemma_none_due(m, nows.drop_first());
    }
}

/// Calls made at times within a span `[lo, lo + step_interval)` run at most one step.
proof fn lemma_at_most_one(m: LifeModel, nows: Seq<int>, lo: int)
    requires
        forall|i: int| 0 <= i < nows.len() ==> lo <= #[trigger] nows[i] < lo + m.step_interval,
    ensures
        steps_run(m, nows) <= 1,
        nows.len() > 0 && step_due(m, nows[0]) ==> steps_run(m, nows) == 1,
    decreases nows.len(),
{
    if nows.len() > 0 {
        let rest = nows.drop_first();
        assert(lo <= nows[0] < lo + m.step_interval);
        if step_due(m, nows[0]) {
            let m1 = after_maybe_step(m, nows[0]);
            assert forall|i: int| 0 <= i < rest.len() implies #[trigger] rest[i]
                < m1.last_step_time + m1.step_interval by {
                assert(rest[i] == nows[i + 1]);
            }
            lemma_none_due(m1, rest);
        } else {
            assert forall|i: int| 0 <= i < rest.len() implies lo <= #[trigger] rest[i] < lo
                + m.step_interval by {
                assert(rest[i] == nows[i + 1]);
            }
            lemma_at_most_one(m, rest, lo);
        }
    }
}

/// Throttling: however many times the coordinator is called within a span shorter than
/// the step interval, it runs at most one step, and exactly one when a step is due at the
/// first call.
pub proof fn lemma_throttled(m: LifeModel, nows: Seq<int>)
    requires
        nows.len() > 0,
        forall|i: int|
            0 <= i < nows.len() ==> nows[0] <= #[trigger] nows[i] < nows[0] + m.step_interval,
    ensures
        steps_run(m, nows) <= 1,
        step_due(m, nows[0]) ==> steps_run(m, nows) == 1,
{
    lemma_at_most_one(m, nows, nows[0]);
}

/// Reading back a rectangle of the current grid right after writing it gives the bytes written.
pub proof fn lemma_write_read_round_trip(
    m: LifeModel,
    x: int,
    y: int,
    w: int,
    h: int,
    data: Seq<u8>,
)
    requires
        m.wf(),
        0 <= x,
        0 <= y,
        0 <= w,
        0 <= h,
        rect_inside(m.width(), m.height(), x, y, w, h),
        payload_valid(data, w, h),
    ensures
        area_of(area_written(m, x, y, w, h, data).current_grid().cells, m.width(), x, y, w, h)
            == data,
{
    lemma_area_round_trip(m.current_grid().cells, m.width(), m.height(), x, y, w, h, data);
}

/// A 2 by 2 block, alone on a grid of at least 4 by 4 cells and not crossing its edges, is
/// a still life: one step leaves the current grid as it was.
pub proof fn lemma_block_is_still_life(m: LifeModel, x0: int, y0: int)
    requires
        m.wf(),
        m.width() >= 4,
        m.height() >= 4,
        0 <= x0,
        x0 + 2 <= m.width(),
        0 <= y0,
        y0 + 2 <= m.height(),
        m.current_grid().cells == rect_cells(m.width(), m.height(), x0, y0, 2, 2),
    ensures
        stepped(m).current_grid().cells == m.current_grid().cells,
{
    lemma_block_still(m.width(), m.height(), x0, y0);
}

/// A blinker alone on a grid of at least 4 by 4 cells, its 3 by 3 box at `(x0, y0)` inside
/// the grid, has period 2: the vertical bar through the box's centre becomes the horizontal
/// one after one step and is back, in the same slot, after two.
pub proof fn lemma_blinker_period_two(m: LifeModel, x0: int, y0: int)
    requires
        m.wf(),
        m.width() >= 4,
        m.height() >= 4,
        0 <= x0,
        x0 + 3 <= m.width(),
        0 <= y0,
        y0 + 3 <= m.height(),
        m.current_grid().cells == rect_cells(m.width(), m.height(), x0 + 1, y0, 1, 3),
    ensures
        stepped(m).current_grid().cells == rect_cells(m.width(), m.height(), x0, y0 + 1, 3, 1),
        stepped(stepped(m)).current_grid().cells == m.current_grid().cells,
        stepped(stepped(m)).current == m.current,
{
    lemma_blinker_flips(m.width(), m.height(), x0, y0);
}

/// Two simulations whose current grids differ only at cell `(0, 0)` agree, after one step,
/// on every cell but `(0, 0)` and its eight neighbours across the edges.
pub proof fn lemma_corner_influence(m1: LifeModel, m2: LifeModel, x: int, y: int)
    requires
        m1.wf(),
        m2.wf(),
        m1.width() == m2.width(),
        m1.height() == m2.height(),
        m1.width() >= 3,
        m1.height() >= 3,
        forall|i: int|
            0 < i < m1.width() * m1.height() ==> #[trigger] m1.current_grid().cells[i]
                == m2.current_grid().cells[i],
        0 <= x < m1.width(),
        0 <= y < m1.height(),
        far_from_corner(m1.width(), m1.height(), x, y),
    ensures
        stepped(m1).current_grid().cells[cell_index(m1.width(), x, y)]
            == stepped(m2).current_grid().cells[cell_index(m1.width(), x, y)],
{
    let w = m1.width();
    let h = m1.height();
    assert(crate::grid::grid_wf(m1.grids[m1.current].cells, w, h));
    assert(crate::grid::grid_wf(m2.grids[m2.current].cells, w, h));
    lemma_corner_reach(m1.current_grid().cells, m2.current_grid().cells, w, h, x, y);
    crate::grid::lemma_cell_index_bounds(w, h, x, y);
    crate::grid::lemma_cell_of_index(w, x, y);
}

/// A Game of Life whose state lives in two equally sized grids: the current one, which is
/// read, drawn and edited, and the other, which the next step writes before the two swap.
pub struct GameOfLife {
    grids: Vec<CellGrid>,
    current: usize,
    strategy: StepStrategy,
    last_step_time: u64,
    step_interval: u64,
}

impl View for GameOfLife {
    type V = LifeModel;

    closed spec fn view(&self) -> LifeModel {
        LifeModel {
            grids: self.grids@.map_values(|g: CellGrid| g@),
            current: self.current as int,
            strategy: self.strategy,
            last_step_time: self.last_step_time as int,
            step_interval: self.step_interval as int,
        }
    }
}

impl GameOfLife {
    pub open spec fn wf(&self) -> bool {
        self@.wf()
    }

    /// Within this module: each slot is a well-formed grid of the simulation's size.
    proof fn lemma_slots(&self)
        requires
            self.wf(),
        ensures
            self.grids@.len() == 2,
            self.grids@[0].wf(),
            self.grids@[1].wf(),
            self.grids@[0]@ == self@.grids[0],
            self.grids@[1]@ == self@.grids[1],
    {
        assert(crate::grid::grid_wf(self@.grids[0].cells, self@.width(), self@.height()));
        assert(crate::grid::grid_wf(self@.grids[1].cells, self@.width(), self@.height()));
    }

    /// A `width` by `height` simulation with every cell dead, slot 0 current, stepping with
    /// `strategy` at most once per `step_interval`, its clock starting at `now`.
    pub fn new(width: u32, height: u32, strategy: StepStrategy, step_interval: u64, now: u64) -> (r:
        Result<GameOfLife, GolError>)
        ensures
            r.is_ok() <==> dimensions_valid(strategy, width as int, height as int),
            r is Err ==> r == Err::<GameOfLife, GolError>(GolError::InvalidDimensions),
            r matches Ok(g) ==> {
                &&& g.wf()
                &&& g@.width() == width
                &&& g@.height() == height
                &&& g@.current == 0
                &&& g@.strategy == strategy
                &&& g@.last_step_time == now
                &&& g@.step_interval == step_interval
                &&& forall|s: int, i: int|
                    0 <= s < 2 && 0 <= i < width * height ==> #[trigger] g@.grids[s].cells[i] == 0
            },
    {
        let tile = strategy.tile_size();
        if width == 0 || height == 0 || width % tile != 0 || height % tile != 0 {
            return Err(GolError::InvalidDimensions);
        }
        assert((width as int) * (height as int) <= u64::MAX) by (nonlinear_arith)
            requires
                width <= u32::MAX,
                height <= u32::MAX,
        ;
        if (width as u64) * (height as u64) > usize::MAX as u64 {
            return Err(GolError::InvalidDimensions);
        }
        let a = CellGrid::new_dead(width, height);
        let b = CellGrid::new_dead(width, height);
        let mut grids: Vec<CellGrid> = Vec::new();
        grids.push(a);
        grids.push(b);
        let g = GameOfLife { grids, current: 0, strategy, last_step_time: now, step_interval };
        assert(g@.grids[0] == a@);
        assert(g@.grids[1] == b@);
        Ok(g)
    }

    /// The number of cells across and down.
    pub fn get_size(&self) -> (r: (u32, u32))
        requires
            self.wf(),
        ensures
            r.0 == self@.width(),
            r.1 == self@.height(),
    {
        proof {
            self.lemma_slots();
        }
        (self.grids[0].width(), self.grids[0].height())
    }

    /// The current grid, for drawing. It changes with every step, so ask again after one.
    pub fn get_current_view(&self) -> (r: &CellGrid)
        requires
            self.wf(),
        ensures
            r.wf(),
            r@ == self@.current_grid(),
    {
        proof {
            self.lemma_slots();
        }
        &self.grids[self.current]
    }

    /// Runs one step now: the next slot receives the generation after the current grid and
    /// becomes current. The clock is not touched.
    pub fn update(&mut self)
        requires
            old(self).wf(),
        ensures
            final(self).wf(),
            final(self)@ == stepped(old(self)@),
    {
        proof {
            self.lemma_slots();
        }
        let ghost before = self@;
        let cur = self.current;
        let next = 1 - cur;
        let mut target = CellGrid::vacant();
        self.grids.set_and_swap(next, &mut target);
        self.strategy.step(&self.grids[cur], &mut target);
        self.grids.set_and_swap(next, &mut target);
        self.current = next;
        proof {
            assert(self@.grids =~= stepped(before).grids);
            assert forall|i: int| 0 <= i < 2 implies crate::grid::grid_wf(
                #[trigger] self@.grids[i].cells,
                self@.width(),
                self@.height(),
            ) by {
                assert(self@.grids[i] == self.grids@[i]@);
            }
        }
    }

    /// The coordinator, called once per frame: if at least the step interval has passed
    /// between the last step and `now`, runs one step and stamps it `now`; otherwise does
    /// nothing. Never runs more than one step. Returns the grid that is current afterwards.
    pub fn maybe_step(&mut self, now: u64) -> (r: &CellGrid)
        requires
            old(self).wf(),
        ensures
            final(self).wf(),
            final(self)@ == after_maybe_step(old(self)@, now as int),
            r@ == final(self)@.current_grid(),
    {
        if (now as u128) >= (self.last_step_time as u128) + (self.step_interval as u128) {
            self.update();
            self.last_step_time = now;
        }
        self.get_current_view()
    }

    /// Overwrites the `width` by `height` rectangle at `(x, y)` of the current grid with
    /// `data`, which holds it row by row, one byte 0 or 1 per cell. The other grid is not
    /// touched. Refused, with nothing changed, when the payload does not fit the rectangle
    /// (`SizeMismatch`, checked first) or the rectangle leaves the grid (`OutOfBounds`).
    pub fn write_area(&mut self, data: &[u8], x: u32, y: u32, width: u32, height: u32) -> (r:
        Result<(), GolError>)
        requires
            old(self).wf(),
        ensures
            final(self).wf(),
            !payload_valid(data@, width as int, height as int) ==> r == Err::<(), GolError>(
                GolError::SizeMismatch,
            ),
            payload_valid(data@, width as int, height as int) && !rect_inside(
                old(self)@.width(),
                old(self)@.height(),
                x as int,
                y as int,
                width as int,
                height as int,
            ) ==> r == Err::<(), GolError>(GolError::OutOfBounds),
            r is Ok <==> payload_valid(data@, width as int, height as int) && rect_inside(
                old(self)@.width(),
                old(self)@.height(),
                x as int,
                y as int,
                width as int,
                height as int,
            ),
            r is Ok ==> final(self)@ == area_written(
                old(self)@,
                x as int,
                y as int,
                width as int,
                height as int,
                data@,
            ),
            r is Err ==> final(self)@ == old(self)@,
    {
        proof {
            self.lemma_slots();
        }
        let ghost start = self@;
        assert((width as int) * (height as int) <= u64::MAX) by (nonlinear_arith)
            requires
                width <= u32::MAX,
                height <= u32::MAX,
        ;
        if (data.len() as u64) != (width as u64) * (height as u64) {
            return Err(GolError::SizeMismatch);
        }
        let mut i: usize = 0;
        while i < data.len()
            invariant
                i <= data@.len(),
                forall|k: int| 0 <= k < i ==> #[trigger] data@[k] <= 1,
                self@ == start,
                self.wf(),
            decreases data@.len() - i,
        {
            if data[i] > 1 {
                return Err(GolError::SizeMismatch);
            }
            i = i + 1;
        }
        let (gw, gh) = self.get_size();
        if (x as u64) + (width as u64) > (gw as u64) || (y as u64) + (height as u64) > (gh as u64) {
            return Err(GolError::OutOfBounds);
        }
        let ghost before = self@;
        let cur = self.current;
        let mut target = CellGrid::vacant();
        self.grids.set_and_swap(cur, &mut target);
        write_rect(&mut target, data, x, y, width, height);
        self.grids.set_and_swap(cur, &mut target);
        proof {
            assert(self@.grids =~= area_written(
                before,
                x as int,
                y as int,
                width as int,
                height as int,
                data@,
            ).grids);
            assert forall|i: int| 0 <= i < 2 implies crate::grid::grid_wf(
                #[trigger] self@.grids[i].cells,
                self@.width(),
                self@.height(),
            ) by {
                assert(self@.grids[i] == self.grids@[i]@);
            }
        }
        Ok(())
    }

    /// The bytes of the `width` by `height` rectangle at `(x, y)` of the current grid, row by
    /// row. Refused when `width` is not a multiple of the copy row alignment
    /// (`AlignmentError`, checked first) or the rectangle leaves the grid (`OutOfBounds`).
    pub fn read_area(&self, x: u32, y: u32, width: u32, height: u32) -> (r: Result<
        Vec<u8>,
        GolError,
    >)
        requires
            self.wf(),
        ensures
            width % COPY_ROW_ALIGNMENT != 0 ==> r == Err::<Vec<u8>, GolError>(
                GolError::AlignmentError,
            ),
            width % COPY_ROW_ALIGNMENT == 0 && !rect_inside(
                self@.width(),
                self@.height(),
                x as int,
                y as int,
                width as int,
                height as int,
            ) ==> r == Err::<Vec<u8>, GolError>(GolError::OutOfBounds),
            r is Ok <==> width % COPY_ROW_ALIGNMENT == 0 && rect_inside(
                self@.width(),
                self@.height(),
                x as int,
                y as int,
                width as int,
                height as int,
            ),
            r matches Ok(v) ==> v@ == area_of(
                self@.current_grid().cells,
                self@.width(),
                x as int,
                y as int,
                width as int,
                height as int,
            ),
    {
        if width % COPY_ROW_ALIGNMENT != 0 {
            return Err(GolError::AlignmentError);
        }
        let (gw, gh) = self.get_size();
        if (x as u64) + (width as u64) > (gw as u64) || (y as u64) + (height as u64) > (gh as u64) {
            return Err(GolError::OutOfBounds);
        }
        let grid = self.get_current_view();
        Ok(read_rect(grid, x, y, width, height))
    }
}

} // verus!
