//! Turning a pointer press on the drawn grid into a single-cell edit.

use vstd::prelude::*;
use crate::patterns::Pattern;
use crate::simulation::{GameOfLife, GolError, LifeModel, area_written};

verus! {

/// The fixed-point value of 1.0 in a UV coordinate, which carries 32 fractional bits.
pub const UV_ONE: i64 = 4294967296;

/// A position in the unit square onto which the grid is drawn, in fixed point
/// (`UV_ONE` is 1.0). `(0, 0)` is the top-left corner of the grid.
#[derive(Clone, Copy, Debug, PartialEq, Eq, Structural)]
pub struct Uv {
    pub u: i64,
    pub v: i64,
}

/// A pointer button.
#[derive(Clone, Copy, Debug, PartialEq, Eq, Structural)]
pub enum PointerButton {
    /// Makes the cell alive.
    Left,
    /// Makes the cell dead.
    Right,
    Other,
}

/// Both components lie in `[0, 1]`.
pub open spec fn uv_in_range(uv: Uv) -> bool {
    0 <= uv.u <= UV_ONE && 0 <= uv.v <= UV_ONE
}

/// Scales a UV component to a coordinate on an axis of `n` cells: rounded down, with 1.0
/// itself landing on the last cell.
pub open spec fn uv_coordinate(c: int, n: int) -> int {
    let scaled = c * n / (UV_ONE as int);
    if scaled < n {
        scaled
    } else {
        n - 1
    }
}

/// The cell under `uv` on a non-empty `width` by `height` grid, if the UV is in range.
pub open spec fn uv_cell(uv: Uv, width: int, height: int) -> Option<(int, int)> {
    if !uv_in_range(uv) || width == 0 || height == 0 {
        None
    } else {
        Some((uv_coordinate(uv.u as int, width), uv_coordinate(uv.v as int, height)))
    }
}

/// The cell under `uv` on a `width` by `height` grid, if any.
pub fn uv_to_cell(uv: Uv, width: u32, height: u32) -> (r: Option<(u32, u32)>)
    ensures
        r is Some <==> uv_cell(uv, width as int, height as int) is Some,
        r matches Some(c) ==> uv_cell(uv, width as int, height as int) == Some(
            (c.0 as int, c.1 as int),
        ),
{
    if uv.u < 0 || uv.u > UV_ONE || uv.v < 0 || uv.v > UV_ONE || width == 0 || height == 0 {
        return None;
    }
    let one = UV_ONE as u64;
    assert((uv.u as int) * (width as int) <= u64::MAX) by (nonlinear_arith)
        requires
            0 <= uv.u <= UV_ONE,
            width <= u32::MAX,
    ;
    assert((uv.v as int) * (height as int) <= u64::MAX) by (nonlinear_arith)
        requires
            0 <= uv.v <= UV_ONE,
            height <= u32::MAX,
    ;
    let scaled_x = (uv.u as u64) * (width as u64) / one;
    let scaled_y = (uv.v as u64) * (height as u64) / one;
    let cx = if scaled_x < width as u64 {
        scaled_x as u32
    } else {
        width - 1
    };
    let cy = if scaled_y < height as u64 {
        scaled_y as u32
    } else {
        height - 1
    };
    Some((cx, cy))
}

/// The simulation after a press of `button` at `uv`.
pub open spec fn painted(m: LifeModel, uv: Uv, button: PointerButton) -> LifeModel {
    match uv_cell(uv, m.width(), m.height()) {
        Some(c) => match button {
            PointerButton::Left => area_written(m, c.0, c.1, 1, 1, seq![1u8]),
            PointerButton::Right => area_written(m, c.0, c.1, 1, 1, seq![0u8]),
            PointerButton::Other => m,
        },
        None => m,
    }
}

impl GameOfLife {
    /// A press of `button` at `uv` on the drawn grid: the left button makes the cell under
    /// it alive, the right one dead. A UV outside the unit square changes nothing. Returns
    /// whether the press was taken: every press outside the grid is, a press of another
    /// button inside it is not.
    pub fn paint(&mut self, uv: Uv, button: PointerButton) -> (taken: bool)
        requires
            old(self).wf(),
        ensures
            final(self).wf(),
            final(self)@ == painted(old(self)@, uv, button),
            !uv_in_range(uv) ==> final(self)@ == old(self)@,
            taken <==> (!uv_in_range(uv) || button != PointerButton::Other),
    {
        let (w, h) = self.get_size();
        let cell = uv_to_cell(uv, w, h);
        match cell {
            None => true,
            Some((cx, cy)) => {
                let value: u8 = match button {
                    PointerButton::Left => 1,
                    PointerButton::Right => 0,
                    PointerButton::Other => {
                        return false;
                    },
                };
                let data: Vec<u8> = vec![value];
                let written = self.write_area(data.as_slice(), cx, cy, 1, 1);
                assert(data@ =~= seq![value]);
                assert(written is Ok);
                true
            },
        }
    }

    /// Writes `pattern` into the current grid with its top-left cell at `(x, y)`; refused,
    /// with nothing changed, when it does not fit there (`OutOfBounds`).
    pub fn place_pattern(&mut self, pattern: &Pattern, x: u32, y: u32) -> (r: Result<(), GolError>)
        requires
            old(self).wf(),
            pattern.wf(),
        ensures
            final(self).wf(),
            r is Ok <==> crate::area::rect_inside(
                old(self)@.width(),
                old(self)@.height(),
                x as int,
                y as int,
                pattern.width as int,
                pattern.height as int,
            ),
            r is Err ==> r == Err::<(), GolError>(GolError::OutOfBounds) && final(self)@
                == old(self)@,
            r is Ok ==> final(self)@ == area_written(
                old(self)@,
                x as int,
                y as int,
                pattern.width as int,
                pattern.height as int,
                pattern.data@,
            ),
    {
        self.write_area(pattern.data.as_slice(), x, y, pattern.width, pattern.height)
    }
}

} // verus!
