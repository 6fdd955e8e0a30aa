//! A double-buffered Game of Life simulation core with exact contracts:
//! cell grids, the toroidal Life rule, the buffer swap coordinator, the area
//! accessor used for painting and seeding, and the small controls around them.
//!
//! Two stepping policies are offered. `GameOfLife::maybe_step` runs at most one step per
//! call, once the step interval has passed, and never catches up on missed intervals.
//! `StepScheduler` carries unspent time from frame to frame and owes one step per whole
//! interval, so the rate holds whatever the frame rate, but it drops the carried time when
//! a frame comes too late.

pub mod grid;
pub mod kernel;
pub mod area;
pub mod simulation;
pub mod patterns;
pub mod painting;
pub mod controls;
pub mod schedule;
