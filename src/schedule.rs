//! Frame-rate-independent stepping: how many steps a frame owes, from the time since the
//! previous frame.

use vstd::prelude::*;
use crate::controls::GoLConfig;

verus! {

/// A frame that comes this late or later, in microseconds, runs no steps and starts the
/// count afresh, so that a simulation that cannot keep up does not fall ever further behind.
pub const MAX_UPDATE_GAP_US: u64 = 50000;

/// The step interval of a speed, in microseconds.
pub open spec fn interval_us(config: GoLConfig) -> int {
    config.speed.interval_ms() * 1000
}

/// Carries over, from frame to frame, the time not yet spent on steps.
pub struct StepScheduler {
    time_accumulator: u64,
}

impl StepScheduler {
    /// The time carried over, in microseconds.
    pub closed spec fn carried(&self) -> int {
        self.time_accumulator as int
    }

    /// Less than the longest interval is ever carried over.
    pub open spec fn wf(&self) -> bool {
        self.carried() < 1000000
    }

    pub fn new() -> (s: StepScheduler)
        ensures
            s.wf(),
            s.carried() == 0,
    {
        StepScheduler { time_accumulator: 0 }
    }

    /// Called once per frame with the microseconds since the previous call: returns how many
    /// steps to run now. While running and on time, the elapsed time is added to what was
    /// carried over, one step is owed per whole interval of the chosen speed, and the rest is
    /// carried over. When paused, or when the frame is `MAX_UPDATE_GAP_US` or more late, no
    /// step is owed and nothing is carried over.
    pub fn update(&mut self, config: &GoLConfig, elapsed: u64) -> (steps: u64)
        requires
            old(self).wf(),
        ensures
            final(self).wf(),
            !config.is_paused && elapsed < MAX_UPDATE_GAP_US ==> {
                &&& steps == (old(self).carried() + elapsed) / interval_us(*config)
                &&& final(self).carried() == (old(self).carried() + elapsed) % interval_us(*config)
            },
            config.is_paused || elapsed >= MAX_UPDATE_GAP_US ==> steps == 0
                && final(self).carried() == 0,
    {
        if !config.is_paused && elapsed < MAX_UPDATE_GAP_US {
            let interval = config.speed.get_interval() * 1000;
            let total = self.time_accumulator + elapsed;
            self.time_accumulator = total % interval;
            total / interval
        } else {
            self.time_accumulator = 0;
            0
        }
    }
}

/// Counts frames into windows of a fixed size, for sampling a frame rate.
pub struct FrameWindow {
    sample_size: u32,
    current_sample: u32,
}

impl FrameWindow {
    pub closed spec fn size(&self) -> int {
        self.sample_size as int
    }

    /// Frames counted in the open window.
    pub closed spec fn counted(&self) -> int {
        self.current_sample as int
    }

    pub open spec fn wf(&self) -> bool {
        self.counted() <= self.size()
    }

    /// Windows of `sample_size` frames.
    pub fn new(sample_size: u32) -> (w: FrameWindow)
        ensures
            w.wf(),
            w.size() == sample_size,
            w.counted() == 0,
    {
        FrameWindow { sample_size, current_sample: 0 }
    }

    /// Called at the start of each frame; returns whether a window has just closed, which
    /// happens every `sample_size + 1` calls, and then starts the next one.
    pub fn start_frame(&mut self) -> (closed: bool)
        requires
            old(self).wf(),
        ensures
            final(self).wf(),
            final(self).size() == old(self).size(),
            closed <==> old(self).counted() >= old(self).size(),
            closed ==> final(self).counted() == 0,
            !closed ==> final(self).counted() == old(self).counted() + 1,
    {
        if self.current_sample >= self.sample_size {
            self.current_sample = 0;
            true
        } else {
            self.current_sample = self.current_sample + 1;
            false
        }
    }

    /// The number of frames per window.
    pub fn sample_size(&self) -> (r: u32)
        ensures
            r == self.size(),
    {
        self.sample_size
    }
}

} // verus!
