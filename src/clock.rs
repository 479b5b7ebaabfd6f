use vstd::prelude::*;

verus! {

/// The least step that animation time takes on a tick, in microseconds. A stalled or
/// rewound wall clock still moves the animation on by this much.
pub const MIN_STEP_US: u64 = 1000;

/// How far a tick of `dt` microseconds moves animation time.
pub open spec fn clamped_step(dt: int) -> int {
    if dt > MIN_STEP_US {
        dt
    } else {
        MIN_STEP_US as int
    }
}

/// Animation time after a step, held at the largest `u64` rather than wrapping.
pub open spec fn advanced(elapsed: u64, step: int) -> u64 {
    if elapsed + step <= u64::MAX {
        (elapsed + step) as u64
    } else {
        u64::MAX
    }
}

/// Animation time and the wall-clock reading of the last frame, in microseconds.
pub struct AnimationClock {
    last_frame_us: u64,
    elapsed_us: u64,
}

impl AnimationClock {
    pub closed spec fn spec_last_frame(&self) -> u64 {
        self.last_frame_us
    }

    pub closed spec fn spec_elapsed(&self) -> u64 {
        self.elapsed_us
    }

    /// A clock at animation time zero whose last frame was at `now_us`.
    pub fn new(now_us: u64) -> (r: AnimationClock)
        ensures
            r.spec_last_frame() == now_us,
            r.spec_elapsed() == 0,
    {
        AnimationClock { last_frame_us: now_us, elapsed_us: 0 }
    }

    pub fn elapsed_us(&self) -> (r: u64)
        ensures
            r == self.spec_elapsed(),
    {
        self.elapsed_us
    }

    pub fn last_frame_us(&self) -> (r: u64)
        ensures
            r == self.spec_last_frame(),
    {
        self.last_frame_us
    }

    fn advance(&mut self, step: u64)
        ensures
            final(self).spec_elapsed() == advanced(old(self).spec_elapsed(), step as int),
            final(self).spec_last_frame() == old(self).spec_last_frame(),
    {
        self.elapsed_us = self.elapsed_us.saturating_add(step);
    }

    /// Moves animation time on by `dt_us`, or by `MIN_STEP_US` where `dt_us` is smaller;
    /// returns the step taken.
    pub fn tick(&mut self, dt_us: i64) -> (step: u64)
        ensures
            step == clamped_step(dt_us as int),
            final(self).spec_elapsed() == advanced(old(self).spec_elapsed(), step as int),
            final(self).spec_last_frame() == old(self).spec_last_frame(),
    {
        let step: u64 = if dt_us > MIN_STEP_US as i64 {
            dt_us as u64
        } else {
            MIN_STEP_US
        };
        self.advance(step);
        step
    }

    /// Ticks by the wall-clock time since the last frame, which may be negative where the
    /// clock went back, and makes `now_us` the last frame; returns the step taken.
    pub fn update(&mut self, now_us: u64) -> (step: u64)
        ensures
            step == clamped_step(now_us - old(self).spec_last_frame()),
            final(self).spec_elapsed() == advanced(old(self).spec_elapsed(), step as int),
            final(self).spec_last_frame() == now_us,
    {
        let step: u64 = if now_us > self.last_frame_us && now_us - self.last_frame_us > MIN_STEP_US {
            now_us - self.last_frame_us
        } else {
            MIN_STEP_US
        };
        self.advance(step);
        self.last_frame_us = now_us;
        step
    }
}

/// A tick by no time or by negative time moves animation time on by exactly
/// `MIN_STEP_US`, and no tick leaves it where it was.
pub proof fn lemma_tick_clamps(elapsed: u64, dt: int)
    requires
        elapsed + MIN_STEP_US <= u64::MAX,
    ensures
        dt <= 0 ==> clamped_step(dt) == MIN_STEP_US,
        dt <= 0 ==> advanced(elapsed, clamped_step(dt)) == elapsed + MIN_STEP_US,
        clamped_step(dt) >= MIN_STEP_US,
        advanced(elapsed, clamped_step(dt)) > elapsed,
{
}

} // verus!
