use vstd::prelude::*;

verus! {

/// A one-shot countdown. Each tick takes one unit off the remaining delay; the tick
/// on which the delay is used up, and only that one, reports that the task fires.
/// A task cannot be cancelled: whatever it stands for decides, when it fires,
/// whether there is still anything to do.
#[derive(Debug, Clone, Copy)]
pub struct Task {
    remaining: usize,
    fired: bool,
}

impl Task {
    pub closed spec fn pending_ticks(&self) -> nat {
        self.remaining as nat
    }

    pub closed spec fn has_fired(&self) -> bool {
        self.fired
    }

    /// The remaining delay after one tick.
    pub open spec fn ticked_delay(&self) -> nat {
        if self.pending_ticks() > 0 {
            (self.pending_ticks() - 1) as nat
        } else {
            0
        }
    }

    /// Whether the next tick is the one on which the task fires.
    pub open spec fn fires_on_tick(&self) -> bool {
        !self.has_fired() && self.ticked_delay() == 0
    }

    pub fn new(delay: usize) -> (r: Task)
        ensures
            r.pending_ticks() == delay,
            !r.has_fired(),
    {
        Task { remaining: delay, fired: false }
    }

    /// The remaining delay.
    pub fn delay(&self) -> (r: usize)
        ensures
            r == self.pending_ticks(),
    {
        self.remaining
    }

    /// Whether the task has fired.
    pub fn done(&self) -> (r: bool)
        ensures
            r == self.has_fired(),
    {
        self.fired
    }

    /// Advances the countdown by one unit and tells whether the task fires now.
    pub fn tick(&mut self) -> (fires: bool)
        ensures
            fires == old(self).fires_on_tick(),
            final(self).pending_ticks() == old(self).ticked_delay(),
            final(self).has_fired() == (old(self).has_fired() || fires),
    {
        if self.remaining > 0 {
            self.remaining = self.remaining - 1;
        }
        let fires = !self.fired && self.remaining == 0;
        if fires {
            self.fired = true;
        }
        fires
    }
}

} // verus!
