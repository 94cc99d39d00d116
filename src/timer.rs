use vstd::prelude::*;

verus! {

/// A one-shot countdown, measured in microseconds.
///
/// `elapsed` grows with each tick until it reaches `duration`, where it stays.
#[derive(Clone, Copy, Debug, PartialEq, Eq, Structural)]
pub struct Timer {
    pub duration: u64,
    pub elapsed: u64,
}

impl Timer {
    /// A timer is well formed when it has not run past its duration.
    pub open spec fn wf(self) -> bool {
        self.elapsed <= self.duration
    }

    pub open spec fn is_finished(self) -> bool {
        self.elapsed >= self.duration
    }

    /// The elapsed time after advancing by `delta`: it never passes the duration.
    pub open spec fn ticked(self, delta: nat) -> Timer {
        Timer {
            duration: self.duration,
            elapsed: if self.elapsed + delta >= self.duration {
                self.duration
            } else {
                (self.elapsed + delta) as u64
            },
        }
    }

    pub fn from_micros(duration: u64) -> (t: Timer)
        ensures
            t.duration == duration,
            t.elapsed == 0,
            t.wf(),
    {
        Timer { duration, elapsed: 0 }
    }

    /// Advances the timer by `delta` microseconds. Returns whether it finished
    /// during this tick (it was running before and is done now).
    pub fn tick(&mut self, delta: u64) -> (just_finished: bool)
        requires
            old(self).wf(),
        ensures
            *final(self) == old(self).ticked(delta as nat),
            final(self).wf(),
            just_finished == (!old(self).is_finished() && final(self).is_finished()),
    {
        let was_finished = self.elapsed >= self.duration;
        if delta >= self.duration - self.elapsed {
            self.elapsed = self.duration;
        } else {
            self.elapsed = self.elapsed + delta;
        }
        !was_finished && self.elapsed >= self.duration
    }

    pub fn finished(&self) -> (r: bool)
        ensures
            r == self.is_finished(),
    {
        self.elapsed >= self.duration
    }
}

} // verus!
