//! A one-shot countdown, advanced by the elapsed time of each frame.

use vstd::prelude::*;

verus! {

/// A countdown in nanoseconds that fires once, on the tick that uses up what
/// remains, and stays silent afterwards.
#[derive(Clone, Copy, Debug, PartialEq, Eq, Structural)]
pub struct Countdown {
    pub remaining: u64,
    pub finished: bool,
}

impl Countdown {
    /// A countdown with `duration` nanoseconds to go.
    pub open spec fn armed(duration: u64) -> Countdown {
        Countdown { remaining: duration, finished: false }
    }

    /// Whether a tick of `delta` nanoseconds makes this countdown fire.
    pub open spec fn fires(self, delta: u64) -> bool {
        !self.finished && delta >= self.remaining
    }

    /// The countdown after a tick of `delta` nanoseconds.
    pub open spec fn after(self, delta: u64) -> Countdown {
        if self.finished {
            self
        } else if delta >= self.remaining {
            Countdown { remaining: 0, finished: true }
        } else {
            Countdown { remaining: (self.remaining - delta) as u64, finished: false }
        }
    }

    /// Starts a countdown of `duration` nanoseconds.
    pub fn new(duration: u64) -> (c: Countdown)
        ensures
            c == Countdown::armed(duration),
    {
        Countdown { remaining: duration, finished: false }
    }

    /// Advances the countdown by `delta` nanoseconds and tells whether it
    /// fired on this very tick.
    pub fn tick(&mut self, delta: u64) -> (fired: bool)
        ensures
            *final(self) == old(self).after(delta),
            fired == old(self).fires(delta),
    {
        if self.finished {
            false
        } else if delta >= self.remaining {
            self.remaining = 0;
            self.finished = true;
            true
        } else {
            self.remaining = self.remaining - delta;
            false
        }
    }
}

/// A countdown fires at most once: after the tick on which it fired, no
/// further tick makes it fire, and it no longer changes.
pub proof fn lemma_fires_once(c: Countdown, first: u64, second: u64)
    requires
        c.fires(first),
    ensures
        !c.after(first).fires(second),
        c.after(first).after(second) == c.after(first),
{
}

/// Ticks that do not use up the remaining time add up: two short ticks
/// leave the countdown where one tick of their sum would.
pub proof fn lemma_ticks_add_up(c: Countdown, first: u64, second: u64)
    requires
        !c.finished,
        first + second < c.remaining,
    ensures
        !c.fires(first),
        !c.after(first).fires(second),
        c.after(first).after(second) == c.after((first + second) as u64),
{
}

} // verus!
