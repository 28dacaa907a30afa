//! The scheduler's decisions: what one wake-up does with the manager when it
//! got hold of it, what it does when it did not, and how long it then rests.
//!
//! The loop itself, the lock and the sleep belong to the caller. On each
//! wake-up it tries the lock once, without waiting, and hands the outcome to
//! `acquired` or `contended`; then it sleeps for the pause it was given.

use vstd::prelude::*;
use crate::manager::{all_advanced, composed, PatternManager};
use crate::pattern::Pattern;

verus! {

/// The pause a runner starts with, in microseconds: a thousand polls a
/// second.
pub const DEFAULT_PAUSE: u64 = 1_000;

pub struct Runner {
    /// The pause between two wake-ups, in microseconds, as last read from the
    /// manager.
    pub sleep_time: u64,
    /// How many wake-ups found the manager busy.
    pub fail_count: u64,
}

/// What a wake-up that got the manager leaves for the caller to do.
pub struct Turn {
    /// A new frame was blended and is due at the strip.
    pub render: bool,
    /// How long to sleep before the next wake-up, in microseconds.
    pub pause: u64,
}

impl Runner {
    pub fn new() -> (runner: Runner)
        ensures
            runner.sleep_time == DEFAULT_PAUSE,
            runner.fail_count == 0,
    {
        Runner { sleep_time: DEFAULT_PAUSE, fail_count: 0 }
    }

    /// Takes the pause from `manager` before the first wake-up.
    pub fn start<P: Pattern>(&mut self, manager: &PatternManager<P>)
        ensures
            final(self).sleep_time == manager.interval(),
            final(self).fail_count == 0,
    {
        self.sleep_time = manager.sleep_time();
        self.fail_count = 0;
    }

    /// A wake-up that got the manager: takes over its pause if that has
    /// changed, and brings every pattern up to `now`.
    pub fn acquired<P: Pattern>(&mut self, manager: &mut PatternManager<P>, now: u128) -> (turn:
        Turn)
        requires
            old(manager).wf(),
            old(manager).reaches(now),
        ensures
            final(self).sleep_time == old(manager).interval(),
            final(self).fail_count == old(self).fail_count,
            turn.pause == old(manager).interval(),
            final(manager).wf(),
            final(manager).same_settings(old(manager)),
            exists|flags: Seq<bool>|
                {
                    &&& #[trigger] all_advanced(
                        old(manager).stores(),
                        now,
                        final(manager).stores(),
                        flags,
                    )
                    &&& turn.render == flags.contains(true)
                },
            if turn.render {
                &&& composed(final(manager).stores(), old(manager).shown(), final(manager).shown())
                &&& final(manager).blended() == old(manager).blended() + 1
            } else {
                &&& final(manager).shown() == old(manager).shown()
                &&& final(manager).blended() == old(manager).blended()
            },
    {
        let pause: u64 = manager.sleep_time();
        if pause != self.sleep_time {
            self.sleep_time = pause;
        }
        let render = manager.increment_ticks(now);
        Turn { render, pause: self.sleep_time }
    }

    /// A wake-up that found the manager busy: the miss is counted, no tick
    /// is advanced, and the next try comes after one more full pause.
    pub fn contended(&mut self) -> (pause: u64)
        ensures
            pause == old(self).sleep_time,
            final(self).sleep_time == old(self).sleep_time,
            final(self).fail_count == if old(self).fail_count < u64::MAX {
                old(self).fail_count + 1
            } else {
                u64::MAX as int
            },
    {
        if self.fail_count < u64::MAX {
            self.fail_count = self.fail_count + 1;
        }
        self.sleep_time
    }
}

} // verus!
