//! The latch that lets the scheduler loop start once.

use crate::time::{span_of_seconds, TimeDelta};
use vstd::prelude::*;

verus! {

/// What the platform's events are handled with: whether the scheduler loop has
/// been started, and the pause between its ticks.
#[derive(Clone, Copy, Debug, PartialEq, Eq)]
pub struct Handler {
    pub is_loop_running: bool,
    pub loop_period: TimeDelta,
}

/// How many loops `count` ready events start, one after the other, at a latch
/// that is in the state `running` before the first of them.
pub open spec fn loops_started(running: bool, count: nat) -> nat
    decreases count,
{
    if count == 0 {
        0
    } else if running {
        loops_started(true, (count - 1) as nat)
    } else {
        1 + loops_started(true, (count - 1) as nat)
    }
}

impl Handler {
    /// A handler whose loop has not been started and pauses `loop_time_seconds`
    /// seconds between ticks.
    pub fn new(loop_time_seconds: u64) -> (handler: Handler)
        ensures
            !handler.is_loop_running,
            handler.loop_period == span_of_seconds(loop_time_seconds),
    {
        Handler { is_loop_running: false, loop_period: TimeDelta::seconds(loop_time_seconds) }
    }

    /// Handles the platform's ready event, which may come any number of times.
    /// The first one is answered with the period of the loop to start; the loop
    /// counts as running from then on, and every later event is answered with nothing.
    pub fn cache_ready(&mut self) -> (start: Option<TimeDelta>)
        ensures
            start == if old(self).is_loop_running {
                None
            } else {
                Some(old(self).loop_period)
            },
            final(self).is_loop_running,
            final(self).loop_period == old(self).loop_period,
    {
        if self.is_loop_running {
            None
        } else {
            self.is_loop_running = true;
            Some(self.loop_period)
        }
    }
}

/// However often the platform reports ready, the loop is started once: by the
/// first event, and by no event at a latch whose loop is running.
pub proof fn lemma_loop_starts_once(count: nat)
    ensures
        loops_started(true, count) == 0,
        count > 0 ==> loops_started(false, count) == 1,
    decreases count,
{
    if count > 0 {
        lemma_loop_starts_once((count - 1) as nat);
    }
}

} // verus!
