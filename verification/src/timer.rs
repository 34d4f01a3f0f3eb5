//! Cooldown timers: a timer counts elapsed time toward a duration and
//! reports "finished" once the duration was reached at the last tick.
//! A repeating timer wraps to the residual overflow instead of dropping
//! it, so a large delta-time loses no charge.

use vstd::prelude::*;
use crate::DT_LIMIT;
use crate::DUR_LIMIT;

verus! {

#[derive(Clone, Copy, PartialEq, Eq, Structural, Debug)]
pub struct Timer {
    pub duration: i64,
    pub elapsed: i64,
    pub repeating: bool,
    pub finished: bool,
}

/// Well-formed timer: a positive, bounded duration, and elapsed time
/// within it.
pub open spec fn wf_timer(t: Timer) -> bool {
    &&& 1 <= t.duration <= DUR_LIMIT
    &&& 0 <= t.elapsed <= t.duration
}

/// Elapsed time after a tick: advance by `dt`; on reaching the duration
/// a repeating timer wraps to the residual, a one-shot timer saturates.
pub open spec fn spec_tick_elapsed(t: Timer, dt: int) -> int {
    let e1 = t.elapsed + dt;
    if e1 >= t.duration {
        if t.repeating {
            e1 % (t.duration as int)
        } else {
            t.duration as int
        }
    } else {
        e1
    }
}

/// The finished flag after a tick: whether the advanced elapsed time
/// reached the duration.
pub open spec fn spec_tick_finished(t: Timer, dt: int) -> bool {
    t.elapsed + dt >= t.duration
}

/// The timer a tick produces.
pub open spec fn spec_tick(t: Timer, dt: int) -> Timer {
    Timer {
        duration: t.duration,
        elapsed: spec_tick_elapsed(t, dt) as i64,
        repeating: t.repeating,
        finished: spec_tick_finished(t, dt),
    }
}

impl Timer {
    /// A fresh timer: nothing elapsed, not finished.
    pub fn new(duration: i64, repeating: bool) -> (t: Timer)
        requires
            1 <= duration <= DUR_LIMIT,
        ensures
            t == (Timer { duration, elapsed: 0, repeating, finished: false }),
            wf_timer(t),
    {
        Timer { duration, elapsed: 0, repeating, finished: false }
    }

    /// Whether the duration was reached at the last tick; gates firing.
    pub fn finished(&self) -> (r: bool)
        ensures
            r == self.finished,
    {
        self.finished
    }

    /// Advance by `dt` milliseconds.
    pub fn tick(&mut self, dt: i64)
        requires
            wf_timer(*old(self)),
            0 <= dt < DT_LIMIT,
        ensures
            *final(self) == spec_tick(*old(self), dt as int),
            wf_timer(*final(self)),
    {
        let e1 = self.elapsed + dt;
        if e1 >= self.duration {
            self.finished = true;
            if self.repeating {
                self.elapsed = ((e1 as u64) % (self.duration as u64)) as i64;
            } else {
                self.elapsed = self.duration;
            }
        } else {
            self.finished = false;
            self.elapsed = e1;
        }
    }
}

/// The cooldown law: a tick never drives the elapsed time below zero or
/// beyond the duration, and when one charge is spent (the advanced time
/// reached the duration but not twice it) a repeating timer's elapsed
/// time comes out reduced by exactly the duration — the overflow is
/// carried forward, not dropped.
pub proof fn lemma_cooldown_wrap(t: Timer, dt: int)
    requires
        wf_timer(t),
        t.repeating,
        0 <= dt < DT_LIMIT,
    ensures
        0 <= spec_tick(t, dt).elapsed <= t.duration,
        spec_tick(t, dt).finished <==> t.elapsed + dt >= t.duration,
        t.elapsed + dt < 2 * t.duration && spec_tick(t, dt).finished ==> spec_tick(t, dt).elapsed
            == t.elapsed + dt - t.duration,
{
    let e1 = t.elapsed + dt;
    if e1 >= t.duration && e1 < 2 * t.duration {
        assert(e1 % (t.duration as int) == e1 - t.duration) by {
            assert((e1 - t.duration) + 1 * t.duration == e1);
            assert(0 <= e1 - t.duration < t.duration);
            vstd::arithmetic::div_mod::lemma_fundamental_div_mod_converse(
                e1,
                t.duration as int,
                1,
                e1 - t.duration,
            );
        }
    }
}

} // verus!
