//! A repeating timer over the injected clock.

use vstd::prelude::*;

verus! {

/// A timer that runs from zero up to its `duration` and starts over, any
/// number of times.
#[derive(Clone, Copy, Debug, PartialEq, Eq, Structural)]
pub struct Timer {
    /// The period, in time units.
    pub duration: u32,
    /// The time run since the timer last started over.
    pub elapsed: u32,
}

/// The time a repeating timer shows after `delta` more time units.
pub open spec fn elapsed_after(duration: u32, elapsed: u32, delta: u32) -> int {
    (elapsed + delta) % (duration as int)
}

/// The timer comes to the end of a period within the next `delta` time units.
pub open spec fn expires_within(duration: u32, elapsed: u32, delta: u32) -> bool {
    elapsed + delta >= duration
}

/// Runs `bevy::time::Timer::tick` on a fresh repeating timer of the given
/// period whose time shown has been set to `elapsed`, and hands back the
/// time it shows afterwards and its `just_finished`, all in microseconds.
/// The outside code adds `delta` to the time shown. Where the sum stays
/// below the period it keeps the sum and has not finished. Where the sum
/// reaches the period it keeps the remainder of the sum by the period and
/// counts the periods that went by, cut to 32 bits; it has just finished
/// when that count is not zero. From a time within the period, which is
/// what is asked here, a tick of 32 bits cannot make the count come to
/// zero again, so the timer has just finished exactly when the sum
/// reaches the period.
#[verifier::external_body]
fn tick_repeating(duration: u32, elapsed: u32, delta: u32) -> (r: (u32, bool))
    requires
        elapsed < duration,
    ensures
        r.0 == elapsed_after(duration, elapsed, delta),
        r.1 == expires_within(duration, elapsed, delta),
{
    let period = std::time::Duration::from_micros(duration as u64);
    let mut timer = bevy::time::Timer::new(period, bevy::time::TimerMode::Repeating);
    timer.set_elapsed(std::time::Duration::from_micros(elapsed as u64));
    timer.tick(std::time::Duration::from_micros(delta as u64));
    (timer.elapsed().as_micros() as u32, timer.just_finished())
}

impl Timer {
    /// The time shown lies within the period.
    pub open spec fn wf(&self) -> bool {
        self.elapsed < self.duration
    }

    /// A timer of the given period that has not run yet.
    pub fn new(duration: u32) -> (t: Timer)
        requires
            duration > 0,
        ensures
            t.wf(),
            t.duration == duration,
            t.elapsed == 0,
    {
        Timer { duration, elapsed: 0 }
    }

    /// Lets `delta` time units pass. Returns whether a period came to its
    /// end; the time beyond it counts towards the next period.
    pub fn tick(&mut self, delta: u32) -> (finished: bool)
        requires
            old(self).wf(),
        ensures
            final(self).wf(),
            final(self).duration == old(self).duration,
            final(self).elapsed == elapsed_after(old(self).duration, old(self).elapsed, delta),
            finished == expires_within(old(self).duration, old(self).elapsed, delta),
    {
        let (elapsed, finished) = tick_repeating(self.duration, self.elapsed, delta);
        self.elapsed = elapsed;
        finished
    }

    /// Starts the current period over.
    pub fn reset(&mut self)
        ensures
            final(self).duration == old(self).duration,
            final(self).elapsed == 0,
    {
        self.elapsed = 0;
    }
}

/// A tick that stays within the period only adds to the time shown.
pub proof fn lemma_tick_within_period(duration: u32, elapsed: u32, delta: u32)
    requires
        elapsed + delta < duration,
    ensures
        elapsed_after(duration, elapsed, delta) == elapsed + delta,
        !expires_within(duration, elapsed, delta),
{
    vstd::arithmetic::div_mod::lemma_small_mod((elapsed + delta) as nat, duration as nat);
}

/// Ticks add up: two ticks leave the timer where
/// one tick of their sum would leave it.
pub proof fn lemma_ticks_add_up(duration: u32, elapsed: u32, first: u32, second: u32)
    requires
        elapsed < duration,
        first + second <= u32::MAX,
    ensures
        elapsed_after(
            duration,
            elapsed_after(duration, elapsed, first) as u32,
            second,
        ) == elapsed_after(duration, elapsed, (first + second) as u32),
{
    let d = duration as int;
    vstd::arithmetic::div_mod::lemma_mod_bound(elapsed + first, d);
    vstd::arithmetic::div_mod::lemma_add_mod_noop(elapsed + first, second as int, d);
    vstd::arithmetic::div_mod::lemma_small_mod(((elapsed + first) % d) as nat, d as nat);
    vstd::arithmetic::div_mod::lemma_add_mod_noop((elapsed + first) % d, second as int, d);
}

} // verus!
