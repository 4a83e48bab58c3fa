//! Sampling-loop timing: the fixed tick period and the self-correcting
//! deadline schedule.
//!
//! The next wake deadline is always the previous deadline plus the period,
//! never "now plus the period", so scheduling jitter inside a tick does not
//! accumulate into drift.

use vstd::prelude::*;
use crate::config::MAX_FREQUENCY;

verus! {

/// The tick period in microseconds for a fixed-point frequency in hertz:
/// 10^6 us/s divided by (frequency / SCALE) Hz.
pub open spec fn period_micros_spec(frequency: int) -> int {
    1000000000000int / frequency
}

/// The n-th tick deadline of a schedule started at `start`.
pub open spec fn nth_deadline(start: int, period: int, n: nat) -> int
    decreases n,
{
    if n == 0 {
        start
    } else {
        nth_deadline(start, period, (n - 1) as nat) + period
    }
}

/// Successive deadlines are exactly one period apart.
pub proof fn lemma_deadlines_evenly_spaced(start: int, period: int, n: nat)
    ensures
        nth_deadline(start, period, n + 1) - nth_deadline(start, period, n) == period,
{
}

/// The deadline schedule never drifts: the n-th deadline is exactly the
/// start plus n periods, however late any individual tick ran.
pub proof fn lemma_deadline_closed_form(start: int, period: int, n: nat)
    ensures
        nth_deadline(start, period, n) == start + n * period,
    decreases n,
{
    if n == 0 {
        assert(0 * period == 0) by (nonlinear_arith);
    } else {
        lemma_deadline_closed_form(start, period, (n - 1) as nat);
        assert(n * period == (n - 1) * period + period) by (nonlinear_arith);
    }
}

/// The tick period in microseconds for a fixed-point frequency.
pub fn period_micros_from_frequency(frequency: i64) -> (r: u64)
    requires
        0 < frequency <= MAX_FREQUENCY,
    ensures
        r == period_micros_spec(frequency as int),
        1 <= r <= 1000000000000,
{
    let r = 1000000000000u64 / (frequency as u64);
    proof {
        vstd::arithmetic::div_mod::lemma_div_non_zero(1000000000000, frequency as int);
        vstd::arithmetic::div_mod::lemma_div_is_ordered_by_denominator(
            1000000000000,
            1,
            frequency as int,
        );
    }
    r
}

/// The sampling loop's wake schedule.
pub struct TickSchedule {
    /// The fixed tick period, in microseconds.
    pub period_micros: u64,
    /// The next wake deadline, in microseconds on the host clock.
    pub next_deadline_micros: u64,
}

impl TickSchedule {
    pub open spec fn wf(&self) -> bool {
        0 < self.period_micros
    }

    /// Starts the schedule: the first deadline is one period from `now`.
    pub fn new(period_micros: u64, now_micros: u64) -> (s: TickSchedule)
        requires
            0 < period_micros,
            now_micros + period_micros <= u64::MAX,
        ensures
            s.wf(),
            s.period_micros == period_micros,
            s.next_deadline_micros == now_micros + period_micros,
    {
        TickSchedule { period_micros, next_deadline_micros: now_micros + period_micros }
    }

    /// Whether the tick deadline has been reached.
    pub fn should_tick(&self, now_micros: u64) -> (b: bool)
        ensures
            b == (now_micros >= self.next_deadline_micros),
    {
        now_micros >= self.next_deadline_micros
    }

    /// Moves to the next deadline after a tick ran: exactly one period
    /// after the previous deadline, whatever the current time is.
    pub fn advance(&mut self)
        requires
            old(self).wf(),
            old(self).next_deadline_micros + old(self).period_micros <= u64::MAX,
        ensures
            final(self).wf(),
            final(self).period_micros == old(self).period_micros,
            final(self).next_deadline_micros == old(self).next_deadline_micros + old(
                self,
            ).period_micros,
    {
        self.next_deadline_micros = self.next_deadline_micros + self.period_micros;
    }
}

} // verus!
