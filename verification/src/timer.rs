//! The rate accumulator: converts a monotonically non-decreasing clock into a
//! count of whole ticks elapsed since it was last consulted, retaining any
//! fractional remainder as pending time rather than losing it.

use vstd::prelude::*;
use vstd::arithmetic::div_mod::{
    lemma_div_is_ordered, lemma_fundamental_div_mod, lemma_mod_bound,
};

verus! {

/// The number of whole intervals of length `interval` between the reference
/// time `prev` and the current time `now`.
pub open spec fn whole_ticks(prev: int, interval: int, now: int) -> int {
    (now - prev) / interval
}

/// The reference time after consuming every whole interval between `prev` and
/// `now`: it advances by exactly `whole_ticks * interval`, so the fractional
/// remainder stays pending.
pub open spec fn advanced_reference(prev: int, interval: int, now: int) -> int {
    prev + whole_ticks(prev, interval, now) * interval
}

/// Counts whole intervals of elapsed time.  `consume`-style queries are made
/// through [`Timer::step`], which returns the tick count and moves the
/// reference time forward by that many whole intervals.
pub struct Timer {
    prev_time: u64,
    interval: u64,
}

impl Timer {
    /// The reference time: every tick up to this instant has been handed out.
    pub closed spec fn prev_time(&self) -> u64 {
        self.prev_time
    }

    /// The duration of one tick, in the caller's time unit.
    pub closed spec fn interval(&self) -> u64 {
        self.interval
    }

    pub open spec fn wf(&self) -> bool {
        self.interval() >= 1
    }

    pub fn new(current_time: u64, interval: u64) -> (r: Timer)
        requires
            interval >= 1,
        ensures
            r.wf(),
            r.prev_time() == current_time,
            r.interval() == interval,
    {
        Timer { prev_time: current_time, interval }
    }

    /// Returns how many whole intervals have elapsed since the reference time
    /// and advances the reference time by exactly that many intervals.
    /// Timestamps must never move backwards.
    pub fn step(&mut self, current_time: u64) -> (ticks: u64)
        requires
            old(self).wf(),
            old(self).prev_time() <= current_time,
        ensures
            final(self).wf(),
            final(self).interval() == old(self).interval(),
            ticks == whole_ticks(
                old(self).prev_time() as int,
                old(self).interval() as int,
                current_time as int,
            ),
            final(self).prev_time() == advanced_reference(
                old(self).prev_time() as int,
                old(self).interval() as int,
                current_time as int,
            ),
            final(self).prev_time() <= current_time,
            current_time - final(self).prev_time() < old(self).interval(),
    {
        let elapsed = current_time - self.prev_time;
        let ticks = elapsed / self.interval;
        proof {
            lemma_fundamental_div_mod(elapsed as int, self.interval as int);
            lemma_mod_bound(elapsed as int, self.interval as int);
            assert((ticks as int) * (self.interval as int) == (self.interval as int) * (
            ticks as int)) by (nonlinear_arith);
        }
        self.prev_time = self.prev_time + ticks * self.interval;
        ticks
    }

    /// Changes the tick duration without touching the reference time, so
    /// pending fractional progress (which is denominated in time, not ticks)
    /// is neither lost nor fabricated.
    pub fn set_interval(&mut self, interval: u64)
        requires
            interval >= 1,
        ensures
            final(self).wf(),
            final(self).interval() == interval,
            final(self).prev_time() == old(self).prev_time(),
    {
        self.interval = interval;
    }
}

/// Consuming ticks is monotonic in the timestamp: a later query never reports
/// fewer elapsed ticks than an earlier one made from the same reference time.
pub proof fn lemma_ticks_monotonic(prev: int, interval: int, t1: int, t2: int)
    requires
        interval >= 1,
        prev <= t1 <= t2,
    ensures
        whole_ticks(prev, interval, t1) <= whole_ticks(prev, interval, t2),
{
    lemma_div_is_ordered(t1 - prev, t2 - prev, interval);
}

/// Splitting one span of time into two consecutive queries loses no ticks and
/// fabricates none: the ticks handed out at `t1` plus the ticks handed out at
/// `t2` from the advanced reference time equal the ticks of a single query at
/// `t2`.
pub proof fn lemma_ticks_split_exact(prev: int, interval: int, t1: int, t2: int)
    requires
        interval >= 1,
        prev <= t1 <= t2,
    ensures
        prev <= advanced_reference(prev, interval, t1) <= t1,
        whole_ticks(prev, interval, t1) + whole_ticks(
            advanced_reference(prev, interval, t1),
            interval,
            t2,
        ) == whole_ticks(prev, interval, t2),
{
    let d = interval;
    let a = t1 - prev;
    let b = t2 - prev;
    let q = a / d;
    let r = a % d;
    lemma_fundamental_div_mod(a, d);
    lemma_mod_bound(a, d);
    assert(a == d * q + r);
    assert(q * d <= a) by {
        assert(d * q == q * d) by (nonlinear_arith);
    }
    assert(q >= 0) by {
        lemma_div_is_ordered(0, a, d);
    }
    // b = d * q + (b - d * q), and 0 <= b - d * q, so b / d == q + (b - d*q) / d.
    let rest = b - d * q;
    assert(rest >= 0);
    assert(b / d == q + rest / d) by {
        lemma_fundamental_div_mod(rest, d);
        lemma_mod_bound(rest, d);
        let q2 = rest / d;
        let r2 = rest % d;
        assert(b == d * (q + q2) + r2) by (nonlinear_arith)
            requires
                b == d * q + rest,
                rest == d * q2 + r2,
        ;
        vstd::arithmetic::div_mod::lemma_fundamental_div_mod_converse(b, d, q + q2, r2);
    }
    assert(t2 - advanced_reference(prev, interval, t1) == rest) by {
        assert(q * d == d * q) by (nonlinear_arith);
    }
}

/// The total tick count a chain of `step` calls at the given timestamps
/// hands out, starting from the reference time `prev`.
pub open spec fn total_consumed(prev: int, interval: int, times: Seq<int>) -> int
    decreases times.len(),
{
    if times.len() == 0 {
        0
    } else {
        whole_ticks(prev, interval, times[0]) + total_consumed(
            advanced_reference(prev, interval, times[0]),
            interval,
            times.drop_first(),
        )
    }
}

/// No ticks are lost or duplicated by splitting one span of time into many
/// queries: over any non-decreasing sequence of timestamps, the total ticks
/// handed out equal those of a single query at the final timestamp.
pub proof fn lemma_ticks_sequence_exact(prev: int, interval: int, times: Seq<int>)
    requires
        interval >= 1,
        times.len() > 0,
        prev <= times[0],
        forall|i: int, j: int| 0 <= i <= j < times.len() ==> times[i] <= times[j],
    ensures
        total_consumed(prev, interval, times) == whole_ticks(prev, interval, times.last()),
    decreases times.len(),
{
    let t0 = times[0];
    let p1 = advanced_reference(prev, interval, t0);
    lemma_ticks_split_exact(prev, interval, t0, times.last());
    if times.len() == 1 {
        assert(total_consumed(p1, interval, times.drop_first()) == 0);
        assert(whole_ticks(p1, interval, times.last()) == whole_ticks(p1, interval, t0));
    } else {
        let rest = times.drop_first();
        assert(rest[0] == times[1]);
        assert(forall|i: int, j: int| 0 <= i <= j < rest.len() ==> rest[i] <= rest[j]);
        lemma_ticks_sequence_exact(p1, interval, rest);
        assert(rest.last() == times.last());
    }
}

} // verus!
