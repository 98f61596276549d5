//! A schedule that fires at fixed periodic offsets from a start instant.
use vstd::prelude::*;
use crate::calendar;
use crate::errors::SchedulerError;
use crate::time::Timestamp;
use super::opt_secs;
use vstd::arithmetic::div_mod::lemma_fundamental_div_mod;
use vstd::arithmetic::div_mod::lemma_mod_multiples_basic;

verus! {

#[derive(Clone, Copy, PartialEq, Eq, Structural, Debug)]
pub struct IntervalSchedule {
    /// The period, in seconds; always at least one.
    pub interval_secs: u64,
    pub start_time: Timestamp,
    pub end_time: Option<Timestamp>,
}

/// The occurrence after `after`: the start itself while `after` is before it,
/// otherwise the smallest interval-aligned instant strictly after `after`;
/// nothing when that instant passes the end bound or the supported range.
pub open spec fn interval_next(s: IntervalSchedule, after: int) -> Option<int> {
    if after < s.start_time@ {
        Some(s.start_time@)
    } else {
        let k = (after - s.start_time@) / s.interval_secs as int;
        let t = s.start_time@ + (k + 1) * s.interval_secs;
        if t > calendar::max_epoch() {
            None
        } else if match s.end_time {
            Some(e) => t > e@,
            None => false,
        } {
            None
        } else {
            Some(t)
        }
    }
}

impl IntervalSchedule {
    pub open spec fn wf(&self) -> bool {
        &&& self.interval_secs >= 1
        &&& self.start_time.wf()
        &&& match self.end_time {
            Some(e) => e.wf(),
            None => true,
        }
    }

    /// A schedule firing every `interval_secs` seconds from `start_time` on,
    /// rejected with `InvalidDuration` when the period is zero.
    pub fn new(interval_secs: u64, start_time: Timestamp) -> (r: Result<
        IntervalSchedule,
        SchedulerError,
    >)
        requires
            start_time.wf(),
        ensures
            match r {
                Ok(s) => interval_secs >= 1 && s == (IntervalSchedule {
                    interval_secs,
                    start_time,
                    end_time: None,
                }) && s.wf(),
                Err(e) => e == SchedulerError::InvalidDuration && interval_secs == 0,
            },
    {
        if interval_secs == 0 {
            Err(SchedulerError::InvalidDuration)
        } else {
            Ok(IntervalSchedule { interval_secs, start_time, end_time: None })
        }
    }

    /// The same schedule, bounded: occurrences past `end_time` are dropped.
    pub fn with_end_time(self, end_time: Timestamp) -> (r: IntervalSchedule)
        requires
            end_time.wf(),
        ensures
            r == (IntervalSchedule { end_time: Some(end_time), ..self }),
            self.wf() ==> r.wf(),
    {
        IntervalSchedule {
            interval_secs: self.interval_secs,
            start_time: self.start_time,
            end_time: Some(end_time),
        }
    }

    /// The earliest occurrence strictly after `after`.
    pub fn next_occurrence(&self, after: Timestamp) -> (r: Option<Timestamp>)
        requires
            self.wf(),
            -1 <= after@ <= calendar::max_epoch(),
        ensures
            opt_secs(r) == interval_next(*self, after@),
            r matches Some(t) ==> t.wf(),
    {
        if after.secs < self.start_time.secs {
            return Some(self.start_time);
        }
        let elapsed: u64 = (after.secs - self.start_time.secs) as u64;
        let k: u64 = elapsed / self.interval_secs;
        proof {
            lemma_fundamental_div_mod(elapsed as int, self.interval_secs as int);
            assert(k as int * self.interval_secs as int <= elapsed as int) by (nonlinear_arith)
                requires
                    k as int == elapsed as int / self.interval_secs as int,
                    self.interval_secs >= 1,
                    elapsed >= 0,
                    elapsed as int == self.interval_secs as int * (elapsed as int
                        / self.interval_secs as int) + elapsed as int % self.interval_secs as int,
                    0 <= elapsed as int % self.interval_secs as int,
            ;
            assert(k <= elapsed) by (nonlinear_arith)
                requires
                    k as int * self.interval_secs as int <= elapsed as int,
                    self.interval_secs >= 1,
                    k >= 0,
            ;
            calendar::lemma_max_epoch_bound();
            assert((k as int + 1) * self.interval_secs as int == k as int
                * self.interval_secs as int + self.interval_secs as int) by (nonlinear_arith);
        }
        let cand: u128 = self.start_time.secs as u128 + (k as u128 + 1)
            * self.interval_secs as u128;
        let max = calendar::max_epoch_seconds();
        if cand > max as u128 {
            return None;
        }
        let t = Timestamp { secs: cand as i64 };
        match self.end_time {
            Some(e) => if t.secs > e.secs {
                None
            } else {
                Some(t)
            },
            None => Some(t),
        }
    }
}

/// For a start `S`, a period `I` and any `after` at or past `S`: whatever
/// occurrence the schedule yields lies strictly after `after`, and its offset
/// from `S` is an exact multiple of `I`.
pub proof fn lemma_interval_aligned(s: IntervalSchedule, after: int, t: int)
    requires
        s.wf(),
        s.start_time@ <= after,
        interval_next(s, after) == Some(t),
    ensures
        t > after,
        (t - s.start_time@) % (s.interval_secs as int) == 0,
{
    let i = s.interval_secs as int;
    let e = after - s.start_time@;
    let k = e / i;
    lemma_fundamental_div_mod(e, i);
    assert((k + 1) * i == k * i + i) by (nonlinear_arith);
    assert(i * k == k * i) by (nonlinear_arith);
    lemma_mod_multiples_basic(k + 1, i);
    assert((t - s.start_time@) == (k + 1) * i);
}

} // verus!
