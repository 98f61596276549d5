//! A schedule that fires at a randomly sampled offset from a fixed anchor.
//!
//! The anchor never advances: every query independently samples a fresh
//! offset from the same anchor, so repeated queries are not monotone. This is
//! the one schedule whose answer is not a function of its inputs.
use vstd::prelude::*;
use crate::calendar;
use crate::errors::SchedulerError;
use crate::time::Timestamp;
use super::opt_secs;

verus! {

#[derive(Clone, Copy, PartialEq, Eq, Structural, Debug)]
pub struct RandomIntervalSchedule {
    /// Smallest admissible offset, in seconds; always at least one.
    pub min_secs: u64,
    /// Largest admissible offset, in seconds; never below `min_secs`.
    pub max_secs: u64,
    /// The fixed anchor offsets are measured from; the query's `after` when
    /// unset.
    pub last_time: Option<Timestamp>,
    pub end_time: Option<Timestamp>,
}

/// The anchor a query measures its offset from.
pub open spec fn anchor_of(s: RandomIntervalSchedule, after: int) -> int {
    match s.last_time {
        Some(t) => t@,
        None => after,
    }
}

/// The answer the schedule gives once the sampled offset `d` is fixed.
pub open spec fn random_next_with(s: RandomIntervalSchedule, after: int, d: int) -> Option<int> {
    let t = anchor_of(s, after) + d;
    if t > calendar::max_epoch() {
        None
    } else if match s.end_time {
        Some(e) => t > e@,
        None => false,
    } {
        None
    } else {
        Some(t)
    }
}

/// Some admissible offset explains the answer.
pub open spec fn is_random_next(s: RandomIntervalSchedule, after: int, r: Option<int>) -> bool {
    exists |d: int| s.min_secs <= d <= s.max_secs && r == #[trigger] random_next_with(s, after, d)
}

impl RandomIntervalSchedule {
    pub open spec fn wf(&self) -> bool {
        &&& 1 <= self.min_secs <= self.max_secs
        &&& match self.last_time {
            Some(t) => t.wf(),
            None => true,
        }
        &&& match self.end_time {
            Some(e) => e.wf(),
            None => true,
        }
    }

    /// A schedule with offsets drawn from `min_secs ..= max_secs`, rejected
    /// with `InvalidDuration` when either bound is zero and with
    /// `InvalidConfiguration` when the minimum exceeds the maximum.
    pub fn new(min_secs: u64, max_secs: u64) -> (r: Result<
        RandomIntervalSchedule,
        SchedulerError,
    >)
        ensures
            match r {
                Ok(s) => s == (RandomIntervalSchedule {
                    min_secs,
                    max_secs,
                    last_time: None,
                    end_time: None,
                }) && s.wf(),
                Err(e) => if min_secs == 0 || max_secs == 0 {
                    e == SchedulerError::InvalidDuration
                } else {
                    e == SchedulerError::InvalidConfiguration && min_secs > max_secs
                },
            },
            r is Ok <==> 1 <= min_secs <= max_secs,
    {
        if min_secs == 0 || max_secs == 0 {
            Err(SchedulerError::InvalidDuration)
        } else if min_secs > max_secs {
            Err(SchedulerError::InvalidConfiguration)
        } else {
            Ok(RandomIntervalSchedule { min_secs, max_secs, last_time: None, end_time: None })
        }
    }

    /// The same schedule, bounded: occurrences past `end_time` are dropped.
    pub fn with_end_time(self, end_time: Timestamp) -> (r: RandomIntervalSchedule)
        requires
            end_time.wf(),
        ensures
            r == (RandomIntervalSchedule { end_time: Some(end_time), ..self }),
            self.wf() ==> r.wf(),
    {
        RandomIntervalSchedule {
            min_secs: self.min_secs,
            max_secs: self.max_secs,
            last_time: self.last_time,
            end_time: Some(end_time),
        }
    }

    /// The same schedule, anchored at `start_time` instead of at the query.
    pub fn with_start_time(self, start_time: Timestamp) -> (r: RandomIntervalSchedule)
        requires
            start_time.wf(),
        ensures
            r == (RandomIntervalSchedule { last_time: Some(start_time), ..self }),
            self.wf() ==> r.wf(),
    {
        RandomIntervalSchedule {
            min_secs: self.min_secs,
            max_secs: self.max_secs,
            last_time: Some(start_time),
            end_time: self.end_time,
        }
    }

    /// The answer for a given offset `d`: the anchor plus `d`, or `None` past
    /// the end bound or the supported range.
    pub fn next_occurrence_from(&self, after: Timestamp, d: u64) -> (r: Option<Timestamp>)
        requires
            self.wf(),
            -1 <= after@ <= calendar::max_epoch(),
            self.min_secs <= d <= self.max_secs,
        ensures
            opt_secs(r) == random_next_with(*self, after@, d as int),
            r matches Some(t) ==> t.wf(),
    {
        let anchor: i64 = match self.last_time {
            Some(t) => t.secs,
            None => after.secs,
        };
        let cand: i128 = anchor as i128 + d as i128;
        let max = calendar::max_epoch_seconds();
        if cand > max as i128 {
            return None;
        }
        let t = Timestamp { secs: cand as i64 };
        match self.end_time {
            Some(e) => if t.secs > e.secs {
                None
            } else {
                Some(t)
            },
            None => Some(t),
        }
    }

    /// The anchor plus a freshly sampled offset, or `None` past the end
    /// bound. Each call samples independently from the same anchor; with an
    /// anchor in the past the answer may lie at or before `after`.
    pub fn next_occurrence(&self, after: Timestamp) -> (r: Option<Timestamp>)
        requires
            self.wf(),
            -1 <= after@ <= calendar::max_epoch(),
        ensures
            is_random_next(*self, after@, opt_secs(r)),
            r matches Some(t) ==> t.wf(),
            r matches Some(t) ==> anchor_of(*self, after@) + self.min_secs <= t@ <= anchor_of(
                *self,
                after@,
            ) + self.max_secs,
            self.end_time is None && anchor_of(*self, after@) + self.max_secs
                <= calendar::max_epoch() ==> r is Some,
            (match self.end_time {
                Some(e) => e@ < anchor_of(*self, after@) + self.min_secs,
                None => false,
            }) ==> r is None,
            (match self.end_time {
                Some(e) => anchor_of(*self, after@) + self.max_secs <= e@,
                None => false,
            }) && anchor_of(*self, after@) + self.max_secs <= calendar::max_epoch() ==> r is Some,
    {
        let d = random_between(self.min_secs, self.max_secs);
        let r = self.next_occurrence_from(after, d);
        proof {
            assert(opt_secs(r) == random_next_with(*self, after@, d as int));
        }
        r
    }
}

/// Relies on `rand::rng` and `rand::Rng::random_range` over an inclusive
/// integer range: the sample lies within the bounds. Nothing more is promised
/// of the value.
#[verifier::external_body]
fn random_between(lo: u64, hi: u64) -> (r: u64)
    requires
        lo <= hi,
    ensures
        lo <= r <= hi,
{
    rand::Rng::random_range(&mut rand::rng(), lo..=hi)
}

} // verus!
