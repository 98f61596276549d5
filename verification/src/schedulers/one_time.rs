//! A schedule that fires exactly once at a fixed instant.
use vstd::prelude::*;
use crate::errors::SchedulerError;
use crate::time::Timestamp;
use super::opt_secs;

verus! {

#[derive(Clone, Copy, PartialEq, Eq, Structural, Debug)]
pub struct OneTimeSchedule {
    pub time: Timestamp,
}

/// The occurrence after `after`: the target while `after` is before it,
/// nothing once the target has passed.
pub open spec fn one_time_next(s: OneTimeSchedule, after: int) -> Option<int> {
    if after < s.time@ {
        Some(s.time@)
    } else {
        None
    }
}

impl OneTimeSchedule {
    pub open spec fn wf(&self) -> bool {
        self.time.wf()
    }

    /// A schedule firing at `time`, rejected with `TimeInPast` when `time` is
    /// not strictly in the future of the system clock.
    pub fn new(time: Timestamp) -> (r: Result<OneTimeSchedule, SchedulerError>)
        requires
            time.wf(),
        ensures
            match r {
                Ok(s) => s.time == time && s.wf(),
                Err(e) => e == SchedulerError::TimeInPast,
            },
    {
        Self::new_at(time, Timestamp::now())
    }

    /// A schedule firing at `time`, validated against the supplied `now`:
    /// accepted exactly when `now` is strictly before `time`.
    pub fn new_at(time: Timestamp, now: Timestamp) -> (r: Result<OneTimeSchedule, SchedulerError>)
        requires
            time.wf(),
        ensures
            match r {
                Ok(s) => s.time == time && s.wf() && now@ < time@,
                Err(e) => e == SchedulerError::TimeInPast && time@ <= now@,
            },
    {
        if time.secs <= now.secs {
            Err(SchedulerError::TimeInPast)
        } else {
            Ok(OneTimeSchedule { time })
        }
    }

    /// The earliest occurrence strictly after `after`, or `None` when the
    /// target has passed.
    pub fn next_occurrence(&self, after: Timestamp) -> (r: Option<Timestamp>)
        requires
            self.wf(),
        ensures
            opt_secs(r) == one_time_next(*self, after@),
            r matches Some(t) ==> t.wf(),
    {
        if after.secs < self.time.secs {
            Some(self.time)
        } else {
            None
        }
    }
}

} // verus!
