//! A job-scheduling library with verified occurrence computation.
//!
//! Schedules map an "after" instant to the earliest occurrence strictly after
//! it; a job binds a schedule to a task and gates execution by a repeat limit
//! and an expiry. Calendar arithmetic is modelled by a verified proleptic
//! Gregorian UTC calendar; the inverse conversion from epoch seconds to civil
//! fields, the system clock, and random sampling are the only trusted calls.
use vstd::prelude::*;

pub mod calendar;
pub mod errors;
pub mod schedulers;
pub mod time;

pub use calendar::CivilTime;
pub use errors::SchedulerError;
pub use schedulers::{
    CombinedSchedule, CronSchedule, IntervalSchedule, OneTimeSchedule, RandomIntervalSchedule,
    Schedule,
};
pub use time::Timestamp;

verus! {

/// A schedule bound to a task, with a repeat counter, an optional repeat
/// limit and an optional absolute expiry. The sole mutator is
/// `should_execute`.
pub struct Job<T> {
    pub schedule: Schedule,
    pub task: T,
    pub max_repeats: Option<u32>,
    pub repeats: u32,
    pub end_time: Option<Timestamp>,
}

/// Collects the parts of a `Job`; `build` fails without a schedule and task.
pub struct JobBuilder<T> {
    pub schedule: Option<Schedule>,
    pub task: Option<T>,
    pub max_repeats: Option<u32>,
    pub end_time: Option<Timestamp>,
}

impl<T> Default for JobBuilder<T> {
    fn default() -> (r: JobBuilder<T>)
        ensures
            r.schedule is None,
            r.task is None,
            r.max_repeats is None,
            r.end_time is None,
    {
        JobBuilder::new()
    }
}

impl<T> JobBuilder<T> {
    pub fn new() -> (r: JobBuilder<T>)
        ensures
            r.schedule is None,
            r.task is None,
            r.max_repeats is None,
            r.end_time is None,
    {
        JobBuilder { schedule: None, task: None, max_repeats: None, end_time: None }
    }

    pub fn schedule(self, schedule: Schedule) -> (r: JobBuilder<T>)
        ensures
            r.schedule == Some(schedule),
            r.task == self.task,
            r.max_repeats == self.max_repeats,
            r.end_time == self.end_time,
    {
        JobBuilder {
            schedule: Some(schedule),
            task: self.task,
            max_repeats: self.max_repeats,
            end_time: self.end_time,
        }
    }

    pub fn task(self, task: T) -> (r: JobBuilder<T>)
        ensures
            r.schedule == self.schedule,
            r.task == Some(task),
            r.max_repeats == self.max_repeats,
            r.end_time == self.end_time,
    {
        JobBuilder {
            schedule: self.schedule,
            task: Some(task),
            max_repeats: self.max_repeats,
            end_time: self.end_time,
        }
    }

    pub fn max_repeats(self, max_repeats: u32) -> (r: JobBuilder<T>)
        ensures
            r.schedule == self.schedule,
            r.task == self.task,
            r.max_repeats == Some(max_repeats),
            r.end_time == self.end_time,
    {
        JobBuilder {
            schedule: self.schedule,
            task: self.task,
            max_repeats: Some(max_repeats),
            end_time: self.end_time,
        }
    }

    pub fn end_time(self, end_time: Timestamp) -> (r: JobBuilder<T>)
        ensures
            r.schedule == self.schedule,
            r.task == self.task,
            r.max_repeats == self.max_repeats,
            r.end_time == Some(end_time),
    {
        JobBuilder {
            schedule: self.schedule,
            task: self.task,
            max_repeats: self.max_repeats,
            end_time: Some(end_time),
        }
    }

    /// A job from the collected parts, with its counter at zero; fails with
    /// `InvalidConfiguration` exactly when the schedule or the task is
    /// missing.
    pub fn build(self) -> (r: Result<Job<T>, SchedulerError>)
        ensures
            match r {
                Ok(j) => {
                    &&& self.schedule == Some(j.schedule)
                    &&& self.task == Some(j.task)
                    &&& j.max_repeats == self.max_repeats
                    &&& j.repeats == 0
                    &&& j.end_time == self.end_time
                },
                Err(e) => {
                    &&& e == SchedulerError::InvalidConfiguration
                    &&& (self.schedule is None || self.task is None)
                },
            },
    {
        match (self.schedule, self.task) {
            (Some(schedule), Some(task)) => Ok(
                Job {
                    schedule,
                    task,
                    max_repeats: self.max_repeats,
                    repeats: 0,
                    end_time: self.end_time,
                },
            ),
            _ => Err(SchedulerError::InvalidConfiguration),
        }
    }
}

/// The repeat limit and the expiry both allow a firing at `now`.
pub open spec fn caps_allow<T>(j: Job<T>, now: int) -> bool {
    &&& match j.max_repeats {
        Some(m) => j.repeats < m,
        None => true,
    }
    &&& match j.end_time {
        Some(e) => now < e@,
        None => true,
    }
}

/// One decision of a job's life, as `should_execute` ensures it: a firing
/// raises the counter by one and only happens below a set limit; a refusal
/// leaves the job unchanged.
pub open spec fn decision_ok<T>(j1: Job<T>, j2: Job<T>, fired: bool) -> bool {
    &&& j2.schedule == j1.schedule
    &&& j2.task == j1.task
    &&& j2.max_repeats == j1.max_repeats
    &&& j2.end_time == j1.end_time
    &&& if fired {
        &&& j2.repeats == j1.repeats + 1
        &&& match j1.max_repeats {
            Some(m) => j1.repeats < m,
            None => true,
        }
    } else {
        j2 == j1
    }
}

/// How many of the decisions fired.
pub open spec fn count_fires(fires: Seq<bool>) -> int
    decreases fires.len(),
{
    if fires.len() == 0 {
        0
    } else {
        count_fires(fires.drop_last()) + if fires.last() {
            1int
        } else {
            0int
        }
    }
}

/// A job built with `max_repeats` of `n` yields its task at most `n` times
/// in its whole life, however often and at whatever instants it is probed:
/// along any chain of decisions that follow `should_execute`'s contract from
/// a fresh job, the number of firings equals the final counter and never
/// exceeds `n`.
pub proof fn lemma_repeat_cap<T>(states: Seq<Job<T>>, fires: Seq<bool>, n: u32)
    requires
        states.len() == fires.len() + 1,
        states[0].repeats == 0,
        states[0].max_repeats == Some(n),
        forall |i: int|
            0 <= i < fires.len() ==> decision_ok(#[trigger] states[i], states[i + 1], fires[i]),
    ensures
        count_fires(fires) == states.last().repeats,
        count_fires(fires) <= n,
        states.last().max_repeats == Some(n),
    decreases fires.len(),
{
    if fires.len() > 0 {
        let m = fires.len() as int;
        assert forall |i: int|
            0 <= i < fires.len() - 1 implies decision_ok(
            #[trigger] states.drop_last()[i],
            states.drop_last()[i + 1],
            fires.drop_last()[i],
        ) by {
            assert(decision_ok(states[i], states[i + 1], fires[i]));
        }
        lemma_repeat_cap(states.drop_last(), fires.drop_last(), n);
        assert(decision_ok(states[m - 1], states[m], fires[m - 1]));
        assert(states.drop_last().last() == states[m - 1]);
    }
}

impl<T> Job<T> {
    /// The repeat counter never passes a set limit, and the held instants
    /// and schedule are well formed.
    pub open spec fn wf(&self) -> bool {
        &&& schedulers::schedule_wf(self.schedule)
        &&& match self.max_repeats {
            Some(m) => self.repeats <= m,
            None => true,
        }
        &&& match self.end_time {
            Some(e) => e.wf(),
            None => true,
        }
    }

    pub fn builder() -> (r: JobBuilder<T>)
        ensures
            r.schedule is None,
            r.task is None,
            r.max_repeats is None,
            r.end_time is None,
    {
        JobBuilder::new()
    }

    /// Decides whether the job fires at `current_time`, and counts a firing.
    ///
    /// The job fires when neither the repeat limit nor the expiry blocks it
    /// and the schedule places an occurrence in the second ending at
    /// `current_time`: the schedule is probed one second early, so an
    /// occurrence landing exactly on `current_time` is recognised. A firing
    /// increments the repeat counter by exactly one and yields the task;
    /// otherwise the job is unchanged. With a repeat limit of `n`, at most
    /// `n` calls ever fire in a job's lifetime, since each firing raises the
    /// counter the limit caps.
    pub fn should_execute(&mut self, current_time: Timestamp) -> (r: Option<&T>)
        requires
            old(self).wf(),
            old(self).repeats < u32::MAX,
            current_time.wf(),
        ensures
            final(self).wf(),
            decision_ok(*old(self), *final(self), r is Some),
            final(self).schedule == old(self).schedule,
            final(self).task == old(self).task,
            final(self).max_repeats == old(self).max_repeats,
            final(self).end_time == old(self).end_time,
            match r {
                Some(t) => {
                    &&& t == &final(self).task
                    &&& final(self).repeats == old(self).repeats + 1
                    &&& caps_allow(*old(self), current_time@)
                    &&& exists |v: int|
                        {
                            &&& #[trigger] schedulers::is_next(
                                old(self).schedule,
                                current_time@ - 1,
                                Some(v),
                            )
                            &&& v <= current_time@
                        }
                },
                None => *final(self) == *old(self),
            },
            schedulers::is_deterministic(old(self).schedule) ==> ((r is Some) <==> (caps_allow(
                *old(self),
                current_time@,
            ) && exists |v: int|
                {
                    &&& #[trigger] schedulers::is_next(old(self).schedule, current_time@ - 1, Some(v))
                    &&& v <= current_time@
                })),
    {
        if let Some(max) = self.max_repeats {
            if self.repeats >= max {
                return None;
            }
        }
        if let Some(end) = self.end_time {
            if current_time.secs >= end.secs {
                return None;
            }
        }
        let probe = Timestamp { secs: current_time.secs - 1 };
        let next = self.schedule.next_occurrence(probe);
        match next {
            Some(n) => {
                if n.secs <= current_time.secs {
                    self.repeats = self.repeats + 1;
                    Some(&self.task)
                } else {
                    proof {
                        if schedulers::is_deterministic(self.schedule) {
                            assert forall |v: int|
                                schedulers::is_next(
                                    self.schedule,
                                    current_time@ - 1,
                                    Some(v),
                                ) implies v > current_time@ by {
                                schedulers::lemma_next_deterministic(
                                    self.schedule,
                                    current_time@ - 1,
                                    Some(v),
                                    schedulers::opt_secs(next),
                                );
                            }
                        }
                    }
                    None
                }
            },
            None => {
                proof {
                    if schedulers::is_deterministic(self.schedule) {
                        assert forall |v: int|
                            schedulers::is_next(
                                self.schedule,
                                current_time@ - 1,
                                Some(v),
                            ) implies false by {
                            schedulers::lemma_next_deterministic(
                                self.schedule,
                                current_time@ - 1,
                                Some(v),
                                schedulers::opt_secs(next),
                            );
                        }
                    }
                }
                None
            },
        }
    }
}

} // verus!
