//! The schedule variants and their shared contract.
//!
//! A schedule maps an instant `after` to the earliest occurrence strictly
//! after it, or to nothing when no future occurrence exists. The contract is
//! the relation `is_next`: for every variant except the random one it pins
//! the answer to a unique value.
use vstd::prelude::*;
use crate::calendar;
use crate::time::Timestamp;

pub mod combined;
pub mod cron;
pub mod interval;
pub mod one_time;
pub mod random_interval;

pub use combined::CombinedSchedule;
pub use cron::CronSchedule;
pub use interval::IntervalSchedule;
pub use one_time::OneTimeSchedule;
pub use random_interval::RandomIntervalSchedule;

verus! {

/// A schedule rule, one of the five variants.
pub enum Schedule {
    OneTime(OneTimeSchedule),
    Interval(IntervalSchedule),
    RandomInterval(RandomIntervalSchedule),
    Cron(CronSchedule),
    Combined(CombinedSchedule),
}

/// The answer as a count of seconds, dropping the wrapper type.
pub open spec fn opt_secs(r: Option<Timestamp>) -> Option<int> {
    match r {
        Some(t) => Some(t@),
        None => None,
    }
}

/// The smaller of two optional instants, a missing one counting as plus
/// infinity.
pub open spec fn opt_min(a: Option<int>, b: Option<int>) -> Option<int> {
    match (a, b) {
        (None, _) => b,
        (Some(_), None) => a,
        (Some(x), Some(y)) => if x <= y {
            a
        } else {
            b
        },
    }
}

/// The smallest of a sequence of optional instants, missing ones counting as
/// plus infinity; `None` exactly when every element is `None`.
pub open spec fn seq_opt_min(s: Seq<Option<int>>) -> Option<int>
    decreases s.len(),
{
    if s.len() == 0 {
        None
    } else {
        opt_min(seq_opt_min(s.drop_last()), s.last())
    }
}

/// Every timestamp held by the schedule lies in the supported range, every
/// period is positive, and every cron constraint is in its field's range.
pub open spec fn schedule_wf(s: Schedule) -> bool
    decreases s,
{
    match s {
        Schedule::OneTime(o) => o.wf(),
        Schedule::Interval(iv) => iv.wf(),
        Schedule::RandomInterval(ri) => ri.wf(),
        Schedule::Cron(c) => c.wf(),
        Schedule::Combined(cs) => forall |i: int|
            0 <= i < cs.schedules@.len() ==> schedule_wf(#[trigger] cs.schedules@[i]),
    }
}

/// No random variant occurs anywhere in the schedule: the answer is then a
/// function of the rule and the query alone.
pub open spec fn is_deterministic(s: Schedule) -> bool
    decreases s,
{
    match s {
        Schedule::OneTime(_) => true,
        Schedule::Interval(_) => true,
        Schedule::RandomInterval(_) => false,
        Schedule::Cron(_) => true,
        Schedule::Combined(cs) => forall |i: int|
            0 <= i < cs.schedules@.len() ==> is_deterministic(#[trigger] cs.schedules@[i]),
    }
}

/// `r` is an admissible answer of `s` to the query `after`.
pub open spec fn is_next(s: Schedule, after: int, r: Option<int>) -> bool
    decreases s,
{
    match s {
        Schedule::OneTime(o) => r == one_time::one_time_next(o, after),
        Schedule::Interval(iv) => r == interval::interval_next(iv, after),
        Schedule::RandomInterval(ri) => random_interval::is_random_next(ri, after, r),
        Schedule::Cron(c) => cron::is_cron_next(c, after, r),
        Schedule::Combined(cs) => exists |answers: Seq<Option<int>>|
            {
                &&& answers.len() == cs.schedules@.len()
                &&& (forall |i: int| 0 <= i < answers.len() ==> is_next(
                    cs.schedules@[i],
                    after,
                    #[trigger] answers[i],
                ))
                &&& r == seq_opt_min(answers)
            },
    }
}

/// Querying a schedule without a random component is idempotent: any two
/// admissible answers to the same query are equal, so repeated calls of
/// `next_occurrence` with the same argument yield identical results.
pub proof fn lemma_next_deterministic(s: Schedule, after: int, r1: Option<int>, r2: Option<int>)
    requires
        is_deterministic(s),
        is_next(s, after, r1),
        is_next(s, after, r2),
    ensures
        r1 == r2,
    decreases s,
{
    match s {
        Schedule::OneTime(_) => {},
        Schedule::Interval(_) => {},
        Schedule::RandomInterval(_) => {},
        Schedule::Cron(c) => {
            if r1 != r2 {
                match (r1, r2) {
                    (Some(t1), Some(t2)) => {
                        assert(cron::matches_at(c, t1) && cron::matches_at(c, t2));
                        assert(false);
                    },
                    (Some(t1), None) => {
                        assert(cron::matches_at(c, t1));
                        assert(false);
                    },
                    (None, Some(t2)) => {
                        assert(cron::matches_at(c, t2));
                        assert(false);
                    },
                    (None, None) => {},
                }
            }
        },
        Schedule::Combined(cs) => {
            let a1 = choose |answers: Seq<Option<int>>|
                {
                    &&& answers.len() == cs.schedules@.len()
                    &&& (forall |i: int| 0 <= i < answers.len() ==> is_next(
                        cs.schedules@[i],
                        after,
                        #[trigger] answers[i],
                    ))
                    &&& r1 == seq_opt_min(answers)
                };
            let a2 = choose |answers: Seq<Option<int>>|
                {
                    &&& answers.len() == cs.schedules@.len()
                    &&& (forall |i: int| 0 <= i < answers.len() ==> is_next(
                        cs.schedules@[i],
                        after,
                        #[trigger] answers[i],
                    ))
                    &&& r2 == seq_opt_min(answers)
                };
            assert forall |i: int| 0 <= i < a1.len() implies a1[i] == a2[i] by {
                lemma_next_deterministic(cs.schedules@[i], after, a1[i], a2[i]);
            }
            assert(a1 =~= a2);
        },
    }
}

/// A minimum over a sequence is attained by some element.
proof fn lemma_seq_opt_min_member(s: Seq<Option<int>>, t: int)
    requires
        seq_opt_min(s) == Some(t),
    ensures
        exists |i: int| 0 <= i < s.len() && s[i] == Some(t),
    decreases s.len(),
{
    if s.len() > 0 {
        if s.last() == Some(t) && seq_opt_min(s) == s.last() {
            assert(s[s.len() - 1] == Some(t));
        } else {
            lemma_seq_opt_min_member(s.drop_last(), t);
            let i = choose |i: int| 0 <= i < s.drop_last().len() && s.drop_last()[i] == Some(t);
            assert(s[i] == Some(t));
        }
    }
}

/// A schedule without a random component never answers with an instant at or
/// before the query: whatever occurrence it yields lies strictly after
/// `after`.
pub proof fn lemma_next_strictly_after(s: Schedule, after: int, t: int)
    requires
        schedule_wf(s),
        is_deterministic(s),
        is_next(s, after, Some(t)),
    ensures
        t > after,
    decreases s,
{
    match s {
        Schedule::OneTime(_) => {},
        Schedule::Interval(iv) => {
            if after >= iv.start_time@ {
                interval::lemma_interval_aligned(iv, after, t);
            }
        },
        Schedule::RandomInterval(_) => {},
        Schedule::Cron(_) => {},
        Schedule::Combined(cs) => {
            let answers = choose |answers: Seq<Option<int>>|
                {
                    &&& answers.len() == cs.schedules@.len()
                    &&& (forall |i: int| 0 <= i < answers.len() ==> is_next(
                        cs.schedules@[i],
                        after,
                        #[trigger] answers[i],
                    ))
                    &&& Some(t) == seq_opt_min(answers)
                };
            lemma_seq_opt_min_member(answers, t);
            let i = choose |i: int| 0 <= i < answers.len() && answers[i] == Some(t);
            lemma_next_strictly_after(cs.schedules@[i], after, t);
        },
    }
}

impl Schedule {
    /// The earliest occurrence strictly after `after`, or `None` when no
    /// future occurrence exists in the supported range.
    pub fn next_occurrence(&self, after: Timestamp) -> (r: Option<Timestamp>)
        requires
            schedule_wf(*self),
            -1 <= after@ <= calendar::max_epoch(),
        ensures
            is_next(*self, after@, opt_secs(r)),
            r matches Some(t) ==> t.wf(),
        decreases *self,
    {
        match self {
            Schedule::OneTime(o) => o.next_occurrence(after),
            Schedule::Interval(iv) => iv.next_occurrence(after),
            Schedule::RandomInterval(ri) => ri.next_occurrence(after),
            Schedule::Cron(c) => c.next_occurrence(after),
            Schedule::Combined(cs) => cs.next_occurrence(after),
        }
    }
}

} // verus!
