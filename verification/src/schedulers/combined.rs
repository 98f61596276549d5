//! A schedule composing several schedules into one.
use vstd::prelude::*;
use crate::calendar;
use crate::time::Timestamp;
use super::{
    Schedule, is_deterministic, is_next, lemma_next_deterministic, opt_min, opt_secs, seq_opt_min,
    schedule_wf,
};

verus! {

/// Yields the earliest occurrence across its components: every component is
/// queried with the same instant and the smallest answer wins, a missing
/// answer counting as none.
pub struct CombinedSchedule {
    pub schedules: Vec<Schedule>,
}

impl CombinedSchedule {
    pub open spec fn wf(&self) -> bool {
        forall |i: int| 0 <= i < self.schedules@.len() ==> schedule_wf(
            #[trigger] self.schedules@[i],
        )
    }

    pub fn new(schedules: Vec<Schedule>) -> (r: CombinedSchedule)
        ensures
            r.schedules == schedules,
    {
        CombinedSchedule { schedules }
    }

    /// The earliest occurrence strictly after `after` across the components:
    /// the minimum of some sequence of component answers.
    pub fn next_occurrence(&self, after: Timestamp) -> (r: Option<Timestamp>)
        requires
            self.wf(),
            -1 <= after@ <= calendar::max_epoch(),
        ensures
            exists |answers: Seq<Option<int>>|
                {
                    &&& answers.len() == self.schedules@.len()
                    &&& (forall |i: int| 0 <= i < answers.len() ==> is_next(
                        self.schedules@[i],
                        after@,
                        #[trigger] answers[i],
                    ))
                    &&& opt_secs(r) == seq_opt_min(answers)
                },
            r matches Some(t) ==> t.wf(),
        decreases *self,
    {
        let ghost mut answers: Seq<Option<int>> = Seq::empty();
        let mut earliest: Option<Timestamp> = None;
        let mut i: usize = 0;
        while i < self.schedules.len()
            invariant
                self.wf(),
                -1 <= after@ <= calendar::max_epoch(),
                i <= self.schedules@.len(),
                answers.len() == i,
                forall |j: int| 0 <= j < i as int ==> is_next(
                    self.schedules@[j],
                    after@,
                    #[trigger] answers[j],
                ),
                opt_secs(earliest) == seq_opt_min(answers),
                earliest matches Some(t) ==> t.wf(),
            decreases self.schedules@.len() - i,
        {
            let next = self.schedules[i].next_occurrence(after);
            proof {
                let prev = answers;
                answers = answers.push(opt_secs(next));
                assert(answers.drop_last() =~= prev);
            }
            earliest = match (earliest, next) {
                (None, _) => next,
                (Some(e), None) => Some(e),
                (Some(e), Some(n)) => if n.secs <= e.secs {
                    Some(n)
                } else {
                    Some(e)
                },
            };
            i = i + 1;
        }
        earliest
    }
}

/// Over two deterministic schedules A and B, the combined answer is the
/// smaller of A's and B's answers, a missing one counting as plus infinity;
/// in particular it is `None` exactly when both are `None`.
pub proof fn lemma_combined_pair(
    cs: CombinedSchedule,
    after: int,
    r: Option<int>,
    ra: Option<int>,
    rb: Option<int>,
)
    requires
        cs.schedules@.len() == 2,
        is_deterministic(cs.schedules@[0]),
        is_deterministic(cs.schedules@[1]),
        is_next(Schedule::Combined(cs), after, r),
        is_next(cs.schedules@[0], after, ra),
        is_next(cs.schedules@[1], after, rb),
    ensures
        r == opt_min(ra, rb),
        r is None <==> (ra is None && rb is None),
{
    let answers = choose |answers: Seq<Option<int>>|
        {
            &&& answers.len() == cs.schedules@.len()
            &&& (forall |i: int| 0 <= i < answers.len() ==> is_next(
                cs.schedules@[i],
                after,
                #[trigger] answers[i],
            ))
            &&& r == seq_opt_min(answers)
        };
    reveal_with_fuel(seq_opt_min, 4);
    lemma_next_deterministic(cs.schedules@[0], after, answers[0], ra);
    lemma_next_deterministic(cs.schedules@[1], after, answers[1], rb);
    assert(answers.drop_last().len() == 1 && answers.drop_last()[0] == ra);
    assert(answers.drop_last().drop_last().len() == 0);
    assert(seq_opt_min(answers.drop_last()) == opt_min(None, ra));
    assert(r == opt_min(opt_min(None, ra), rb));
}

} // verus!
