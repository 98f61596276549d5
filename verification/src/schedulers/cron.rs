//! A calendar schedule: a conjunction of optional field constraints.
//!
//! An instant matches when its minute, hour, day of month, month and weekday
//! each equal the corresponding constraint, unset constraints matching
//! anything. The search walks a civil-time candidate forward, one field jump
//! at a time, and is proved to return the smallest matching instant; a
//! constraint set with no matching instant in the supported range (such as
//! day 31 in month 2) yields `None` once the search passes the last year.
use vstd::prelude::*;
use crate::calendar;
use crate::calendar::CivilTime;
use crate::errors::SchedulerError;
use crate::time::Timestamp;
use super::opt_secs;

verus! {

#[derive(Clone, Copy, PartialEq, Eq, Structural, Debug)]
pub struct CronSchedule {
    /// Minute of the hour, 0 to 59.
    pub minute: Option<u8>,
    /// Hour of the day, 0 to 23.
    pub hour: Option<u8>,
    /// Day of the month, 1 to 31.
    pub day: Option<u8>,
    /// Month of the year, 1 to 12.
    pub month: Option<u8>,
    /// Day of the week, 0 = Monday to 6 = Sunday.
    pub weekday: Option<u8>,
}

/// An unset constraint matches anything; a set one matches its value alone.
pub open spec fn field_ok(req: Option<u8>, v: int) -> bool {
    match req {
        Some(x) => v == x as int,
        None => true,
    }
}

/// The civil time satisfies every set constraint.
pub open spec fn cron_matches(s: CronSchedule, c: CivilTime) -> bool {
    &&& field_ok(s.month, c.month as int)
    &&& field_ok(s.day, c.day as int)
    &&& field_ok(s.weekday, calendar::weekday_of(c))
    &&& field_ok(s.hour, c.hour as int)
    &&& field_ok(s.minute, c.minute as int)
}

/// Some valid civil time denotes the instant `t` and satisfies the schedule.
pub open spec fn matches_at(s: CronSchedule, t: int) -> bool {
    exists |c: CivilTime|
        (#[trigger] calendar::civil_secs(c)) == t && calendar::valid_civil(c) && cron_matches(s, c)
}

/// `r` is the correct answer to the query `after`: the smallest matching
/// instant strictly after `after`, or `None` when no instant of the supported
/// range past `after` matches.
pub open spec fn is_cron_next(s: CronSchedule, after: int, r: Option<int>) -> bool {
    match r {
        Some(t) => {
            &&& after < t <= calendar::max_epoch()
            &&& matches_at(s, t)
            &&& forall |u: int| after < u < t ==> !(#[trigger] matches_at(s, u))
        },
        None => forall |u: int| after < u <= calendar::max_epoch() ==> !(#[trigger] matches_at(
            s,
            u,
        )),
    }
}

/// Instants of `[civil_secs(c1), civil_secs(c2))` are exactly those whose
/// civil time lies field-wise in `[c1, c2)`; when none of the latter match,
/// none of the former do.
proof fn lemma_no_match_in_span(s: CronSchedule, c1: CivilTime, c2: CivilTime)
    requires
        calendar::civil_in_range(c1),
        calendar::civil_in_range(c2),
        forall |cu: CivilTime|
            calendar::valid_civil(cu) && !calendar::civil_lt(cu, c1) && calendar::civil_lt(
                cu,
                c2,
            ) ==> !(#[trigger] cron_matches(s, cu)),
    ensures
        forall |u: int|
            calendar::civil_secs(c1) <= u < calendar::civil_secs(c2) ==> !(#[trigger] matches_at(
                s,
                u,
            )),
{
    assert forall |u: int|
        calendar::civil_secs(c1) <= u < calendar::civil_secs(c2) implies !matches_at(s, u) by {
        if matches_at(s, u) {
            let cu = choose |cu: CivilTime|
                (#[trigger] calendar::civil_secs(cu)) == u && calendar::valid_civil(cu)
                    && cron_matches(s, cu);
            if calendar::civil_lt(cu, c1) {
                calendar::lemma_civil_secs_lt(cu, c1);
            }
            if !calendar::civil_lt(cu, c2) {
                if cu != c2 {
                    assert(calendar::civil_lt(c2, cu));
                    calendar::lemma_civil_secs_lt(c2, cu);
                }
                assert(false);
            }
            assert(!cron_matches(s, cu));
            assert(false);
        }
    }
}

impl CronSchedule {
    /// Every set constraint lies in its field's range.
    pub open spec fn wf(&self) -> bool {
        &&& match self.minute {
            Some(m) => m <= 59,
            None => true,
        }
        &&& match self.hour {
            Some(h) => h <= 23,
            None => true,
        }
        &&& match self.day {
            Some(d) => 1 <= d <= 31,
            None => true,
        }
        &&& match self.month {
            Some(m) => 1 <= m <= 12,
            None => true,
        }
        &&& match self.weekday {
            Some(w) => w <= 6,
            None => true,
        }
    }

    /// The all-wildcard schedule: every instant matches.
    pub fn new() -> (r: CronSchedule)
        ensures
            r == (CronSchedule { minute: None, hour: None, day: None, month: None, weekday: None }),
            r.wf(),
    {
        CronSchedule { minute: None, hour: None, day: None, month: None, weekday: None }
    }

    /// The same schedule constrained to the given minute of the hour,
    /// rejected when the value is not below 60.
    pub fn minute(self, minute: u32) -> (r: Result<CronSchedule, SchedulerError>)
        ensures
            match r {
                Ok(s) => minute < 60 && s == (CronSchedule {
                    minute: Some(minute as u8),
                    ..self
                }),
                Err(e) => e == SchedulerError::InvalidConfiguration && minute >= 60,
            },
    {
        if minute >= 60 {
            Err(SchedulerError::InvalidConfiguration)
        } else {
            Ok(
                CronSchedule {
                    minute: Some(minute as u8),
                    hour: self.hour,
                    day: self.day,
                    month: self.month,
                    weekday: self.weekday,
                },
            )
        }
    }

    /// The same schedule constrained to the given hour of the day, rejected
    /// when the value is not below 24.
    pub fn hour(self, hour: u32) -> (r: Result<CronSchedule, SchedulerError>)
        ensures
            match r {
                Ok(s) => hour < 24 && s == (CronSchedule { hour: Some(hour as u8), ..self }),
                Err(e) => e == SchedulerError::InvalidConfiguration && hour >= 24,
            },
    {
        if hour >= 24 {
            Err(SchedulerError::InvalidConfiguration)
        } else {
            Ok(
                CronSchedule {
                    minute: self.minute,
                    hour: Some(hour as u8),
                    day: self.day,
                    month: self.month,
                    weekday: self.weekday,
                },
            )
        }
    }

    /// The same schedule constrained to the given day of the month, rejected
    /// when the value is not between 1 and 31.
    pub fn day(self, day: u32) -> (r: Result<CronSchedule, SchedulerError>)
        ensures
            match r {
                Ok(s) => 1 <= day <= 31 && s == (CronSchedule { day: Some(day as u8), ..self }),
                Err(e) => e == SchedulerError::InvalidConfiguration && (day == 0 || day > 31),
            },
    {
        if day == 0 || day > 31 {
            Err(SchedulerError::InvalidConfiguration)
        } else {
            Ok(
                CronSchedule {
                    minute: self.minute,
                    hour: self.hour,
                    day: Some(day as u8),
                    month: self.month,
                    weekday: self.weekday,
                },
            )
        }
    }

    /// The same schedule constrained to the given month, rejected when the
    /// value is not between 1 and 12.
    pub fn month(self, month: u32) -> (r: Result<CronSchedule, SchedulerError>)
        ensures
            match r {
                Ok(s) => 1 <= month <= 12 && s == (CronSchedule {
                    month: Some(month as u8),
                    ..self
                }),
                Err(e) => e == SchedulerError::InvalidConfiguration && (month == 0 || month > 12),
            },
    {
        if month == 0 || month > 12 {
            Err(SchedulerError::InvalidConfiguration)
        } else {
            Ok(
                CronSchedule {
                    minute: self.minute,
                    hour: self.hour,
                    day: self.day,
                    month: Some(month as u8),
                    weekday: self.weekday,
                },
            )
        }
    }

    /// The same schedule constrained to the given day of the week (0 =
    /// Monday), rejected when the value is not below 7.
    pub fn weekday(self, weekday: u32) -> (r: Result<CronSchedule, SchedulerError>)
        ensures
            match r {
                Ok(s) => weekday < 7 && s == (CronSchedule {
                    weekday: Some(weekday as u8),
                    ..self
                }),
                Err(e) => e == SchedulerError::InvalidConfiguration && weekday >= 7,
            },
    {
        if weekday >= 7 {
            Err(SchedulerError::InvalidConfiguration)
        } else {
            Ok(
                CronSchedule {
                    minute: self.minute,
                    hour: self.hour,
                    day: self.day,
                    month: self.month,
                    weekday: Some(weekday as u8),
                },
            )
        }
    }

    /// The smallest matching instant strictly after `after`, or `None` when
    /// no instant of the supported range past `after` matches.
    pub fn next_occurrence(&self, after: Timestamp) -> (r: Option<Timestamp>)
        requires
            self.wf(),
            -1 <= after@ <= calendar::max_epoch(),
        ensures
            is_cron_next(*self, after@, opt_secs(r)),
            r matches Some(t) ==> t.wf(),
    {
        let max = calendar::max_epoch_seconds();
        if after.secs >= max {
            return None;
        }
        let mut c = calendar::civil_from_secs(after.secs + 1);
        loop
            invariant
                self.wf(),
                -1 <= after@ < calendar::max_epoch(),
                calendar::civil_in_range(c),
                c.year <= 10000,
                after@ < calendar::civil_secs(c),
                forall |u: int| after@ < u < calendar::civil_secs(c) ==> !(
                #[trigger] matches_at(*self, u)),
            decreases
                    10001 - c.year as int,
                    13 - c.month as int,
                    32 - c.day as int,
                    24 - c.hour as int,
                    60 - c.minute as int,
                    60 - c.second as int,
        {
            if c.year > 9999 {
                proof {
                    calendar::lemma_civil_secs_lt(calendar::last_civil(), c);
                }
                return None;
            }
            if let Some(m) = self.month {
                if c.month < m {
                    let c2 = CivilTime {
                        year: c.year,
                        month: m,
                        day: 1,
                        hour: 0,
                        minute: 0,
                        second: 0,
                    };
                    proof {
                        self.advance(c, c2);
                    }
                    c = c2;
                    continue;
                }
                if c.month > m {
                    let c2 = CivilTime {
                        year: c.year + 1,
                        month: 1,
                        day: 1,
                        hour: 0,
                        minute: 0,
                        second: 0,
                    };
                    proof {
                        self.advance(c, c2);
                    }
                    c = c2;
                    continue;
                }
            }
            if let Some(d) = self.day {
                if c.day < d && d <= calendar::month_length(c.year, c.month) {
                    let c2 = CivilTime {
                        year: c.year,
                        month: c.month,
                        day: d,
                        hour: 0,
                        minute: 0,
                        second: 0,
                    };
                    proof {
                        self.advance(c, c2);
                    }
                    c = c2;
                    continue;
                }
                if c.day != d {
                    // the wanted day is behind the candidate or absent from
                    // this month: move to the start of the next month
                    let c2 = if c.month < 12 {
                        CivilTime {
                            year: c.year,
                            month: c.month + 1,
                            day: 1,
                            hour: 0,
                            minute: 0,
                            second: 0,
                        }
                    } else {
                        CivilTime {
                            year: c.year + 1,
                            month: 1,
                            day: 1,
                            hour: 0,
                            minute: 0,
                            second: 0,
                        }
                    };
                    proof {
                        self.advance(c, c2);
                    }
                    c = c2;
                    continue;
                }
            }
            if let Some(w) = self.weekday {
                let wd = calendar::weekday_number(c);
                if wd != w {
                    let c2 = Self::next_day_start(c);
                    proof {
                        self.advance(c, c2);
                    }
                    c = c2;
                    continue;
                }
            }
            if let Some(h) = self.hour {
                if c.hour < h {
                    let c2 = CivilTime {
                        year: c.year,
                        month: c.month,
                        day: c.day,
                        hour: h,
                        minute: 0,
                        second: 0,
                    };
                    proof {
                        self.advance(c, c2);
                    }
                    c = c2;
                    continue;
                }
                if c.hour > h {
                    let c2 = Self::next_day_start(c);
                    proof {
                        self.advance(c, c2);
                    }
                    c = c2;
                    continue;
                }
            }
            if let Some(mi) = self.minute {
                if c.minute < mi {
                    let c2 = CivilTime {
                        year: c.year,
                        month: c.month,
                        day: c.day,
                        hour: c.hour,
                        minute: mi,
                        second: 0,
                    };
                    proof {
                        self.advance(c, c2);
                    }
                    c = c2;
                    continue;
                }
                if c.minute > mi {
                    let c2 = if c.hour < 23 {
                        CivilTime {
                            year: c.year,
                            month: c.month,
                            day: c.day,
                            hour: c.hour + 1,
                            minute: 0,
                            second: 0,
                        }
                    } else {
                        Self::next_day_start(c)
                    };
                    proof {
                        self.advance(c, c2);
                    }
                    c = c2;
                    continue;
                }
            }
            proof {
                calendar::lemma_civil_secs_in_range(c);
                assert(cron_matches(*self, c));
            }
            let t = Timestamp { secs: calendar::civil_to_secs(c) };
            proof {
                assert(calendar::civil_secs(c) == t@ && calendar::valid_civil(c) && cron_matches(
                    *self,
                    c,
                ));
                assert(matches_at(*self, t@));
            }
            return Some(t);
        }
    }

    /// Midnight of the calendar day after `c`'s.
    fn next_day_start(c: CivilTime) -> (r: CivilTime)
        requires
            calendar::civil_in_range(c),
            c.year <= 9999,
        ensures
            calendar::civil_in_range(r),
            r.year <= 10000,
            r.hour == 0 && r.minute == 0 && r.second == 0,
            if c.day < calendar::days_in_month(c.year as int, c.month as int) {
                r == (CivilTime {
                    year: c.year,
                    month: c.month,
                    day: (c.day + 1) as u8,
                    hour: 0,
                    minute: 0,
                    second: 0,
                })
            } else if c.month < 12 {
                r == (CivilTime {
                    year: c.year,
                    month: (c.month + 1) as u8,
                    day: 1,
                    hour: 0,
                    minute: 0,
                    second: 0,
                })
            } else {
                r == (CivilTime {
                    year: (c.year + 1) as u16,
                    month: 1,
                    day: 1,
                    hour: 0,
                    minute: 0,
                    second: 0,
                })
            },
    {
        if c.day < calendar::month_length(c.year, c.month) {
            CivilTime { year: c.year, month: c.month, day: c.day + 1, hour: 0, minute: 0, second: 0 }
        } else if c.month < 12 {
            CivilTime { year: c.year, month: c.month + 1, day: 1, hour: 0, minute: 0, second: 0 }
        } else {
            CivilTime { year: c.year + 1, month: 1, day: 1, hour: 0, minute: 0, second: 0 }
        }
    }

    /// With only an hour `H` and a minute `M` set, and a query instant that
    /// does not itself lie inside a matching minute with seconds to spare,
    /// the answer exists, lies at most one day ahead, and is an instant with
    /// hour `H`, minute `M` and second zero — by `is_cron_next` the smallest
    /// With only an hour and a minute set, some instant of the day after
    /// `ac`'s matches.
    proof fn lemma_day_witness(&self, ac: CivilTime) -> (cw: CivilTime)
        requires
            self.hour is Some,
            self.minute is Some,
            self.day is None,
            self.month is None,
            self.weekday is None,
            self.wf(),
            calendar::valid_civil(ac),
            calendar::civil_secs(ac) + 86400 <= calendar::max_epoch(),
        ensures
            calendar::valid_civil(cw),
            calendar::civil_secs(ac) < calendar::civil_secs(cw) <= calendar::civil_secs(ac)
                + 86400,
            cron_matches(*self, cw),
            cw.hour == self.hour->Some_0,
            cw.minute == self.minute->Some_0,
            cw.second == 0,
    {
        let h = self.hour->Some_0;
        let mi = self.minute->Some_0;
        let cw = if ac.hour < h || (ac.hour == h && ac.minute < mi) {
            CivilTime {
                year: ac.year,
                month: ac.month,
                day: ac.day,
                hour: h,
                minute: mi,
                second: 0,
            }
        } else if ac.day < calendar::days_in_month(ac.year as int, ac.month as int) {
            CivilTime {
                year: ac.year,
                month: ac.month,
                day: (ac.day + 1) as u8,
                hour: h,
                minute: mi,
                second: 0,
            }
        } else if ac.month < 12 {
            CivilTime {
                year: ac.year,
                month: (ac.month + 1) as u8,
                day: 1,
                hour: h,
                minute: mi,
                second: 0,
            }
        } else {
            CivilTime {
                year: (ac.year + 1) as u16,
                month: 1,
                day: 1,
                hour: h,
                minute: mi,
                second: 0,
            }
        };
        assert(calendar::civil_in_range(cw));
        if !(ac.hour < h || (ac.hour == h && ac.minute < mi)) {
            assert(calendar::civil_days(cw) == calendar::civil_days(ac) + 1);
        }
        assert(calendar::civil_secs(ac) < calendar::civil_secs(cw) <= calendar::civil_secs(ac)
            + 86400);
        if cw.year > 9999 {
            calendar::lemma_civil_secs_lt(calendar::last_civil(), cw);
        }
        cw
    }

    /// With only an hour and a minute set, a smallest matching instant is the
    /// start of its minute, provided the query instant does not itself lie
    /// inside a matching minute with seconds to spare.
    #[verifier::rlimit(100)]
    proof fn lemma_second_zero(&self, ac: CivilTime, t: int, c0: CivilTime)
        requires
            self.hour is Some,
            self.minute is Some,
            self.day is None,
            self.month is None,
            self.weekday is None,
            self.wf(),
            calendar::valid_civil(ac),
            !(ac.hour == self.hour->Some_0 && ac.minute == self.minute->Some_0 && ac.second < 59),
            calendar::civil_secs(ac) < t,
            calendar::valid_civil(c0),
            calendar::civil_secs(c0) == t,
            cron_matches(*self, c0),
            forall |u: int|
                calendar::civil_secs(ac) < u < t ==> !(#[trigger] matches_at(*self, u)),
        ensures
            c0.second == 0,
    {
        let h = self.hour->Some_0;
        let mi = self.minute->Some_0;
        let after = calendar::civil_secs(ac);
        if c0.second != 0 {
            let cz = CivilTime {
                year: c0.year,
                month: c0.month,
                day: c0.day,
                hour: c0.hour,
                minute: c0.minute,
                second: 0,
            };
            calendar::lemma_civil_secs_lt(cz, c0);
            if calendar::civil_secs(cz) <= after {
                calendar::lemma_civil_secs_le(cz, ac);
                if !calendar::civil_lt(ac, c0) {
                    if ac != c0 {
                        calendar::lemma_civil_secs_lt(c0, ac);
                    }
                    assert(false);
                }
                assert(ac.hour == h && ac.minute == mi && ac.second < c0.second);
                assert(false);
            }
            assert(cron_matches(*self, cz));
            assert(matches_at(*self, calendar::civil_secs(cz)));
            assert(false);
        }
    }

    /// With only an hour `H` and a minute `M` set, and a query instant that
    /// does not itself lie inside a matching minute with seconds to spare,
    /// the answer exists, lies at most one day ahead, and is an instant with
    /// hour `H`, minute `M` and second zero — by `is_cron_next` the smallest
    /// matching instant strictly after the query.
    pub proof fn lemma_hour_minute_daily(&self, ac: CivilTime, r: Option<int>)
        requires
            self.hour is Some,
            self.minute is Some,
            self.day is None,
            self.month is None,
            self.weekday is None,
            self.wf(),
            calendar::valid_civil(ac),
            !(ac.hour == self.hour->Some_0 && ac.minute == self.minute->Some_0 && ac.second < 59),
            calendar::civil_secs(ac) + 86400 <= calendar::max_epoch(),
            is_cron_next(*self, calendar::civil_secs(ac), r),
        ensures
            r is Some,
            r->Some_0 <= calendar::civil_secs(ac) + 86400,
            exists |c: CivilTime|
                {
                    &&& calendar::valid_civil(c)
                    &&& (#[trigger] calendar::civil_secs(c)) == r->Some_0
                    &&& c.hour == self.hour->Some_0
                    &&& c.minute == self.minute->Some_0
                    &&& c.second == 0
                },
    {
        let after = calendar::civil_secs(ac);
        let cw = self.lemma_day_witness(ac);
        assert(matches_at(*self, calendar::civil_secs(cw)));
        calendar::lemma_civil_secs_in_range(cw);
        assert(r is Some);
        let t = r->Some_0;
        assert(t <= calendar::civil_secs(cw));
        let c0 = choose |c: CivilTime|
            (#[trigger] calendar::civil_secs(c)) == t && calendar::valid_civil(c) && cron_matches(
                *self,
                c,
            );
        self.lemma_second_zero(ac, t, c0);
    }

    /// A jump of the search from `c1` to `c2` skips no matching instant.
    proof fn advance(&self, c1: CivilTime, c2: CivilTime)
        requires
            self.wf(),
            calendar::civil_in_range(c1),
            calendar::civil_in_range(c2),
            c1.year <= 9999,
            calendar::civil_lt(c1, c2),
            forall |cu: CivilTime|
                calendar::valid_civil(cu) && !calendar::civil_lt(cu, c1) && calendar::civil_lt(
                    cu,
                    c2,
                ) ==> !(#[trigger] cron_matches(*self, cu)),
        ensures
            calendar::civil_secs(c1) < calendar::civil_secs(c2),
            forall |u: int|
                calendar::civil_secs(c1) <= u < calendar::civil_secs(c2) ==> !(
                #[trigger] matches_at(*self, u)),
    {
        calendar::lemma_civil_secs_lt(c1, c2);
        lemma_no_match_in_span(*self, c1, c2);
    }
}

} // verus!
