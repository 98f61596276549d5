//! Absolute instants, UTC, second resolution.
use vstd::prelude::*;
use crate::calendar;
use crate::calendar::CivilTime;
use crate::errors::SchedulerError;

verus! {

/// An absolute instant: seconds since 1970-01-01T00:00:00Z. Immutable once
/// constructed; the public constructors only produce well-formed values.
#[derive(Clone, Copy, PartialEq, Eq, Structural, Debug)]
pub struct Timestamp {
    pub secs: i64,
}

impl View for Timestamp {
    type V = int;

    open spec fn view(&self) -> int {
        self.secs as int
    }
}

impl Timestamp {
    /// The instant lies in the supported range, 1970 through 9999.
    pub open spec fn wf(&self) -> bool {
        0 <= self.secs <= calendar::max_epoch()
    }

    /// The instant of the given count of seconds since the Unix epoch.
    pub fn from_epoch_seconds(secs: i64) -> (r: Result<Timestamp, SchedulerError>)
        ensures
            match r {
                Ok(t) => t@ == secs && t.wf(),
                Err(e) => e == SchedulerError::InvalidDateTime && !(0 <= secs
                    <= calendar::max_epoch()),
            },
    {
        if 0 <= secs && secs <= calendar::max_epoch_seconds() {
            Ok(Timestamp { secs })
        } else {
            Err(SchedulerError::InvalidDateTime)
        }
    }

    /// The instant of the given civil date and time of day, UTC.
    pub fn from_ymd_hms(year: u16, month: u8, day: u8, hour: u8, minute: u8, second: u8) -> (r:
        Result<Timestamp, SchedulerError>)
        ensures
            ({
                let c = CivilTime { year, month, day, hour, minute, second };
                match r {
                    Ok(t) => calendar::valid_civil(c) && t@ == calendar::civil_secs(c) && t.wf(),
                    Err(e) => e == SchedulerError::InvalidDateTime && !calendar::valid_civil(c),
                }
            }),
    {
        let c = CivilTime { year, month, day, hour, minute, second };
        if 1970 <= year && year <= 9999 && 1 <= month && month <= 12 && 1 <= day && day
            <= calendar::month_length(year, month) && hour <= 23 && minute <= 59 && second <= 59 {
            proof {
                calendar::lemma_civil_secs_in_range(c);
            }
            Ok(Timestamp { secs: calendar::civil_to_secs(c) })
        } else {
            Err(SchedulerError::InvalidDateTime)
        }
    }

    pub fn epoch_seconds(&self) -> (r: i64)
        ensures
            r == self@,
    {
        self.secs
    }

    /// The civil date and time of day of this instant, UTC.
    pub fn civil(&self) -> (c: CivilTime)
        requires
            self.wf(),
        ensures
            calendar::valid_civil(c),
            calendar::civil_secs(c) == self@,
    {
        calendar::civil_from_secs(self.secs)
    }

    /// The current instant, clamped to the supported range.
    pub fn now() -> (r: Timestamp)
        ensures
            r.wf(),
    {
        let raw = now_epoch_seconds();
        let max = calendar::max_epoch_seconds();
        proof {
            calendar::lemma_civil_secs_in_range(calendar::last_civil());
        }
        if raw < 0 {
            Timestamp { secs: 0 }
        } else if raw > max {
            Timestamp { secs: max }
        } else {
            Timestamp { secs: raw }
        }
    }

    /// The instant `d` seconds later, or `None` past the supported range.
    pub fn plus_seconds(&self, d: u64) -> (r: Option<Timestamp>)
        requires
            self.wf(),
        ensures
            match r {
                Some(t) => t@ == self@ + d && t.wf(),
                None => self@ + d > calendar::max_epoch(),
            },
    {
        let max = calendar::max_epoch_seconds();
        if d <= (max - self.secs) as u64 {
            Some(Timestamp { secs: self.secs + d as i64 })
        } else {
            None
        }
    }

    /// The instant `d` seconds earlier, or `None` before the epoch.
    pub fn minus_seconds(&self, d: u64) -> (r: Option<Timestamp>)
        requires
            self.wf(),
        ensures
            match r {
                Some(t) => t@ == self@ - d && t.wf(),
                None => d > self@,
            },
    {
        if d <= self.secs as u64 {
            Some(Timestamp { secs: self.secs - d as i64 })
        } else {
            None
        }
    }
}

/// Relies on `chrono::Utc::now` and `chrono::DateTime::timestamp`: the system
/// clock as a count of seconds since the Unix epoch. Nothing is promised of
/// the value; the clock is outside the model.
#[verifier::external_body]
fn now_epoch_seconds() -> i64 {
    chrono::Utc::now().timestamp()
}

} // verus!
