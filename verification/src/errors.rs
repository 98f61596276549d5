//! Construction-time validation failures.
//!
//! Every error is returned by a fallible constructor; occurrence computation
//! itself never fails (a missing next occurrence is a normal `None`).
use vstd::prelude::*;

verus! {

#[derive(Clone, Copy, PartialEq, Eq, Structural, Debug)]
pub enum SchedulerError {
    /// Structurally inconsistent parameters, such as a minimum interval above
    /// the maximum, or a job built without a schedule or task.
    InvalidConfiguration,
    /// A one-time schedule's target is not in the future at construction.
    TimeInPast,
    /// A supplied interval is zero.
    InvalidDuration,
    /// Reserved for invalid repeat-count configuration; no path raises it yet.
    InvalidRepetition,
    /// A malformed calendar field combination or an out-of-range instant.
    InvalidDateTime,
}

} // verus!
