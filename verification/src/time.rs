//! Points in time.
use vstd::prelude::*;

verus! {

/// A point in time in UTC: whole seconds since 1970-01-01T00:00:00Z, and the nanoseconds behind
/// them.
#[derive(Clone, Copy, Debug, PartialEq, Eq, Structural)]
pub struct DateTime {
    pub timestamp: i64,
    pub nanos: u32,
}

/// The value of a GeneralizedTime in UTC.
#[derive(Clone, Copy, Debug, PartialEq, Eq, Structural)]
pub struct GeneralizedTime {
    pub instant: DateTime,
}

/// A time as a certificate gives it.
#[derive(Clone, Copy, Debug, PartialEq, Eq, Structural)]
pub enum Time {
    UtcTime(DateTime),
    GeneralTime(GeneralizedTime),
}

/// The point in time that `t` names.
pub open spec fn instant_of(t: Time) -> DateTime {
    match t {
        Time::UtcTime(u) => u,
        Time::GeneralTime(gt) => gt.instant,
    }
}

/// The point in time of a GeneralizedTime.
pub fn gt_to_datetime(gt: GeneralizedTime) -> (res: DateTime)
    ensures
        res == gt.instant,
{
    gt.instant
}

/// The point in time of either kind of certificate time.
pub fn time_to_datetime(t: Time) -> (res: DateTime)
    ensures
        res == instant_of(t),
{
    match t {
        Time::UtcTime(u) => u,
        Time::GeneralTime(gt) => gt_to_datetime(gt),
    }
}

} // verus!
