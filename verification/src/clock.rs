//! The system clock, the one ambient input of the resolvers and the
//! formatter.

use vstd::prelude::*;

use chrono::Timelike;

use crate::TimeOfDay;

verus! {

/// Reads the current local time of day.
///
/// Relies on `chrono::Local::now` and the `chrono::Timelike` accessors:
/// `hour()` is 0 to 23, `minute()` 0 to 59, and `second()` 0 to 59, even
/// during a leap second.
#[verifier::external_body]
pub fn local_time_of_day() -> (now: TimeOfDay)
    ensures
        now.wf(),
{
    let t = chrono::Local::now().time();
    TimeOfDay { hour: t.hour(), minute: t.minute(), second: t.second() }
}

} // verus!
