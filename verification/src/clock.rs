//! The clock: how far the civil date and time now lie from a reference date.

use vstd::prelude::*;

verus! {

/// Reads the system clock into `jiff::Zoned` (`Zoned::try_from` of
/// `SystemTime::now()`, in the system's time zone) and measures with
/// `DateTime::duration_since` and `SignedDuration::as_nanos` the nanoseconds from
/// midnight of the civil date `year`-`month`-`day` (`jiff::civil::Date::new`) to the
/// civil date and time now.
///
/// Trusted: nothing is claimed of the result, which differs from call to call;
/// `None` stands for a date that jiff rejects or a clock that it cannot represent.
#[verifier::external_body]
pub(crate) fn civil_nanos_since(year: i16, month: i8, day: i8) -> (elapsed: Option<i128>) {
    let midnight = jiff::civil::Time::midnight();
    let reference = jiff::civil::Date::new(year, month, day).ok()?.to_datetime(midnight);
    let now = jiff::Zoned::try_from(std::time::SystemTime::now()).ok()?;
    Some(now.datetime().duration_since(reference).as_nanos())
}

} // verus!
