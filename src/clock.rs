//! The wall clock.
use vstd::prelude::*;

verus! {

/// Relies on chrono's `From<SystemTime> for DateTime<Utc>` and
/// `DateTime::timestamp`: the current time as whole seconds since the Unix
/// epoch, negative for a clock set before 1970. Nothing is promised of its
/// value. The conversion fails only for a clock outside chrono's range of
/// about 262,000 years either side of year 0.
#[verifier::external_body]
pub(crate) fn now_timestamp() -> (r: i64) {
    chrono::DateTime::<chrono::Utc>::from(std::time::SystemTime::now()).timestamp()
}

} // verus!
