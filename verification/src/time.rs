use vstd::prelude::*;

verus! {

/// A point in time, counted in non-leap milliseconds since the Unix epoch
/// (negative values lie before it).
///
/// Timestamps key the status timeline of a lead and date its tasks; the
/// store itself never interprets them beyond their order.
#[derive(Clone, Copy, Debug, Hash, PartialEq, Eq, Structural)]
pub struct Timestamp {
    pub millis: i64,
}

impl Timestamp {
    pub fn new(millis: i64) -> (t: Timestamp)
        ensures
            t.millis == millis,
    {
        Timestamp { millis }
    }
}

/// The current instant, used only to seed a fresh lead's timeline.
///
/// Relies on `chrono::Utc::now` for the reading and on
/// `chrono::DateTime::timestamp_millis` to count it in milliseconds since
/// the Unix epoch. The clock decides the value, so nothing is promised of
/// it; `chrono::Utc::now` aborts if the system clock reads before the epoch.
#[verifier::external_body]
pub(crate) fn now() -> Timestamp {
    Timestamp { millis: chrono::Utc::now().timestamp_millis() }
}

} // verus!
