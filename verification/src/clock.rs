//! Points in time.

use vstd::prelude::*;

verus! {

/// A point in time, in UTC.
#[derive(Debug, Clone, Copy, PartialEq, Eq, Structural)]
pub struct Timestamp {
    /// Whole seconds since the Unix epoch.
    pub unix_seconds: i64,
    /// Nanoseconds since the last whole second.
    pub subsec_nanos: u32,
}

/// `Utc::now` reads the system clock, with a fraction below one second. Which
/// time it is, nothing can say; it panics on a clock before the Unix epoch.
#[verifier::external_body]
pub(crate) fn utc_now() -> (r: Timestamp)
    ensures
        r.subsec_nanos < 1_000_000_000,
{
    let now = chrono::Utc::now();
    Timestamp { unix_seconds: now.timestamp(), subsec_nanos: now.timestamp_subsec_nanos() }
}

} // verus!
