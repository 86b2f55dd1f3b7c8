use vstd::prelude::*;

verus! {

/// An instant in UTC: whole seconds since the Unix epoch and the nanoseconds
/// within that second. Timestamps compare chronologically.
#[derive(Clone, Copy, Debug, PartialEq, Eq, PartialOrd, Ord, Structural)]
pub struct Timestamp {
    pub secs: i64,
    pub nanos: u32,
}

impl Timestamp {
    /// What holds of every instant that the clock gives: its nanoseconds lie within the
    /// second.
    pub open spec fn of_clock(self) -> bool {
        self.nanos < 1_000_000_000
    }
}

/// Calls `chrono::Utc::now` and reads the instant with `DateTime::timestamp` and
/// `DateTime::timestamp_subsec_nanos`. The instant is the machine's, so nothing is
/// claimed of it but that the clock yields no leap second: the nanoseconds stay
/// below one second. The call panics where the system clock stands before 1970.
#[verifier::external_body]
pub(crate) fn now() -> (instant: Timestamp)
    ensures
        instant.of_clock(),
{
    let instant = chrono::Utc::now();
    Timestamp { secs: instant.timestamp(), nanos: instant.timestamp_subsec_nanos() }
}

} // verus!
