use vstd::prelude::*;

verus! {

/// An instant, in milliseconds since the Unix epoch (UTC).
#[derive(Debug, Clone, Copy, PartialEq, Eq, Structural)]
pub struct Time(pub i64);

/// The instants that a calendar date can stand for.
pub open spec fn is_calendar_time(t: Time) -> bool {
    -10_000_000_000_000_000 < t.0 < 10_000_000_000_000_000
}

impl Time {
    /// The current instant.
    ///
    /// Calls `chrono::Utc::now` and reads its millisecond timestamp. Which
    /// instant comes out depends on the clock of the machine; the contract
    /// states only the range that chrono's dates span (years between
    /// `MIN_YEAR` and `MAX_YEAR`, about 262 thousand years on either side of
    /// the epoch), well within ten million billion milliseconds.
    #[verifier::external_body]
    pub fn now() -> (t: Time)
        ensures
            is_calendar_time(t),
    {
        Time(chrono::Utc::now().timestamp_millis())
    }

    /// The instant `ms` milliseconds after this one.
    pub fn plus_millis(self, ms: i64) -> (t: Time)
        requires
            i64::MIN <= self.0 + ms <= i64::MAX,
        ensures
            t.0 == self.0 + ms,
    {
        Time(self.0 + ms)
    }
}

} // verus!
