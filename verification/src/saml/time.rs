//! Instants and spans of time.

use vstd::prelude::*;

verus! {

/// Nanoseconds in a second.
pub const NANOS: i128 = 1_000_000_000;

/// The first second an instant can lie in, from the Unix epoch.
pub const FIRST_SECOND: i128 = -8_334_601_228_800;

/// The last second an instant can lie in, from the Unix epoch.
pub const LAST_SECOND: i128 = 8_210_266_876_799;

/// A moment in time, in nanoseconds from the Unix epoch.
#[derive(Debug, Clone, Copy, PartialEq, Eq, PartialOrd, Ord, Structural)]
pub struct Instant {
    /// Nanoseconds from the Unix epoch.
    pub nanos: i128,
}

/// A span of time, in nanoseconds; it may be negative.
#[derive(Debug, Clone, Copy, PartialEq, Eq, PartialOrd, Ord, Structural)]
pub struct TimeDelta {
    /// Nanoseconds.
    pub nanos: i128,
}

/// The text of a second from the Unix epoch: date and time in UTC as RFC 3339
/// has them, without fractions, ending in `Z`.
pub uninterp spec fn utc_text(second: int) -> Seq<char>;

/// `chrono::DateTime::from_timestamp` followed by `to_rfc3339_opts` with whole
/// seconds and `Z` gives the text of a second within chrono's range; it
/// depends on the second alone.
#[verifier::external_body]
fn chrono_text(second: i64) -> (result: String)
    requires
        FIRST_SECOND <= second <= LAST_SECOND,
    ensures
        result@ == utc_text(second as int),
{
    let at = chrono::DateTime::from_timestamp(second, 0).unwrap();
    at.to_rfc3339_opts(chrono::SecondsFormat::Secs, true)
}

/// `chrono::Utc::now` reads the system clock: whole seconds from the Unix
/// epoch, not before it and within chrono's range, and the nanoseconds past
/// the second.
#[verifier::external_body]
fn chrono_now() -> (result: (i64, u32))
    ensures
        0 <= result.0 <= LAST_SECOND,
        result.1 < NANOS,
{
    let now = chrono::Utc::now();
    (now.timestamp(), now.timestamp_subsec_nanos())
}

/// The second an instant lies in.
pub open spec fn second_of(nanos: int) -> int {
    nanos / (NANOS as int)
}

impl Instant {
    /// Whether the instant is one that a date can be given for.
    pub open spec fn in_range(self) -> bool {
        FIRST_SECOND <= second_of(self.nanos as int) <= LAST_SECOND
    }

    /// The text of the instant, cut to whole seconds.
    pub open spec fn text(self) -> Seq<char> {
        utc_text(second_of(self.nanos as int))
    }

    /// The instant some seconds and nanoseconds from the Unix epoch.
    pub fn from_timestamp(seconds: i64, nanos: u32) -> (result: Instant)
        ensures
            result.nanos == seconds * NANOS + nanos,
    {
        Instant { nanos: seconds as i128 * NANOS + nanos as i128 }
    }

    /// The present moment.
    pub fn now() -> (result: Instant)
        ensures
            result.in_range(),
            result.nanos >= 0,
    {
        let (seconds, nanos) = chrono_now();
        Instant::from_timestamp(seconds, nanos)
    }

    /// The whole seconds from the Unix epoch.
    pub fn timestamp(&self) -> (result: i128)
        ensures
            result == second_of(self.nanos as int),
    {
        let q: i128 = self.nanos / NANOS;
        let r: i128 = self.nanos % NANOS;
        if r < 0 {
            q - 1
        } else {
            q
        }
    }

    /// The instant `delta` later, if it is one that a date can be given for.
    pub fn plus(&self, delta: TimeDelta) -> (result: Option<Instant>)
        ensures
            match result {
                Some(t) => t.nanos == self.nanos + delta.nanos && t.in_range(),
                None => !in_range_nanos(self.nanos + delta.nanos),
            },
    {
        match self.nanos.checked_add(delta.nanos) {
            Some(nanos) => {
                let t = Instant { nanos };
                let second: i128 = t.timestamp();
                if FIRST_SECOND <= second && second <= LAST_SECOND {
                    Some(t)
                } else {
                    None
                }
            },
            None => None,
        }
    }

    /// Whether the instant is one that a date can be given for.
    pub fn is_in_range(&self) -> (result: bool)
        ensures
            result == self.in_range(),
    {
        let second: i128 = self.timestamp();
        FIRST_SECOND <= second && second <= LAST_SECOND
    }

    /// The text of the instant, cut to whole seconds.
    pub fn to_text(&self) -> (result: String)
        requires
            self.in_range(),
        ensures
            result@ == self.text(),
    {
        let second: i128 = self.timestamp();
        chrono_text(second as i64)
    }
}

/// Whether nanoseconds from the Unix epoch name an instant that a date can be
/// given for.
pub open spec fn in_range_nanos(nanos: int) -> bool {
    FIRST_SECOND <= second_of(nanos) <= LAST_SECOND
}

/// The whole seconds of a span, or zero for a negative one.
pub open spec fn lifetime_seconds(nanos: int) -> int {
    if nanos >= 0 {
        nanos / (NANOS as int)
    } else {
        0
    }
}

impl TimeDelta {
    /// A span of seconds.
    pub fn seconds(seconds: i64) -> (result: TimeDelta)
        ensures
            result.nanos == seconds * NANOS,
    {
        TimeDelta { nanos: seconds as i128 * NANOS }
    }

    /// A span of milliseconds.
    pub fn milliseconds(millis: i64) -> (result: TimeDelta)
        ensures
            result.nanos == millis * 1_000_000,
    {
        TimeDelta { nanos: millis as i128 * 1_000_000 }
    }

    /// The span cut to whole seconds, and zero for a negative one.
    pub fn as_lifetime(&self) -> (result: TimeDelta)
        ensures
            result.nanos == lifetime_seconds(self.nanos as int) * NANOS,
    {
        if self.nanos < 0 {
            TimeDelta { nanos: 0 }
        } else {
            let s: i128 = self.nanos / NANOS;
            TimeDelta { nanos: s * NANOS }
        }
    }
}

/// An instant is told by the second it lies in: the last whole one that is not
/// after it. A date can be given for every second from the first to the last.
pub proof fn law_instant_is_told_by_its_second(t: Instant)
    ensures
        t.text() == utc_text(second_of(t.nanos as int)),
        second_of(t.nanos as int) * 1_000_000_000 <= t.nanos,
        t.nanos < second_of(t.nanos as int) * 1_000_000_000 + 1_000_000_000,
        t.in_range() <==> -8_334_601_228_800 * 1_000_000_000 <= t.nanos && t.nanos
            < 8_210_266_876_800 * 1_000_000_000,
        in_range_nanos(t.nanos as int) == t.in_range(),
{
}

/// An instant has a date exactly where it lies between the start of the year
/// 262144 before the common era and the end of the year 262142, and so does
/// every instant between two that have one.
pub proof fn law_dates_span_the_calendar(a: Instant, b: Instant, c: Instant)
    ensures
        a.in_range() && c.in_range() && a.nanos <= b.nanos <= c.nanos ==> b.in_range(),
        a.in_range() <==> -8_334_601_228_800_000_000_000 <= a.nanos
            <= 8_210_266_876_799_999_999_999,
        in_range_nanos(a.nanos as int) <==> a.in_range(),
{
}

} // verus!
