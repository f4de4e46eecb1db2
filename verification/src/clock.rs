//! Wall-clock instants and the time between them.

use vstd::prelude::*;

verus! {

/// A wall-clock instant in UTC.
#[derive(Debug, Clone, Copy, PartialEq, Eq, Structural)]
pub struct Instant {
    /// Whole seconds since the Unix epoch.
    pub seconds: i64,
    /// Nanoseconds within the second; a leap second is written as more than a whole
    /// second of them.
    pub nanos: u32,
}

/// The second of its day that an instant falls into.
pub open spec fn second_of_day(at: Instant) -> int {
    at.seconds as int % 86_400
}

/// The nanoseconds from `earlier` to `later`, negative where they stand the other way
/// round. A leap second counts where the later time of day has passed it.
pub open spec fn nanos_between(earlier: Instant, later: Instant) -> int {
    let plain = (later.seconds - earlier.seconds) * 1_000_000_000 + (later.nanos - earlier.nanos);
    if second_of_day(later) > second_of_day(earlier) && earlier.nanos >= 1_000_000_000 {
        plain + 1_000_000_000
    } else if second_of_day(later) < second_of_day(earlier) && later.nanos >= 1_000_000_000 {
        plain - 1_000_000_000
    } else {
        plain
    }
}

/// An instant that a calendar can hold: its year is from -262143 to 262142, and only the
/// last second of a minute can be a leap second.
pub open spec fn is_moment(at: Instant) -> bool {
    &&& -8_334_601_228_800 <= at.seconds <= 8_210_266_876_799
    &&& at.nanos < 1_000_000_000 || (at.nanos < 2_000_000_000 && at.seconds as int % 60 == 59)
}

/// An instant in a year of four digits, from the year 0 to the year 9999.
pub open spec fn has_plain_year(at: Instant) -> bool {
    -62_167_219_200 <= at.seconds <= 253_402_300_799
}

/// An instant as an RFC 3339 text, from its seconds and nanoseconds.
pub uninterp spec fn rfc3339_text(seconds: i64, nanos: u32) -> Seq<char>;

/// Reads an RFC 3339 time, or gives the reason why the text is none.
pub uninterp spec fn rfc3339(text: Seq<char>) -> Result<(i64, u32), Seq<char>>;

/// Calls `chrono::DateTime::parse_from_rfc3339`. What instant a text names is only
/// named; it depends on the text alone.
#[verifier::external_body]
pub(crate) fn parse_rfc3339(text: &str) -> (parsed: Result<Instant, String>)
    ensures
        match parsed {
            Ok(at) => rfc3339(text@) == Ok::<(i64, u32), Seq<char>>((at.seconds, at.nanos)),
            Err(reason) => rfc3339(text@) == Err::<(i64, u32), Seq<char>>(reason@),
        },
{
    chrono::DateTime::parse_from_rfc3339(text)
        .map(|at| Instant { seconds: at.timestamp(), nanos: at.timestamp_subsec_nanos() })
        .map_err(|error| error.to_string())
}

/// Calls `chrono::DateTime::to_rfc3339` on the UTC time that
/// `chrono::DateTime::from_timestamp` gives for an instant, which it does for every one
/// admitted here. The text is only named; it depends on the instant alone. Where the year has four digits, chrono's
/// reader takes the text back to the same instant: the writer keeps every nanosecond and
/// writes a leap second as a sixtieth. A longer year is written with a sign, which the
/// reader refuses.
#[verifier::external_body]
pub(crate) fn format_rfc3339(at: &Instant) -> (text: String)
    requires
        is_moment(*at),
    ensures
        text@ == rfc3339_text(at.seconds, at.nanos),
        has_plain_year(*at) ==> rfc3339(text@) is Ok && rfc3339(text@)->Ok_0 == (at.seconds, at.nanos),
{
    chrono::DateTime::from_timestamp(at.seconds, at.nanos).unwrap().to_rfc3339()
}

impl Instant {
    /// Whether a calendar can hold the instant.
    pub fn is_representable(&self) -> (holds: bool)
        ensures
            holds == is_moment(*self),
    {
        let in_range: bool = -8_334_601_228_800 <= self.seconds && self.seconds
            <= 8_210_266_876_799;
        let last_second: bool = match self.seconds.checked_rem_euclid(60) {
            Some(second) => second == 59,
            None => false,
        };
        in_range && (self.nanos < 1_000_000_000 || (self.nanos < 2_000_000_000 && last_second))
    }

    fn day_second(&self) -> (second: i64)
        ensures
            second == second_of_day(*self),
    {
        match self.seconds.checked_rem_euclid(86_400) {
            Some(second) => second,
            None => 0,
        }
    }

    /// The nanoseconds from `earlier` to this instant.
    pub fn nanos_since(&self, earlier: &Instant) -> (nanos: i128)
        ensures
            nanos == nanos_between(*earlier, *self),
    {
        let seconds: i128 = self.seconds as i128 - earlier.seconds as i128;
        let plain: i128 = seconds * 1_000_000_000 + (self.nanos as i128 - earlier.nanos as i128);
        let here: i64 = self.day_second();
        let there: i64 = earlier.day_second();
        if here > there && earlier.nanos >= 1_000_000_000 {
            plain + 1_000_000_000
        } else if here < there && self.nanos >= 1_000_000_000 {
            plain - 1_000_000_000
        } else {
            plain
        }
    }
}

} // verus!
