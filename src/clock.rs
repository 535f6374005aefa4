//! Calendar times of labels, counted in seconds since 1970-01-01T00:00:00.
//!
//! Times carry no zone: a file recorded at 23:00 local time is labelled
//! 23:00. Calendar arithmetic is addition of seconds.
use vstd::prelude::*;
use vstd::arithmetic::div_mod::lemma_mod_multiples_vanish;

use crate::text::{push_two_digits, two_digits};

verus! {

/// 0000-01-01T00:00:00.
pub const EARLIEST_SECONDS: i64 = -62167219200;

/// 9999-12-31T23:59:59, the last time a four-digit year can name.
pub const LATEST_BASE_SECONDS: i64 = 253402300799;

/// The latest time a label can fall on: a base time plus the longest
/// playing time a WAVE header can state.
pub const LATEST_SECONDS: i64 = LATEST_BASE_SECONDS + 4294967295;

/// The seconds since 1970-01-01T00:00:00 of a date and time of day, or
/// `None` where the calendar has no such date or time.
pub uninterp spec fn civil_seconds(
    year: int,
    month: int,
    day: int,
    hour: int,
    minute: int,
    second: int,
) -> Option<int>;

/// The text `DD.MM.YYYY HH:MM:SS` of a time.
pub uninterp spec fn calendar_text(seconds: int) -> Seq<char>;

/// The text `HH:MM:SS` of a time.
pub open spec fn clock_text(seconds: int) -> Seq<char> {
    let s = seconds % 86400;
    two_digits((s / 3600) as nat) + seq![':'] + two_digits((s % 3600 / 60) as nat) + seq![':']
        + two_digits((s % 60) as nat)
}

/// A time at which a file starts, with a year from 0 to 9999.
#[derive(Debug, Clone, Copy, PartialEq, Eq, Structural)]
pub struct LabelTime {
    seconds: i64,
}

impl LabelTime {
    #[verifier::type_invariant]
    spec fn well_formed(self) -> bool {
        EARLIEST_SECONDS <= self.seconds <= LATEST_BASE_SECONDS
    }

    /// Seconds since 1970-01-01T00:00:00.
    pub closed spec fn spec_seconds(self) -> int {
        self.seconds as int
    }

    /// The time `seconds` after 1970-01-01T00:00:00; `None` outside the
    /// years 0 to 9999.
    pub fn from_seconds(seconds: i64) -> (r: Option<LabelTime>)
        ensures
            r is Some <==> EARLIEST_SECONDS <= seconds <= LATEST_BASE_SECONDS,
            r matches Some(t) ==> t.spec_seconds() == seconds,
    {
        if EARLIEST_SECONDS <= seconds && seconds <= LATEST_BASE_SECONDS {
            Some(LabelTime { seconds })
        } else {
            None
        }
    }

    /// The time of a calendar date and time of day; `None` where no such
    /// date or time exists, or the year is outside 0 to 9999.
    pub fn from_civil(year: i32, month: u32, day: u32, hour: u32, minute: u32, second: u32) -> (r:
        Option<LabelTime>)
        ensures
            match civil_seconds(
                year as int,
                month as int,
                day as int,
                hour as int,
                minute as int,
                second as int,
            ) {
                Some(t) => if EARLIEST_SECONDS <= t <= LATEST_BASE_SECONDS {
                    r matches Some(l) && l.spec_seconds() == t
                } else {
                    r is None
                },
                None => r is None,
            },
    {
        match civil_to_seconds(year, month, day, hour, minute, second) {
            Some(t) => LabelTime::from_seconds(t),
            None => None,
        }
    }

    /// Seconds since 1970-01-01T00:00:00.
    pub fn get_seconds(&self) -> (r: i64)
        ensures
            r == self.spec_seconds(),
            EARLIEST_SECONDS <= r <= LATEST_BASE_SECONDS,
    {
        proof {
            use_type_invariant(self);
        }
        self.seconds
    }
}

/// Relies on chrono's `TimeZone::with_ymd_and_hms` on `Utc`, read back with
/// `timestamp()`: the seconds since 1970-01-01 of a date and time of day,
/// or `None` where either does not exist.
#[verifier::external_body]
fn civil_to_seconds(year: i32, month: u32, day: u32, hour: u32, minute: u32, second: u32) -> (r:
    Option<i64>)
    ensures
        r matches Some(t) ==> civil_seconds(
            year as int,
            month as int,
            day as int,
            hour as int,
            minute as int,
            second as int,
        ) == Some(t as int),
        r is None ==> civil_seconds(
            year as int,
            month as int,
            day as int,
            hour as int,
            minute as int,
            second as int,
        ) is None,
{
    match chrono::TimeZone::with_ymd_and_hms(&chrono::Utc, year, month, day, hour, minute, second) {
        chrono::LocalResult::Single(t) => Some(t.timestamp()),
        _ => None,
    }
}

/// Relies on chrono's `DateTime::from_timestamp`, which has a date for
/// every second from year -262143 to 262142 and so for all of these, and on
/// its `format` with `%d.%m.%Y %H:%M:%S`.
#[verifier::external_body]
fn format_calendar(seconds: i64) -> (r: Option<String>)
    requires
        EARLIEST_SECONDS <= seconds <= LATEST_SECONDS,
    ensures
        r is Some,
        r matches Some(s) ==> s@ == calendar_text(seconds as int),
{
    match chrono::DateTime::from_timestamp(seconds, 0) {
        Some(t) => Some(t.format("%d.%m.%Y %H:%M:%S").to_string()),
        None => None,
    }
}

/// The text `DD.MM.YYYY HH:MM:SS` of a time.
pub fn calendar_text_of(seconds: i64) -> (r: String)
    requires
        EARLIEST_SECONDS <= seconds <= LATEST_SECONDS,
    ensures
        r@ == calendar_text(seconds as int),
{
    match format_calendar(seconds) {
        Some(s) => s,
        None => String::new(),
    }
}

/// Appends the text `HH:MM:SS` of a time.
pub fn push_clock_text(out: &mut String, seconds: i64)
    requires
        EARLIEST_SECONDS <= seconds <= LATEST_SECONDS,
    ensures
        final(out)@ == old(out)@ + clock_text(seconds as int),
{
    let since_earliest = (seconds - EARLIEST_SECONDS) as u64;
    let s = since_earliest % 86400;
    proof {
        lemma_mod_multiples_vanish(719528, seconds as int, 86400);
        assert(since_earliest as int == 86400 * 719528 + seconds);
    }
    push_two_digits(out, s / 3600);
    out.append(":");
    push_two_digits(out, s % 3600 / 60);
    out.append(":");
    push_two_digits(out, s % 60);
    proof {
        reveal_strlit(":");
        assert(out@ =~= old(out)@ + clock_text(seconds as int));
    }
}

} // verus!
