//! The modification time of an entry as it is shown.

use crate::entry::{option_text, Timestamp};
use crate::number::{signed_decimal, signed_decimal_text};
use vstd::prelude::*;

verus! {

/// What chrono writes for an instant at a fixed offset from UTC under the
/// pattern `%b %d %y %H:%M`, or `None` where chrono has no date for the
/// instant or no such offset.
pub uninterp spec fn clock_text(seconds: int, nanos: int, utc_offset: int) -> Option<Seq<char>>;

/// Calls chrono's `FixedOffset::east_opt`, `DateTime::from_timestamp`,
/// `DateTime::with_timezone` and `DateTime::format` with the pattern
/// `%b %d %y %H:%M`, and writes the result out. Nothing but the three
/// arguments enters: no time zone of the machine and no locale. The
/// contract gives the outcome its name, and claims nothing of what the
/// text looks like.
#[verifier::external_body]
pub(crate) fn format_clock(seconds: i64, nanos: u32, utc_offset: i32) -> (text: Option<String>)
    ensures
        match text {
            Some(t) => clock_text(seconds as int, nanos as int, utc_offset as int) == Some(t@),
            None => clock_text(seconds as int, nanos as int, utc_offset as int) is None,
        },
{
    let zone = chrono::FixedOffset::east_opt(utc_offset)?;
    let instant = chrono::DateTime::from_timestamp(seconds, nanos)?;
    let mut text = String::new();
    instant.with_timezone(&zone).format("%b %d %y %H:%M").write_to(&mut text).ok()?;
    Some(text)
}

/// The time as shown: the calendar text where there is one, else the
/// count of seconds since the epoch.
pub open spec fn time_text(at: Timestamp, calendar: Option<Seq<char>>) -> Seq<char> {
    match calendar {
        Some(text) => text,
        None => signed_decimal(at.seconds as int),
    }
}

/// Chooses what to show for an instant: the calendar text when one was
/// found for it, else the count of seconds since the epoch.
pub fn time_or_seconds(at: &Timestamp, calendar: Option<String>) -> (text: String)
    ensures
        text@ == time_text(*at, option_text(calendar)),
{
    match calendar {
        Some(text) => text,
        None => signed_decimal_text(at.seconds),
    }
}

/// Writes a modification time as month, day, two-digit year, hour and
/// minute in the local time that the timestamp carries.
pub fn modified_text(at: &Timestamp) -> (text: String)
    ensures
        text@ == time_text(
            *at,
            clock_text(at.seconds as int, at.nanos as int, at.utc_offset as int),
        ),
{
    let calendar = format_clock(at.seconds, at.nanos, at.utc_offset);
    time_or_seconds(at, calendar)
}

} // verus!
