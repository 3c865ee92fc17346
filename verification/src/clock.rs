//! The clock: time stamps of log lines and report files, and moments.

use crate::text::{decimal, two_places, two_places_text};
use vstd::prelude::*;
use vstd::string::*;

verus! {

/// A moment of the monotonic clock, carried through without being read.
#[verifier::external_type_specification]
#[verifier::external_body]
pub struct ExInstant(std::time::Instant);

/// `std::time::Instant::now` returns the present moment. Nothing is claimed of
/// it: it depends on when the call is made.
pub assume_specification[ std::time::Instant::now ]() -> (moment: std::time::Instant)
;

/// Hours, minutes and seconds, each with two places, separated by colons.
pub open spec fn clock_text(hours: nat, minutes: nat, seconds: nat) -> Seq<char> {
    two_places("0"@, hours) + ":"@ + two_places("0"@, minutes) + ":"@ + two_places("0"@, seconds)
}

/// A year of the calendar: signed where it takes more than four places.
pub open spec fn year_text(year: nat) -> Seq<char> {
    if year < 10000 {
        decimal(year)
    } else {
        "+"@ + decimal(year)
    }
}

/// A date and a time of day without separators but one underscore.
pub open spec fn date_stamp_text(
    year: nat,
    month: nat,
    day: nat,
    hours: nat,
    minutes: nat,
    seconds: nat,
) -> Seq<char> {
    year_text(year) + two_places("0"@, month) + two_places("0"@, day) + "_"@ + two_places(
        "0"@,
        hours,
    ) + two_places("0"@, minutes) + two_places("0"@, seconds)
}

/// Some time of day; the second may be a leap second.
pub open spec fn is_clock(text: Seq<char>) -> bool {
    exists|hours: nat, minutes: nat, seconds: nat|
        hours < 24 && minutes < 60 && seconds <= 60 && text == #[trigger] clock_text(
            hours,
            minutes,
            seconds,
        )
}

/// Some date, not before the last day of 1969, and some time of day.
pub open spec fn is_date_stamp(text: Seq<char>) -> bool {
    exists|year: nat, month: nat, day: nat, hours: nat, minutes: nat, seconds: nat|
        {
            &&& 1969 <= year
            &&& 1 <= month <= 12
            &&& 1 <= day <= 31
            &&& hours < 24
            &&& minutes < 60
            &&& seconds <= 60
            &&& text == #[trigger] date_stamp_text(year, month, day, hours, minutes, seconds)
        }
}

/// `chrono::Local::now` and `chrono::DateTime::format`: the present local time,
/// written by a pattern. Claimed is the shape of the text for the two patterns
/// in use: `%H`, `%M`, `%S`, `%m` and `%d` give two digits within their range,
/// and `%Y` gives four digits, or a sign and more. Which moment it is, and the
/// offset of the local time zone, are left open. The call needs a system clock
/// set after the start of 1970, and a local time zone whose present offset is
/// known and less than a day.
#[verifier::external_body]
fn local_time(pattern: &str) -> (text: String)
    requires
        pattern@ == "%H:%M:%S"@ || pattern@ == "%Y%m%d_%H%M%S"@,
    ensures
        pattern@ == "%H:%M:%S"@ ==> is_clock(text@),
        pattern@ == "%Y%m%d_%H%M%S"@ ==> is_date_stamp(text@),
{
    chrono::Local::now().format(pattern).to_string()
}

/// The local time of day.
pub fn clock_now() -> (text: String)
    ensures
        is_clock(text@),
{
    local_time("%H:%M:%S")
}

/// The local date and time of day, fit for a file name.
pub fn date_stamp_now() -> (text: String)
    ensures
        is_date_stamp(text@),
{
    local_time("%Y%m%d_%H%M%S")
}

/// A number of seconds as hours, minutes and seconds.
pub open spec fn span_text(seconds: nat) -> Seq<char> {
    clock_text(seconds / 3600, (seconds % 3600) / 60, seconds % 60)
}

/// Writes a number of seconds as hours, minutes and seconds.
pub fn span_text_of(seconds: u64) -> (text: String)
    ensures
        text@ == span_text(seconds as nat),
{
    two_places_text("0", seconds / 3600).concat(":").concat(
        two_places_text("0", (seconds % 3600) / 60).as_str(),
    ).concat(":").concat(two_places_text("0", seconds % 60).as_str())
}

/// A span is shown by parts that add up to it, of which neither the minutes nor
/// the seconds reach sixty.
pub proof fn law_span_parts(seconds: nat)
    ensures
        exists|h: nat, m: nat, s: nat|
            h * 3600 + m * 60 + s == seconds && m < 60 && s < 60 && span_text(seconds)
                == #[trigger] clock_text(h, m, s),
{
    let (h, m, s) = (seconds / 3600, (seconds % 3600) / 60, seconds % 60);
    assert(h * 3600 + m * 60 + s == seconds);
    assert(span_text(seconds) == clock_text(h, m, s));
}

} // verus!
