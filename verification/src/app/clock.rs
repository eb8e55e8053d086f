//! Times of day and dates in the user's time zone.

use vstd::prelude::*;

use crate::app::calendar::{day_number, days_to_month, law_date_is_unique, valid_date};
use crate::app::state::TimeFormat;
use crate::text::{cat2, decimal, decimal_usize, digit, number_of, parse_usize, zero_padded};

verus! {

// ---------------------------------------------------------------------------
// The clock of a time zone
// ---------------------------------------------------------------------------

/// Whether a clock may be that many seconds ahead of the universal time.
pub open spec fn zone_offset(offset: int) -> bool {
    -86_400 < offset < 86_400
}

/// Whether a time in milliseconds can be held: its day is one of the years that
/// `chrono` knows.
pub open spec fn held(origin_ts: int) -> bool {
    day_number(-262_143, 1, 1) <= origin_ts / 86_400_000 <= day_number(262_142, 12, 31)
}

/// The seconds since the start of 1970 on a clock that is ahead of the universal time.
pub open spec fn local_seconds(origin_ts: int, offset: int) -> int {
    origin_ts / 1_000 + offset
}

pub open spec fn hour_of(seconds: int) -> int {
    seconds % 86_400 / 3_600
}

pub open spec fn minute_of(seconds: int) -> int {
    seconds / 60 % 60
}

pub open spec fn second_of(seconds: int) -> int {
    seconds % 60
}

/// The hour on a clock that shows twelve.
pub open spec fn hour_of_twelve(seconds: int) -> int {
    if hour_of(seconds) % 12 == 0 {
        12
    } else {
        hour_of(seconds) % 12
    }
}

/// A number with two places.
pub open spec fn two_places(n: int) -> Seq<char> {
    zero_padded(decimal(n as nat), 2)
}

/// A time of day on a clock of twenty-four hours, and on one of twelve.
pub open spec fn clock_text(seconds: int, time_format: TimeFormat) -> Seq<char> {
    let rest = ":"@ + two_places(minute_of(seconds)) + ":"@ + two_places(second_of(seconds));
    match time_format {
        TimeFormat::H24 => two_places(hour_of(seconds)) + rest,
        TimeFormat::H12 => decimal(hour_of_twelve(seconds) as nat) + rest + half_of_day(seconds),
    }
}

pub open spec fn half_of_day(seconds: int) -> Seq<char> {
    if hour_of(seconds) < 12 {
        " AM"@
    } else {
        " PM"@
    }
}

/// The name of a day of the week, from Monday on.
pub open spec fn weekday_name(n: int) -> Seq<char> {
    if n == 0 {
        "Monday"@
    } else if n == 1 {
        "Tuesday"@
    } else if n == 2 {
        "Wednesday"@
    } else if n == 3 {
        "Thursday"@
    } else if n == 4 {
        "Friday"@
    } else if n == 5 {
        "Saturday"@
    } else {
        "Sunday"@
    }
}

pub open spec fn month_name(m: int) -> Seq<char> {
    if m == 1 {
        "January"@
    } else if m == 2 {
        "February"@
    } else if m == 3 {
        "March"@
    } else if m == 4 {
        "April"@
    } else if m == 5 {
        "May"@
    } else if m == 6 {
        "June"@
    } else if m == 7 {
        "July"@
    } else if m == 8 {
        "August"@
    } else if m == 9 {
        "September"@
    } else if m == 10 {
        "October"@
    } else if m == 11 {
        "November"@
    } else {
        "December"@
    }
}

/// A year with four places, and with a sign where those are too few.
pub open spec fn signed_year(y: int) -> Seq<char> {
    if y < 0 {
        "-"@ + zero_padded(decimal((-y) as nat), 4)
    } else if y > 9_999 {
        "+"@ + decimal(y as nat)
    } else {
        zero_padded(decimal(y as nat), 4)
    }
}

/// A date in words. The first of January 1970 was a Thursday.
pub open spec fn date_in_words(y: int, m: int, d: int) -> Seq<char> {
    weekday_name((day_number(y, m, d) + 3) % 7) + ", "@ + decimal(d as nat) + " "@ + month_name(m)
        + " "@ + signed_year(y)
}

/// The date of a day in words.
pub open spec fn day_in_words(day: int) -> Seq<char> {
    let (y, m, d) = choose|y: int, m: int, d: int|
        valid_date(y, m, d) && #[trigger] day_number(y, m, d) == day;
    date_in_words(y, m, d)
}

/// A day is written by its date.
pub proof fn law_day_in_words(y: int, m: int, d: int)
    requires
        valid_date(y, m, d),
    ensures
        day_in_words(day_number(y, m, d)) == date_in_words(y, m, d),
{
    let day = day_number(y, m, d);
    let (y2, m2, d2) = choose|y2: int, m2: int, d2: int|
        valid_date(y2, m2, d2) && #[trigger] day_number(y2, m2, d2) == day;
    law_date_is_unique(y, m, d, y2, m2, d2);
}

proof fn lemma_two_places(n: int)
    requires
        0 <= n < 100,
    ensures
        two_places(n).len() == 2,
        number_of(two_places(n)) == Some(n as nat),
{
    reveal_with_fuel(decimal, 2);
    reveal_with_fuel(crate::text::digits_value, 3);
    let t = two_places(n);
    assert(t =~= seq![digit(n / 10), digit(n % 10)]);
    assert(t.drop_last() =~= seq![digit(n / 10)]);
    assert(t.drop_last().drop_last() =~= Seq::<char>::empty());
}

/// A clock of twenty-four hours takes eight characters.
pub proof fn law_clock_is_eight_wide(seconds: int)
    ensures
        clock_text(seconds, TimeFormat::H24).len() == 8,
{
    lemma_two_places(hour_of(seconds));
    lemma_two_places(minute_of(seconds));
    lemma_two_places(second_of(seconds));
    reveal_strlit(":");
}

// ---------------------------------------------------------------------------
// What `chrono` knows and writes
// ---------------------------------------------------------------------------

/// How many seconds the machine's clock is ahead of the universal time at a time in
/// milliseconds: `chrono::Local`, `TimeZone::timestamp_millis_opt` and
/// `DateTime::offset`. It is less than a day either way, and there is none for a time
/// that `chrono` cannot hold. How many they are depends on the machine.
#[verifier::external_body]
fn local_offset(origin_ts: i64) -> (out: Option<i32>)
    ensures
        out is Some <==> held(origin_ts as int),
        out matches Some(offset) ==> zone_offset(offset as int),
{
    chrono::TimeZone::timestamp_millis_opt(&chrono::Local, origin_ts).single().map(
        |dt| dt.offset().local_minus_utc(),
    )
}

/// The patterns that times are written by.
pub open spec fn time_pattern(pattern: Seq<char>) -> bool {
    ||| pattern == "%H:%M:%S"@
    ||| pattern == "%I"@
    ||| pattern == "%A, %-d %B %Y"@
    ||| exists|hour: nat| pattern == #[trigger] decimal(hour) + ":%M:%S %p"@
}

/// What a clock shows, by a pattern.
pub open spec fn patterned(seconds: int, pattern: Seq<char>) -> Seq<char> {
    if pattern == "%H:%M:%S"@ {
        clock_text(seconds, TimeFormat::H24)
    } else if pattern == "%I"@ {
        two_places(hour_of_twelve(seconds))
    } else if pattern == "%A, %-d %B %Y"@ {
        day_in_words(seconds / 86_400)
    } else {
        pattern.take(pattern.len() - ":%M:%S %p"@.len()) + ":"@ + two_places(minute_of(seconds))
            + ":"@ + two_places(second_of(seconds)) + half_of_day(seconds)
    }
}

/// A time as a clock shows it that is ahead of the universal time: `DateTime::format` of
/// `chrono` in the zone of a `FixedOffset`. The hour, the minute and the second take two
/// places each, the names are English, and what is no field of the pattern stays.
#[verifier::external_body]
fn format_at(origin_ts: i64, offset: i32, pattern: &str) -> (out: String)
    requires
        held(origin_ts as int),
        zone_offset(offset as int),
        time_pattern(pattern@),
    ensures
        out@ == patterned(local_seconds(origin_ts as int, offset as int), pattern@),
{
    let zone = chrono::FixedOffset::east_opt(offset).unwrap();
    let dt = chrono::TimeZone::timestamp_millis_opt(&zone, origin_ts).unwrap();
    dt.format(pattern).to_string()
}

// ---------------------------------------------------------------------------
// Times of events
// ---------------------------------------------------------------------------

fn read_hour(hour: &str) -> (n: usize)
    ensures
        n == match number_of(hour@) {
            Some(v) => if v <= usize::MAX {
                v
            } else {
                0
            },
            None => 0,
        },
{
    match parse_usize(hour) {
        Some(n) => n,
        None => 0,
    }
}

/// The time of day, on a clock that is ahead of the universal time where it is known by
/// how much.
pub fn time_at(origin_ts: i64, offset: Option<i32>, time_format: TimeFormat) -> (out: String)
    requires
        offset matches Some(o) ==> held(origin_ts as int) && zone_offset(o as int),
    ensures
        out@ == match offset {
            Some(o) => clock_text(local_seconds(origin_ts as int, o as int), time_format),
            None => "--:--:--"@,
        },
{
    let offset: i32 = match offset {
        Some(o) => o,
        None => return "--:--:--".to_owned(),
    };
    let ghost seconds = local_seconds(origin_ts as int, offset as int);
    proof {
        reveal_strlit("%H:%M:%S");
        reveal_strlit("%I");
        reveal_strlit("%A, %-d %B %Y");
        reveal_strlit(":%M:%S %p");
    }
    match time_format {
        TimeFormat::H24 => format_at(origin_ts, offset, "%H:%M:%S"),
        TimeFormat::H12 => {
            assert("%I"@.len() != "%H:%M:%S"@.len());
            let hour = format_at(origin_ts, offset, "%I");
            proof {
                lemma_two_places(hour_of_twelve(seconds));
            }
            let n: usize = read_hour(hour.as_str());
            assert(n == hour_of_twelve(seconds));
            let digits = decimal_usize(n);
            let pattern = cat2(digits.as_str(), ":%M:%S %p");
            let ghost p = pattern@;
            assert(p == decimal(n as nat) + ":%M:%S %p"@);
            assert(p.last() == 'p');
            assert("%H:%M:%S"@.last() == 'S');
            assert("%I"@.last() == 'I');
            assert("%A, %-d %B %Y"@.last() == 'Y');
            assert(p.take(p.len() - ":%M:%S %p"@.len()) =~= decimal(n as nat));
            let out = format_at(origin_ts, offset, pattern.as_str());
            assert(out@ =~= clock_text(seconds, time_format));
            out
        },
    }
}

/// Whether a text is the time of day of an event on the machine's clock.
pub open spec fn time_shown(origin_ts: int, time_format: TimeFormat, text: Seq<char>) -> bool {
    if held(origin_ts) {
        exists|offset: int|
            zone_offset(offset) && text == #[trigger] clock_text(
                local_seconds(origin_ts, offset),
                time_format,
            )
    } else {
        text == "--:--:--"@
    }
}

/// The time of day of an event. A clock of twenty-four hours takes eight
/// characters, whatever the time zone.
pub fn format_time(origin_ts: i64, time_format: TimeFormat) -> (out: String)
    ensures
        time_shown(origin_ts as int, time_format, out@),
        time_format == TimeFormat::H24 ==> out@.len() == 8,
{
    let offset = local_offset(origin_ts);
    let out = time_at(origin_ts, offset, time_format);
    proof {
        reveal_strlit("--:--:--");
        if let Some(o) = offset {
            let seconds = local_seconds(origin_ts as int, o as int);
            assert(out@ == clock_text(seconds, time_format));
            law_clock_is_eight_wide(seconds);
        }
    }
    out
}

/// The day of a time on a clock that is ahead of the universal time, in days since the
/// start of 1970.
pub fn day_at(origin_ts: i64, offset: i32) -> (out: i64)
    requires
        held(origin_ts as int),
        zone_offset(offset as int),
    ensures
        out == local_seconds(origin_ts as int, offset as int) / 86_400,
{
    proof {
        reveal_with_fuel(days_to_month, 13);
    }
    // A hundred million days are added and taken away, so that nothing is negative.
    let seconds: u64 = (origin_ts + 8_640_000_000_000_000) as u64 / 1_000;
    let days: u64 = (seconds as i64 + offset as i64) as u64 / 86_400;
    days as i64 - 100_000_000
}

/// The local calendar day of an event, in days since the start of 1970.
pub fn date_day(origin_ts: i64) -> (out: Option<i64>)
    ensures
        out is Some <==> held(origin_ts as int),
        out matches Some(day) ==> exists|offset: int|
            zone_offset(offset) && day == #[trigger] local_seconds(origin_ts as int, offset) / 86_400,
{
    match local_offset(origin_ts) {
        Some(offset) => Some(day_at(origin_ts, offset)),
        None => None,
    }
}

/// The date in words, on a clock that is ahead of the universal time where it is known
/// by how much.
pub fn date_at(origin_ts: i64, offset: Option<i32>) -> (out: String)
    requires
        offset matches Some(o) ==> held(origin_ts as int) && zone_offset(o as int),
    ensures
        out@ == match offset {
            Some(o) => day_in_words(local_seconds(origin_ts as int, o as int) / 86_400),
            None => "Unknown date"@,
        },
{
    match offset {
        Some(o) => {
            proof {
                reveal_strlit("%H:%M:%S");
                reveal_strlit("%I");
                reveal_strlit("%A, %-d %B %Y");
                assert("%A, %-d %B %Y"@.len() == 13);
            }
            format_at(origin_ts, o, "%A, %-d %B %Y")
        },
        None => "Unknown date".to_owned(),
    }
}

/// Whether a text is the date of an event on the machine's clock.
pub open spec fn date_shown(origin_ts: int, text: Seq<char>) -> bool {
    if held(origin_ts) {
        exists|offset: int|
            zone_offset(offset) && text == day_in_words(
                #[trigger] local_seconds(origin_ts, offset) / 86_400,
            )
    } else {
        text == "Unknown date"@
    }
}

/// The local date of an event in words.
pub fn format_date(origin_ts: i64) -> (out: String)
    ensures
        date_shown(origin_ts as int, out@),
{
    let offset = local_offset(origin_ts);
    date_at(origin_ts, offset)
}

/// When an event was, as it is shown.
#[derive(Debug)]
pub struct Stamp {
    pub time: String,
    /// In days since the start of 1970.
    pub day: Option<i64>,
    pub date: String,
}

pub struct StampView {
    pub time: Seq<char>,
    pub day: Option<i64>,
    pub date: Seq<char>,
}

impl View for Stamp {
    type V = StampView;

    open spec fn view(&self) -> StampView {
        StampView { time: self.time@, day: self.day, date: self.date@ }
    }
}

/// When an event was, on a clock that is ahead of the universal time where it is known
/// by how much.
pub open spec fn stamp_text(
    origin_ts: int,
    offset: Option<i32>,
    time_format: TimeFormat,
) -> StampView {
    match offset {
        Some(o) => {
            let seconds = local_seconds(origin_ts, o as int);
            StampView {
                time: clock_text(seconds, time_format),
                day: Some((seconds / 86_400) as i64),
                date: day_in_words(seconds / 86_400),
            }
        },
        None => StampView { time: "--:--:--"@, day: None, date: "Unknown date"@ },
    }
}

/// When an event was, in the user's time zone.
pub fn stamp_of(origin_ts: i64, time_format: TimeFormat) -> (out: Stamp)
    ensures
        exists|offset: Option<i32>|
            {
                &&& offset is Some <==> held(origin_ts as int)
                &&& offset matches Some(o) ==> zone_offset(o as int)
                &&& out@ == #[trigger] stamp_text(origin_ts as int, offset, time_format)
            },
{
    let offset = local_offset(origin_ts);
    let day = match offset {
        Some(o) => Some(day_at(origin_ts, o)),
        None => None,
    };
    let out = Stamp {
        time: time_at(origin_ts, offset, time_format),
        day,
        date: date_at(origin_ts, offset),
    };
    assert(out@ == stamp_text(origin_ts as int, offset, time_format));
    out
}

} // verus!
