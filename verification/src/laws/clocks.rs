//! How times and dates are written.

use vstd::prelude::*;

use crate::app::calendar::{
    date_text, day_number, day_of, days_to_month, leap, month_len, valid_date,
};
use crate::app::clock::{
    clock_text, date_in_words, hour_of, local_seconds, minute_of, month_name, second_of, two_places,
    weekday_name,
};
use crate::app::state::TimeFormat;
use crate::text::{decimal, zero_padded};

verus! {

/// The time of day is written as hours, minutes and seconds, each in its place.
pub proof fn law_time_of_day(day: int, h: int, m: int, s: int)
    requires
        0 <= h < 24,
        0 <= m < 60,
        0 <= s < 60,
    ensures
        ({
            let seconds = day * 86_400 + h * 3_600 + m * 60 + s;
            &&& hour_of(seconds) == h
            &&& minute_of(seconds) == m
            &&& second_of(seconds) == s
            &&& clock_text(seconds, TimeFormat::H24) == two_places(h) + (":"@ + two_places(m) + ":"@
                + two_places(s))
            &&& 0 < h < 12 ==> clock_text(seconds, TimeFormat::H12) == decimal(h as nat) + (":"@
                + two_places(m) + ":"@ + two_places(s)) + " AM"@
            &&& h == 0 ==> clock_text(seconds, TimeFormat::H12) == decimal(12) + (":"@ + two_places(
                m,
            ) + ":"@ + two_places(s)) + " AM"@
            &&& h == 12 ==> clock_text(seconds, TimeFormat::H12) == decimal(12) + (":"@
                + two_places(m) + ":"@ + two_places(s)) + " PM"@
            &&& h > 12 ==> clock_text(seconds, TimeFormat::H12) == decimal((h - 12) as nat) + (":"@
                + two_places(m) + ":"@ + two_places(s)) + " PM"@
        }),
{
    let seconds = day * 86_400 + h * 3_600 + m * 60 + s;
    assert(seconds % 86_400 == h * 3_600 + m * 60 + s);
    assert((h * 3_600 + m * 60 + s) / 3_600 == h);
    assert(seconds / 60 == day * 1_440 + h * 60 + m);
    assert(seconds / 60 % 60 == m);
    assert(seconds % 60 == s);
}

/// The time where the user is differs from that of the server by the offset of their zone.
pub proof fn law_local_time(ts: int, offset: int)
    ensures
        local_seconds(1_000 * ts, offset) == ts + offset,
        local_seconds(1_000 * ts + 999, offset) == ts + offset,
{
}

/// The names of the days follow one another. The first of 1970 was a Thursday.
pub proof fn law_days_of_the_week()
    ensures
        weekday_name(0) == "Monday"@,
        weekday_name(1) == "Tuesday"@,
        weekday_name(2) == "Wednesday"@,
        weekday_name(3) == "Thursday"@,
        weekday_name(4) == "Friday"@,
        weekday_name(5) == "Saturday"@,
        weekday_name(6) == "Sunday"@,
        date_in_words(1970, 1, 1) == "Thursday"@ + ", "@ + decimal(1) + " "@ + "January"@ + " "@
            + zero_padded(decimal(1970), 4),
{
    assert(day_number(1970, 1, 1) == 0);
}

/// The names of the months in their order.
pub proof fn law_names_of_months()
    ensures
        month_name(1) == "January"@,
        month_name(2) == "February"@,
        month_name(3) == "March"@,
        month_name(4) == "April"@,
        month_name(5) == "May"@,
        month_name(6) == "June"@,
        month_name(7) == "July"@,
        month_name(8) == "August"@,
        month_name(9) == "September"@,
        month_name(10) == "October"@,
        month_name(11) == "November"@,
        month_name(12) == "December"@,
{
}

/// Days are counted one by one, over the ends of months and years.
pub proof fn law_days_are_counted(y: int, m: int, d: int)
    requires
        valid_date(y, m, d),
    ensures
        valid_date(y, m, d + 1) ==> day_number(y, m, d + 1) == day_number(y, m, d) + 1,
        !valid_date(y, m, d + 1) && m < 12 ==> day_number(y, m + 1, 1) == day_number(y, m, d) + 1,
        !valid_date(y, m, d + 1) && m == 12 ==> day_number(y + 1, 1, 1) == day_number(y, m, d) + 1,
        day_number(1970, 1, 1) == 0,
{
    reveal_with_fuel(days_to_month, 13);
    if m == 12 {
        crate::app::calendar::law_year_length(y);
    }
}

/// The lengths of months. February has a day more in leap years: every fourth year, but of
/// the full centuries only every fourth.
pub proof fn law_lengths_of_months(y: int)
    ensures
        month_len(y, 1) == 31,
        month_len(y, 3) == 31,
        month_len(y, 4) == 30,
        month_len(y, 5) == 31,
        month_len(y, 6) == 30,
        month_len(y, 7) == 31,
        month_len(y, 8) == 31,
        month_len(y, 9) == 30,
        month_len(y, 10) == 31,
        month_len(y, 11) == 30,
        month_len(y, 12) == 31,
        month_len(y, 2) == (if leap(y) {
            29int
        } else {
            28
        }),
        leap(2000),
        leap(2024),
        !leap(1900),
        !leap(2023),
        leap(y + 400) == leap(y),
{
}

/// A date is written as year, month and day, in four, two and two places.
pub proof fn law_written_date(y: int, m: int, d: int)
    requires
        y >= 0,
    ensures
        date_text(y, m, d) == zero_padded(decimal(y as nat), 4) + "-"@ + zero_padded(
            decimal(m as nat),
            2,
        ) + "-"@ + zero_padded(decimal(d as nat), 2),
{
}

/// A moment is of the day that it falls on.
pub proof fn law_day_of_a_moment(day: int, ms: int)
    requires
        day >= 0,
        0 <= ms < 86_400_000,
    ensures
        day_of(day * 86_400_000 + ms) == day,
{
    let ts = day * 86_400_000 + ms;
    assert(ts / 1000 == day * 86_400 + ms / 1000);
    assert((day * 86_400 + ms / 1000) / 86_400 == day);
}

} // verus!
