//! The date of a moment, by the Gregorian calendar.

use vstd::prelude::*;

use crate::text::{cat5, decimal, decimal_u64, zero_pad, zero_padded};

verus! {

/// Whether a year has a 29th of February.
pub open spec fn leap(y: int) -> bool {
    y % 4 == 0 && (y % 100 != 0 || y % 400 == 0)
}

pub open spec fn month_len(y: int, m: int) -> int {
    if m == 2 {
        if leap(y) {
            29
        } else {
            28
        }
    } else if m == 4 || m == 6 || m == 9 || m == 11 {
        30
    } else {
        31
    }
}

/// The days of a year before a month.
pub open spec fn days_to_month(y: int, m: int) -> int
    decreases m,
{
    if m <= 1 {
        0
    } else {
        days_to_month(y, m - 1) + month_len(y, m - 1)
    }
}

/// The days from the start of the year zero to the start of a year: 365 for each, and
/// one for each leap year between.
pub open spec fn days_to_year(y: int) -> int {
    365 * y + (y + 3) / 4 - (y + 99) / 100 + (y + 399) / 400
}

/// The days from the start of 1970 to a date.
pub open spec fn day_number(y: int, m: int, d: int) -> int {
    days_to_year(y) + days_to_month(y, m) + d - 1 - days_to_year(1970)
}

pub open spec fn valid_date(y: int, m: int, d: int) -> bool {
    1 <= m <= 12 && 1 <= d <= month_len(y, m)
}

/// A year is followed by the next after as many days as it has.
pub proof fn law_year_length(y: int)
    ensures
        days_to_year(y + 1) - days_to_year(y) == days_to_month(y, 12) + month_len(y, 12),
        days_to_month(y, 12) + month_len(y, 12) == (if leap(y) {
            366int
        } else {
            365int
        }),
{
    reveal_with_fuel(days_to_month, 13);
    lemma_steps(y);
}

proof fn lemma_steps(y: int)
    ensures
        (y + 4) / 4 - (y + 3) / 4 == (if y % 4 == 0 {
            1int
        } else {
            0int
        }),
        (y + 100) / 100 - (y + 99) / 100 == (if y % 100 == 0 {
            1int
        } else {
            0int
        }),
        (y + 400) / 400 - (y + 399) / 400 == (if y % 400 == 0 {
            1int
        } else {
            0int
        }),
        y % 400 == 0 ==> y % 100 == 0,
        y % 100 == 0 ==> y % 4 == 0,
        (y + 4) / 4 == y / 4 + 1,
        (y + 100) / 100 == y / 100 + 1,
        (y + 400) / 400 == y / 400 + 1,
{
}

/// No day has two dates.
pub proof fn law_date_is_unique(y: int, m: int, d: int, y2: int, m2: int, d2: int)
    requires
        valid_date(y, m, d),
        valid_date(y2, m2, d2),
        day_number(y, m, d) == day_number(y2, m2, d2),
    ensures
        y == y2,
        m == m2,
        d == d2,
{
    reveal_with_fuel(days_to_month, 13);
    if y < y2 {
        lemma_years_apart(y, y2);
        law_year_length(y);
    } else if y2 < y {
        lemma_years_apart(y2, y);
        law_year_length(y2);
    }
}

proof fn lemma_years_apart(y: int, y2: int)
    requires
        y < y2,
    ensures
        days_to_year(y + 1) <= days_to_year(y2),
    decreases y2 - y,
{
    if y + 1 < y2 {
        lemma_years_apart(y, y2 - 1);
        law_year_length(y2 - 1);
    }
}

/// The days since the first of March of a year that begins with March.
spec fn march_days(y: int) -> int {
    365 * y + y / 4 - y / 100 + y / 400
}

proof fn lemma_march_year(era: int, c: int, q: int, r: int)
    requires
        0 <= c <= 3,
        0 <= q <= 24,
        0 <= r <= 3,
    ensures
        march_days(400 * era + 100 * c + 4 * q + r) == 146097 * era + 36524 * c + 1461 * q + 365 * r,
{
    let y = 400 * era + 100 * c + 4 * q + r;
    assert(y / 4 == 100 * era + 25 * c + q);
    assert(y / 100 == 4 * era + c);
    assert(y / 400 == era);
}

proof fn lemma_from_march(y: int, doy: int, mp: int)
    requires
        0 <= doy <= 365,
        doy == 365 ==> leap(y + 1),
        mp == (5 * doy + 2) / 153,
    ensures
        0 <= mp <= 11,
        ({
            let d = doy - (153 * mp + 2) / 5 + 1;
            let m = if mp < 10 {
                mp + 3
            } else {
                mp - 9
            };
            let year = if m <= 2 {
                y + 1
            } else {
                y
            };
            valid_date(year, m, d) && day_number(year, m, d) == march_days(y) + doy - 719468
        }),
{
    reveal_with_fuel(days_to_month, 13);
    lemma_steps(y);
    assert(days_to_year(1970) == 719528);
    assert(days_to_year(y) + (if leap(y) {
        1int
    } else {
        0int
    }) == march_days(y) + 1);
    assert(days_to_year(y + 1) == march_days(y) + 366);
}

/// A day of four hundred years, by its century, its four years and its year.
proof fn lemma_cycles(era: int, c: int, q: int, r: int, doy: int, doe: int)
    requires
        0 <= doe < 146_097,
        c == (if doe / 36_524 < 4 {
            doe / 36_524
        } else {
            3
        }),
        q == (doe - c * 36_524) / 1_461,
        r == (if (doe - c * 36_524 - q * 1_461) / 365 < 4 {
            (doe - c * 36_524 - q * 1_461) / 365
        } else {
            3
        }),
        doy == doe - c * 36_524 - q * 1_461 - r * 365,
    ensures
        0 <= c <= 3,
        0 <= q <= 24,
        0 <= r <= 3,
        0 <= doy <= 365,
        ({
            let y = 400 * era + 100 * c + 4 * q + r;
            &&& doy == 365 ==> leap(y + 1)
            &&& march_days(y) == 146_097 * era + 36_524 * c + 1_461 * q + 365 * r
        }),
{
    let in_century = doe - c * 36_524;
    assert(0 <= c <= 3);
    assert(0 <= in_century <= 36_524 && (in_century == 36_524 ==> c == 3));
    assert(0 <= q <= 24);
    let in_cycle = in_century - q * 1_461;
    assert(0 <= in_cycle <= 1_460);
    assert(0 <= r <= 3);
    assert(0 <= doy <= 365 && (doy == 365 ==> r == 3 && (q < 24 || c == 3)));
    lemma_march_year(era, c, q, r);
    let y = 400 * era + 100 * c + 4 * q + r;
    if doy == 365 {
        assert(y + 1 == 400 * era + 100 * c + 4 * (q + 1));
        assert((y + 1) % 4 == 0);
        if q < 24 {
            assert((y + 1) % 100 == 4 * (q + 1));
        } else {
            assert(y + 1 == 400 * (era + 1));
            assert((y + 1) % 400 == 0);
        }
    }
}

/// The date of a day.
pub fn civil_date(days: i64) -> (out: (i64, u64, u64))
    requires
        -200_000_000_000 <= days <= 200_000_000_000,
    ensures
        valid_date(out.0 as int, out.1 as int, out.2 as int),
        day_number(out.0 as int, out.1 as int, out.2 as int) == days,
        -600_000_000 <= out.0 <= 600_000_000,
{
    let z: i64 = days + 719_468;
    let era: i64 = if z >= 0 {
        (z as u64 / 146_097) as i64
    } else {
        -((((-z) as u64 + 146_096) / 146_097) as i64)
    };
    let doe: u64 = (z - era * 146_097) as u64;
    assert(z == era * 146_097 + doe && doe < 146_097);
    let c: u64 = if doe / 36_524 < 4 {
        doe / 36_524
    } else {
        3
    };
    let in_century: u64 = doe - c * 36_524;
    let q: u64 = in_century / 1_461;
    let in_cycle: u64 = in_century - q * 1_461;
    let r: u64 = if in_cycle / 365 < 4 {
        in_cycle / 365
    } else {
        3
    };
    let doy: u64 = in_cycle - r * 365;
    let y: i64 = era * 400 + (c * 100 + q * 4 + r) as i64;
    proof {
        lemma_cycles(era as int, c as int, q as int, r as int, doy as int, doe as int);
    }
    let mp: u64 = (5 * doy + 2) / 153;
    proof {
        lemma_from_march(y as int, doy as int, mp as int);
    }
    let d: u64 = doy - (153 * mp + 2) / 5 + 1;
    let m: u64 = if mp < 10 {
        mp + 3
    } else {
        mp - 9
    };
    let year: i64 = if m <= 2 {
        y + 1
    } else {
        y
    };
    (year, m, d)
}

/// Division that drops the fraction.
pub open spec fn toward_zero(a: int, b: int) -> int {
    if a >= 0 {
        a / b
    } else {
        -((-a) / b)
    }
}

fn divide_toward_zero(a: i64, b: u64) -> (out: i64)
    requires
        b > 1,
    ensures
        out == toward_zero(a as int, b as int),
        -(0x4000_0000_0000_0000 as int) <= out <= 0x4000_0000_0000_0000,
{
    let magnitude: u64 = if a >= 0 {
        a as u64
    } else if a == i64::MIN {
        0x8000_0000_0000_0000
    } else {
        (-a) as u64
    };
    let q: u64 = magnitude / b;
    assert(q <= 0x4000_0000_0000_0000) by (nonlinear_arith)
        requires
            q == magnitude / b,
            b > 1,
            magnitude <= 0x8000_0000_0000_0000,
    ;
    if a >= 0 {
        q as i64
    } else {
        -(q as i64)
    }
}

/// A year with four places, a sign among them.
pub open spec fn year_text(y: int) -> Seq<char> {
    if y < 0 {
        "-"@ + zero_padded(decimal((-y) as nat), 3)
    } else {
        zero_padded(decimal(y as nat), 4)
    }
}

/// A date as it is written.
pub open spec fn date_text(y: int, m: int, d: int) -> Seq<char> {
    year_text(y) + "-"@ + zero_padded(decimal(m as nat), 2) + "-"@ + zero_padded(
        decimal(d as nat),
        2,
    )
}

/// The day that a moment falls on, in days since the start of 1970. A moment before
/// that counts to the day nearer to it.
pub open spec fn day_of(ts_ms: int) -> int {
    toward_zero(toward_zero(ts_ms, 1000), 86400)
}

/// The date of a day as it is written.
pub open spec fn day_label(day: int) -> Seq<char> {
    let (y, m, d) = choose|y: int, m: int, d: int|
        valid_date(y, m, d) && #[trigger] day_number(y, m, d) == day;
    date_text(y, m, d)
}

/// The label of a day is that of its date.
pub proof fn law_day_label(y: int, m: int, d: int)
    requires
        valid_date(y, m, d),
    ensures
        day_label(day_number(y, m, d)) == date_text(y, m, d),
{
    let day = day_number(y, m, d);
    let (y2, m2, d2) = choose|y2: int, m2: int, d2: int|
        valid_date(y2, m2, d2) && #[trigger] day_number(y2, m2, d2) == day;
    law_date_is_unique(y, m, d, y2, m2, d2);
}

/// The date of a moment in milliseconds since the start of 1970.
pub fn format_jump_date(ts_ms: i64) -> (out: String)
    ensures
        out@ == day_label(day_of(ts_ms as int)),
        exists|y: int, m: int, d: int|
            valid_date(y, m, d) && #[trigger] day_number(y, m, d) == day_of(ts_ms as int) && out@
                == date_text(y, m, d),
{
    let secs: i64 = divide_toward_zero(ts_ms, 1_000);
    assert(-9_300_000_000_000_000 <= secs <= 9_300_000_000_000_000);
    let days: i64 = divide_toward_zero(secs, 86_400);
    assert(-200_000_000_000 <= days <= 200_000_000_000);
    let (y, m, d) = civil_date(days);
    let year = if y < 0 {
        let digits = decimal_u64((-y) as u64);
        let padded = zero_pad(digits.as_str(), 3);
        crate::text::cat2("-", padded.as_str())
    } else {
        let digits = decimal_u64(y as u64);
        zero_pad(digits.as_str(), 4)
    };
    let m_digits = decimal_u64(m);
    let month = zero_pad(m_digits.as_str(), 2);
    let d_digits = decimal_u64(d);
    let day = zero_pad(d_digits.as_str(), 2);
    let out = cat5(year.as_str(), "-", month.as_str(), "-", day.as_str());
    assert(day_number(y as int, m as int, d as int) == day_of(ts_ms as int));
    assert(out@ == date_text(y as int, m as int, d as int));
    proof {
        law_day_label(y as int, m as int, d as int);
    }
    out
}

} // verus!
