//! Calendar dates: the `YYYY-MM-DD` wire format, proleptic-Gregorian
//! epoch arithmetic, and the inclusive day-range boundaries that the
//! reporting views filter by.

use vstd::prelude::*;
use vstd::string::StrSliceExecFns;

verus! {

/// Milliseconds in one civil day.
pub const MILLIS_PER_DAY: i64 = 86_400_000;

pub open spec fn is_leap_year(y: int) -> bool {
    (y % 4 == 0 && y % 100 != 0) || y % 400 == 0
}

pub open spec fn days_in_month(y: int, m: int) -> int {
    if m == 2 {
        if is_leap_year(y) {
            29
        } else {
            28
        }
    } else if m == 4 || m == 6 || m == 9 || m == 11 {
        30
    } else {
        31
    }
}

/// Days between 1970-01-01 and the civil date y-m-d, for years from 1
/// (the shifted-era formula: years start in March, eras are 400-year
/// blocks of 146097 days).
pub open spec fn spec_days_from_civil(y: int, m: int, d: int) -> int {
    let yy = if m <= 2 {
        y - 1
    } else {
        y
    };
    let era = yy / 400;
    let yoe = yy - era * 400;
    let mp = if m > 2 {
        m - 3
    } else {
        m + 9
    };
    let doy = (153 * mp + 2) / 5 + d - 1;
    let doe = yoe * 365 + yoe / 4 - yoe / 100 + doy;
    era * 146097 + doe - 719468
}

pub open spec fn is_digit(c: char) -> bool {
    48 <= c as int <= 57
}

pub open spec fn digit_val(c: char) -> int {
    c as int - 48
}

/// The strict `YYYY-MM-DD` grammar: four digits, dash, two digits,
/// dash, two digits, naming a real calendar date with year at least 1.
/// Deliberately stricter than lenient date parsers: unpadded fields
/// (a one-digit month or day) and year zero are rejected, so every
/// accepted string has exactly one reading.
pub open spec fn spec_parse_date(s: Seq<char>) -> Option<(int, int, int)> {
    if s.len() == 10 && s[4] == '-' && s[7] == '-' && is_digit(s[0]) && is_digit(s[1]) && is_digit(
        s[2],
    ) && is_digit(s[3]) && is_digit(s[5]) && is_digit(s[6]) && is_digit(s[8]) && is_digit(s[9]) {
        let y = digit_val(s[0]) * 1000 + digit_val(s[1]) * 100 + digit_val(s[2]) * 10 + digit_val(
            s[3],
        );
        let m = digit_val(s[5]) * 10 + digit_val(s[6]);
        let d = digit_val(s[8]) * 10 + digit_val(s[9]);
        if 1 <= y && 1 <= m <= 12 && 1 <= d <= days_in_month(y, m) {
            Some((y, m, d))
        } else {
            None
        }
    } else {
        None
    }
}

/// The epoch milliseconds of a date string's start of day, or nothing
/// for a malformed or impossible date.
pub open spec fn spec_date_to_millis(s: Seq<char>) -> Option<i64> {
    match spec_parse_date(s) {
        Some((y, m, d)) => Some((spec_days_from_civil(y, m, d) * (MILLIS_PER_DAY as int)) as i64),
        None => None,
    }
}

/// The digit value of one character, or nothing.
fn digit_of(c: char) -> (r: Option<i64>)
    ensures
        match r {
            Some(v) => is_digit(c) && v == digit_val(c),
            None => !is_digit(c),
        },
{
    let u = c as u32;
    if 48 <= u && u <= 57 {
        Some((u - 48) as i64)
    } else {
        None
    }
}

/// Parse a strict `YYYY-MM-DD` date string to the epoch milliseconds
/// of its start of day (midnight, timezone-naive).
pub fn date_to_millis(date_str: &str) -> (r: Option<i64>)
    ensures
        r == spec_date_to_millis(date_str@),
{
    let n = date_str.unicode_len();
    if n != 10 {
        return None;
    }
    if date_str.get_char(4) != '-' || date_str.get_char(7) != '-' {
        return None;
    }
    let d0 = digit_of(date_str.get_char(0));
    let d1 = digit_of(date_str.get_char(1));
    let d2 = digit_of(date_str.get_char(2));
    let d3 = digit_of(date_str.get_char(3));
    let d5 = digit_of(date_str.get_char(5));
    let d6 = digit_of(date_str.get_char(6));
    let d8 = digit_of(date_str.get_char(8));
    let d9 = digit_of(date_str.get_char(9));
    let (y, m, d) = match (d0, d1, d2, d3, d5, d6, d8, d9) {
        (Some(a), Some(b), Some(c), Some(dd), Some(e), Some(f), Some(g), Some(h)) => (
            a * 1000 + b * 100 + c * 10 + dd,
            e * 10 + f,
            g * 10 + h,
        ),
        _ => {
            return None;
        },
    };
    if !(1 <= y && 1 <= m && m <= 12) {
        return None;
    }
    let dim: i64 = if m == 2 {
        if (y % 4 == 0 && y % 100 != 0) || y % 400 == 0 {
            29
        } else {
            28
        }
    } else if m == 4 || m == 6 || m == 9 || m == 11 {
        30
    } else {
        31
    };
    if !(1 <= d && d <= dim) {
        return None;
    }
    let yy: i64 = if m <= 2 {
        y - 1
    } else {
        y
    };
    let era: i64 = yy / 400;
    let yoe: i64 = yy - era * 400;
    let mp: i64 = if m > 2 {
        m - 3
    } else {
        m + 9
    };
    let doy: i64 = (153 * mp + 2) / 5 + d - 1;
    let doe: i64 = yoe * 365 + yoe / 4 - yoe / 100 + doy;
    let days: i64 = era * 146097 + doe - 719468;
    Some(days * MILLIS_PER_DAY)
}

/// The boundaries the range filter uses: start of the from
/// day to the last millisecond of the to day, both required.
pub open spec fn spec_date_range(from: Option<Seq<char>>, to: Option<Seq<char>>) -> Option<
    (i64, i64),
> {
    match (from, to) {
        (Some(f), Some(t)) => match (spec_date_to_millis(f), spec_date_to_millis(t)) {
            (Some(a), Some(b)) => Some((a, (b + MILLIS_PER_DAY - 1) as i64)),
            _ => None,
        },
        _ => None,
    }
}

/// Inclusive epoch-millisecond boundaries of a date range: from the
/// start of the first day to the end of the last.
pub fn date_range_millis(from: Option<&str>, to: Option<&str>) -> (r: Option<(i64, i64)>)
    ensures
        r == spec_date_range(crate::strutil::opt_str_view(from), crate::strutil::opt_str_view(to)),
{
    let f = match from {
        Some(s) => s,
        None => {
            return None;
        },
    };
    let t = match to {
        Some(s) => s,
        None => {
            return None;
        },
    };
    let a = match date_to_millis(f) {
        Some(v) => v,
        None => {
            return None;
        },
    };
    let b = match date_to_millis(t) {
        Some(v) => v,
        None => {
            return None;
        },
    };
    Some((a, b + (MILLIS_PER_DAY - 1)))
}

} // verus!
