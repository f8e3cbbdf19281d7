//! Wall-clock readings, behind trusted wrappers: nothing is promised
//! of a reading beyond nonnegativity, and everything computed from one
//! is verified on the plain value.

use vstd::prelude::*;
use vstd::string::StringExecFns;
use std::time::{SystemTime, UNIX_EPOCH};

verus! {

/// Relies on std::time::SystemTime::now (with duration_since from the
/// Unix epoch): the current time in milliseconds since the epoch. A
/// clock before the epoch or out of range reads as zero.
#[verifier::external_body]
fn read_clock_millis() -> (r: i64)
    ensures
        0 <= r,
{
    let d = SystemTime::now().duration_since(UNIX_EPOCH).unwrap_or_default();
    match i64::try_from(d.as_millis()) {
        Ok(v) => v,
        Err(_) => 0,
    }
}

/// Relies on std::time::SystemTime::now (with duration_since from the
/// Unix epoch): the current time in whole seconds since the epoch. A
/// clock before the epoch or out of range reads as zero.
#[verifier::external_body]
fn read_clock_secs() -> (r: i64)
    ensures
        0 <= r,
{
    let d = SystemTime::now().duration_since(UNIX_EPOCH).unwrap_or_default();
    match i64::try_from(d.as_secs()) {
        Ok(v) => v,
        Err(_) => 0,
    }
}

/// The current time in milliseconds since the epoch, never negative —
/// the form every lifecycle operation takes its `now` argument in.
pub fn now_millis() -> (r: i64)
    ensures
        0 <= r,
{
    read_clock_millis()
}

/// The current time in whole seconds since the epoch, never negative.
pub fn now_unix() -> (r: i64)
    ensures
        0 <= r,
{
    read_clock_secs()
}

pub open spec fn spec_digit_char(d: int) -> char {
    if d == 0 {
        '0'
    } else if d == 1 {
        '1'
    } else if d == 2 {
        '2'
    } else if d == 3 {
        '3'
    } else if d == 4 {
        '4'
    } else if d == 5 {
        '5'
    } else if d == 6 {
        '6'
    } else if d == 7 {
        '7'
    } else if d == 8 {
        '8'
    } else {
        '9'
    }
}

/// The decimal numeral of a nonnegative integer, most significant
/// digit first, without leading zeros (a lone zero for zero).
pub open spec fn spec_decimal(n: int) -> Seq<char>
    recommends
        0 <= n,
    decreases n,
{
    if n < 10 {
        seq![spec_digit_char(n)]
    } else {
        spec_decimal(n / 10).push(spec_digit_char(n % 10))
    }
}

fn digit_str(d: i64) -> (r: &'static str)
    requires
        0 <= d < 10,
    ensures
        r@ == seq![spec_digit_char(d as int)],
{
    proof {
        reveal_strlit("0");
        reveal_strlit("1");
        reveal_strlit("2");
        reveal_strlit("3");
        reveal_strlit("4");
        reveal_strlit("5");
        reveal_strlit("6");
        reveal_strlit("7");
        reveal_strlit("8");
        reveal_strlit("9");
    }
    let r = if d == 0 {
        "0"
    } else if d == 1 {
        "1"
    } else if d == 2 {
        "2"
    } else if d == 3 {
        "3"
    } else if d == 4 {
        "4"
    } else if d == 5 {
        "5"
    } else if d == 6 {
        "6"
    } else if d == 7 {
        "7"
    } else if d == 8 {
        "8"
    } else {
        "9"
    };
    proof {
        assert(r@ =~= seq![spec_digit_char(d as int)]);
    }
    r
}

/// The decimal numeral of a nonnegative count of seconds (or anything
/// else nonnegative).
pub fn decimal_string(n: i64) -> (r: String)
    requires
        0 <= n,
    ensures
        r@ == spec_decimal(n as int),
    decreases n,
{
    if n < 10 {
        digit_str(n).to_owned()
    } else {
        let mut s = decimal_string(n / 10);
        s.append(digit_str(n % 10));
        proof {
            assert(spec_decimal((n / 10) as int).push(spec_digit_char((n % 10) as int)) =~= spec_decimal(
                (n / 10) as int,
            ) + seq![spec_digit_char((n % 10) as int)]);
        }
        s
    }
}

/// The current time as a plain decimal string of epoch seconds (the
/// wire format the order records carry for `placedAt`).
pub fn now_rfc3339() -> (r: String)
    ensures
        exists|t: int| 0 <= t && r@ == spec_decimal(t),
{
    let t = now_unix();
    let s = decimal_string(t);
    proof {
        assert(0 <= t as int && s@ == spec_decimal(t as int));
    }
    s
}

} // verus!
