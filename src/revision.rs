use vstd::prelude::*;
use crate::naming::{is_digit, valid_revision};

verus! {

pub open spec fn is_leap(y: int) -> bool {
    (y % 4 == 0 && y % 100 != 0) || y % 400 == 0
}

pub open spec fn days_in_year(y: int) -> int {
    if is_leap(y) {
        366
    } else {
        365
    }
}

/// The days from 1 January 1970 to 1 January of year `y`.
pub open spec fn days_before_year(y: int) -> int
    decreases y - 1970,
{
    if y <= 1970 {
        0
    } else {
        days_before_year(y - 1) + days_in_year(y - 1)
    }
}

pub open spec fn days_in_month(y: int, m: int) -> int {
    if m == 2 {
        if is_leap(y) {
            29
        } else {
            28
        }
    } else if m == 4 || m == 6 || m == 9 || m == 11 {
        30
    } else {
        31
    }
}

/// The days from 1 January to the first day of month `m` of year `y`.
pub open spec fn days_before_month(y: int, m: int) -> int
    decreases m,
{
    if m <= 1 {
        0
    } else {
        days_before_month(y, m - 1) + days_in_month(y, m - 1)
    }
}

/// A date and a time of day in UTC, from 1970 to 9999.
pub open spec fn valid_instant(y: int, mo: int, d: int, h: int, mi: int, s: int) -> bool {
    &&& 1970 <= y <= 9999
    &&& 1 <= mo <= 12
    &&& 1 <= d <= days_in_month(y, mo)
    &&& 0 <= h < 24
    &&& 0 <= mi < 60
    &&& 0 <= s < 60
}

/// The seconds since 1970-01-01T00:00:00 UTC of an instant.
pub open spec fn unix_seconds(y: int, mo: int, d: int, h: int, mi: int, s: int) -> int {
    (days_before_year(y) + days_before_month(y, mo) + d - 1) * 86400 + h * 3600 + mi * 60 + s
}

pub open spec fn digit_char(d: int) -> char {
    (d + '0' as int) as char
}

/// The last `width` decimal digits of `v`, zero-padded.
pub open spec fn decimal(v: int, width: nat) -> Seq<char>
    decreases width,
{
    if width == 0 {
        seq![]
    } else {
        decimal(v / 10, (width - 1) as nat).push(digit_char(v % 10))
    }
}

/// The revision of an instant: `YYYYMMDDhhmmss`.
pub open spec fn revision_text(y: int, mo: int, d: int, h: int, mi: int, s: int) -> Seq<char> {
    decimal(y, 4) + decimal(mo, 2) + decimal(d, 2) + decimal(h, 2) + decimal(mi, 2) + decimal(s, 2)
}

proof fn lemma_days_before_year_monotone(a: int, b: int)
    requires
        1970 <= a <= b,
    ensures
        days_before_year(a) <= days_before_year(b),
    decreases b - a,
{
    if a < b {
        lemma_days_before_year_monotone(a, b - 1);
    }
}

proof fn lemma_decimal_digits(v: int, width: nat)
    requires
        v >= 0,
    ensures
        decimal(v, width).len() == width,
        forall|i: int| 0 <= i < width ==> is_digit(#[trigger] decimal(v, width)[i]),
    decreases width,
{
    if width > 0 {
        lemma_decimal_digits(v / 10, (width - 1) as nat);
        assert(0 <= v % 10 < 10);
    }
}

/// Appends the last `width` decimal digits of `v` to `out`.
fn push_decimal(out: String, v: u64, width: usize) -> (r: String)
    ensures
        r@ == out@ + decimal(v as int, width as nat),
    decreases width,
{
    if width == 0 {
        assert(out@ + decimal(v as int, 0) =~= out@);
        return out;
    }
    let s = push_decimal(out, v / 10, width - 1);
    let d = (v % 10) as usize;
    let digits = "0123456789";
    proof {
        reveal_strlit("0123456789");
    }
    let r = s.concat(digits.substring_char(d, d + 1));
    proof {
        assert(digits@.subrange(d as int, d + 1) =~= seq![digit_char(v as int % 10)]);
        assert(r@ =~= out@ + decimal(v as int, width as nat));
    }
    r
}

/// The revision of the instant `secs` seconds after 1970-01-01T00:00:00 UTC, in
/// the fixed-width form `YYYYMMDDhhmmss`; `None` for an instant after the year
/// 9999, which that form cannot hold.
pub fn revision_from_unix_seconds(secs: u64) -> (r: Option<String>)
    ensures
        (r is Some) == (secs < days_before_year(10000) * 86400),
        r matches Some(t) ==> valid_revision(t@) && exists|y: int, mo: int, d: int, h: int, mi: int, s: int|
            valid_instant(y, mo, d, h, mi, s) && unix_seconds(y, mo, d, h, mi, s) == secs
                && t@ == revision_text(y, mo, d, h, mi, s),
{
    let total_days = secs / 86400;
    let rest = secs % 86400;
    let mut days = total_days;
    let mut y: u64 = 1970;
    while y < 10000 && days >= year_length(y)
        invariant
            1970 <= y <= 10000,
            days_before_year(y as int) + days == total_days,
        decreases 10000 - y,
    {
        days = days - year_length(y);
        y = y + 1;
    }
    if y == 10000 {
        return None;
    }
    proof {
        lemma_days_before_year_monotone(y as int + 1, 10000);
    }
    let mut mo: u64 = 1;
    proof {
        reveal_with_fuel(days_before_month, 13);
    }
    while days >= month_length(y, mo)
        invariant
            1970 <= y < 10000,
            1 <= mo <= 12,
            days_before_month(y as int, mo as int) + days < days_in_year(y as int),
            days_before_year(y as int) + days_before_month(y as int, mo as int) + days == total_days,
            days_before_month(y as int, 13) == days_in_year(y as int),
        decreases 12 - mo,
    {
        days = days - month_length(y, mo);
        mo = mo + 1;
    }
    let d = days + 1;
    let h = rest / 3600;
    let mi = rest % 3600 / 60;
    let s = rest % 60;
    let t = push_decimal(String::new(), y, 4);
    let t = push_decimal(t, mo, 2);
    let t = push_decimal(t, d, 2);
    let t = push_decimal(t, h, 2);
    let t = push_decimal(t, mi, 2);
    let t = push_decimal(t, s, 2);
    proof {
        assert(t@ =~= revision_text(y as int, mo as int, d as int, h as int, mi as int, s as int));
        lemma_decimal_digits(y as int, 4);
        lemma_decimal_digits(mo as int, 2);
        lemma_decimal_digits(d as int, 2);
        lemma_decimal_digits(h as int, 2);
        lemma_decimal_digits(mi as int, 2);
        lemma_decimal_digits(s as int, 2);
        assert(valid_instant(y as int, mo as int, d as int, h as int, mi as int, s as int));
        assert(total_days * 86400 + rest == secs);
        assert(h * 3600 + mi * 60 + s == rest);
        assert(unix_seconds(y as int, mo as int, d as int, h as int, mi as int, s as int) == secs);
    }
    Some(t)
}

fn year_length(y: u64) -> (r: u64)
    ensures
        r == days_in_year(y as int),
{
    if (y % 4 == 0 && y % 100 != 0) || y % 400 == 0 {
        366
    } else {
        365
    }
}

fn month_length(y: u64, m: u64) -> (r: u64)
    ensures
        r == days_in_month(y as int, m as int),
{
    if m == 2 {
        if (y % 4 == 0 && y % 100 != 0) || y % 400 == 0 {
            29
        } else {
            28
        }
    } else if m == 4 || m == 6 || m == 9 || m == 11 {
        30
    } else {
        31
    }
}

} // verus!
