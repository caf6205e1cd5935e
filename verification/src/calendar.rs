//! Proleptic Gregorian calendar arithmetic: conversion of a day offset from
//! the epoch 1970-01-01 into a civil (year, month, day) triple, for years
//! 0 through 9999 (the range whose years print as four digits).

use vstd::prelude::*;
use vstd::math::abs;
use vstd::arithmetic::div_mod::{lemma_fundamental_div_mod, lemma_fundamental_div_mod_converse};
use vstd::string::StringExecFns;
use crate::numtext::{padded_dec, pad2_text, pad4_text};

verus! {

/// Leap years of the proleptic Gregorian calendar.
pub open spec fn is_leap_year(y: int) -> bool {
    (y % 4 == 0 && y % 100 != 0) || y % 400 == 0
}

/// Length of year `y` in days.
pub open spec fn days_in_year(y: int) -> int {
    if is_leap_year(y) {
        366
    } else {
        365
    }
}

/// Length of month `m` (1-based) of year `y` in days; 0 outside 1..=12.
pub open spec fn days_in_month(y: int, m: int) -> int {
    if m == 1 {
        31
    } else if m == 2 {
        if is_leap_year(y) {
            29
        } else {
            28
        }
    } else if m == 3 {
        31
    } else if m == 4 {
        30
    } else if m == 5 {
        31
    } else if m == 6 {
        30
    } else if m == 7 {
        31
    } else if m == 8 {
        31
    } else if m == 9 {
        30
    } else if m == 10 {
        31
    } else if m == 11 {
        30
    } else if m == 12 {
        31
    } else {
        0
    }
}

/// Days of year `y` that precede the first day of month `m`.
pub open spec fn days_before_month(y: int, m: int) -> int
    decreases m,
{
    if m <= 1 {
        0
    } else {
        days_before_month(y, m - 1) + days_in_month(y, m - 1)
    }
}

/// Days from 1970-01-01 to the first day of year `y`; negative before 1970.
pub open spec fn days_before_year(y: int) -> int
    decreases abs(y - 1970),
{
    if y == 1970 {
        0
    } else if y > 1970 {
        days_before_year(y - 1) + days_in_year(y - 1)
    } else {
        days_before_year(y + 1) - days_in_year(y)
    }
}

/// A well-formed calendar date.
pub open spec fn valid_date(y: int, m: int, d: int) -> bool {
    1 <= m <= 12 && 1 <= d <= days_in_month(y, m)
}

/// The day offset of the date (y, m, d) from 1970-01-01.
pub open spec fn day_number(y: int, m: int, d: int) -> int {
    days_before_year(y) + days_before_month(y, m) + d - 1
}

/// (y, m, d) is the civil date standing `n` days after 1970-01-01,
/// within the four-digit-year range.
pub open spec fn is_civil_of(n: int, y: int, m: int, d: int) -> bool {
    0 <= y <= 9999 && valid_date(y, m, d) && day_number(y, m, d) == n
}

/// Day offsets that have a civil date with a four-digit year.
pub open spec fn renderable_day(n: int) -> bool {
    day_number(0, 1, 1) <= n <= day_number(9999, 12, 31)
}

pub proof fn lemma_dby_step(y: int)
    ensures
        days_before_year(y + 1) == days_before_year(y) + days_in_year(y),
{
    if y + 1 > 1970 {
        assert(days_before_year(y + 1) == days_before_year(y) + days_in_year(y));
    } else {
        assert(days_before_year(y) == days_before_year(y + 1) - days_in_year(y));
    }
}

pub proof fn lemma_dby_mono(a: int, b: int)
    requires
        a <= b,
    ensures
        days_before_year(a) <= days_before_year(b),
        a < b ==> days_before_year(a) + 365 <= days_before_year(b),
    decreases b - a,
{
    if a < b {
        lemma_dby_mono(a, b - 1);
        lemma_dby_step(b - 1);
    }
}

pub proof fn lemma_dbm_mono(y: int, m1: int, m2: int)
    requires
        m1 <= m2,
    ensures
        days_before_month(y, m1) <= days_before_month(y, m2),
    decreases m2 - m1,
{
    if m1 < m2 {
        lemma_dbm_mono(y, m1, m2 - 1);
    }
}

/// The twelve months sum to the year's length.
pub proof fn lemma_month_sum(y: int)
    ensures
        days_before_month(y, 12) + days_in_month(y, 12) == days_in_year(y),
{
    reveal_with_fuel(days_before_month, 13);
}

/// Every renderable civil date's day number lies within the renderable range.
pub proof fn lemma_day_number_in_range(n: int, y: int, m: int, d: int)
    requires
        is_civil_of(n, y, m, d),
    ensures
        renderable_day(n),
{
    lemma_dby_mono(0, y);
    lemma_dby_mono(y + 1, 10000);
    lemma_dby_step(y);
    lemma_dby_step(9999);
    lemma_dbm_mono(y, 1, m);
    lemma_dbm_mono(y, m + 1, 13);
    assert(days_before_month(y, m + 1) == days_before_month(y, m) + days_in_month(y, m));
    lemma_month_sum(y);
    assert(days_before_month(y, 13) == days_before_month(y, 12) + days_in_month(y, 12));
    lemma_month_sum(9999);
    assert(days_before_month(9999, 1) == 0);
}

/// A day number has at most one civil date.
pub proof fn lemma_civil_unique(n: int, y1: int, m1: int, d1: int, y2: int, m2: int, d2: int)
    requires
        is_civil_of(n, y1, m1, d1),
        is_civil_of(n, y2, m2, d2),
    ensures
        y1 == y2 && m1 == m2 && d1 == d2,
{
    lemma_year_unique(n, y1, m1, d1, y2, m2, d2);
    lemma_month_unique(y1, n - days_before_year(y1), m1, d1, m2, d2);
}

proof fn lemma_in_year_bounds(y: int, m: int, d: int)
    requires
        valid_date(y, m, d),
    ensures
        0 <= days_before_month(y, m) + d - 1 < days_in_year(y),
{
    lemma_dbm_mono(y, 1, m);
    lemma_dbm_mono(y, m + 1, 13);
    assert(days_before_month(y, m + 1) == days_before_month(y, m) + days_in_month(y, m));
    lemma_month_sum(y);
    assert(days_before_month(y, 13) == days_before_month(y, 12) + days_in_month(y, 12));
}

proof fn lemma_year_unique(n: int, y1: int, m1: int, d1: int, y2: int, m2: int, d2: int)
    requires
        is_civil_of(n, y1, m1, d1),
        is_civil_of(n, y2, m2, d2),
    ensures
        y1 == y2,
{
    lemma_in_year_bounds(y1, m1, d1);
    lemma_in_year_bounds(y2, m2, d2);
    lemma_dby_step(y1);
    lemma_dby_step(y2);
    if y1 < y2 {
        lemma_dby_mono(y1 + 1, y2);
        assert(false);
    }
    if y2 < y1 {
        lemma_dby_mono(y2 + 1, y1);
        assert(false);
    }
}

proof fn lemma_month_unique(y: int, r: int, m1: int, d1: int, m2: int, d2: int)
    requires
        valid_date(y, m1, d1),
        valid_date(y, m2, d2),
        days_before_month(y, m1) + d1 - 1 == r,
        days_before_month(y, m2) + d2 - 1 == r,
    ensures
        m1 == m2 && d1 == d2,
{
    if m1 < m2 {
        lemma_dbm_mono(y, m1 + 1, m2);
        assert(days_before_month(y, m1 + 1) == days_before_month(y, m1) + days_in_month(y, m1));
        assert(false);
    }
    if m2 < m1 {
        lemma_dbm_mono(y, m2 + 1, m1);
        assert(days_before_month(y, m2 + 1) == days_before_month(y, m2) + days_in_month(y, m2));
        assert(false);
    }
}

fn is_leap_year_x(y: u16) -> (r: bool)
    ensures
        r == is_leap_year(y as int),
{
    (y % 4 == 0 && y % 100 != 0) || y % 400 == 0
}

fn days_in_year_x(y: u16) -> (r: u16)
    ensures
        r as int == days_in_year(y as int),
{
    if is_leap_year_x(y) {
        366
    } else {
        365
    }
}

fn days_in_month_x(y: u16, m: u8) -> (r: u8)
    requires
        1 <= m <= 12,
    ensures
        r as int == days_in_month(y as int, m as int),
{
    if m == 1 {
        31
    } else if m == 2 {
        if is_leap_year_x(y) {
            29
        } else {
            28
        }
    } else if m == 3 {
        31
    } else if m == 4 {
        30
    } else if m == 5 {
        31
    } else if m == 6 {
        30
    } else if m == 7 {
        31
    } else if m == 8 {
        31
    } else if m == 9 {
        30
    } else if m == 10 {
        31
    } else if m == 11 {
        30
    } else {
        31
    }
}

/// Converts a day offset from 1970-01-01 into its civil date, if its year
/// has four decimal digits; `None` exactly outside that range.
pub fn civil_from_day_number(n: i64) -> (r: Option<(u16, u8, u8)>)
    ensures
        match r {
            Some(t) => is_civil_of(n as int, t.0 as int, t.1 as int, t.2 as int),
            None => !renderable_day(n as int),
        },
{
    let mut y: u16 = 1970;
    let mut rem: i64 = n;
    loop
        invariant
            0 <= y <= 9999,
            n as int == days_before_year(y as int) + rem,
        ensures
            0 <= y <= 9999,
            0 <= rem < days_in_year(y as int),
            n as int == days_before_year(y as int) + rem,
        decreases (if rem < 0 { 1int } else { 0int }), abs(rem as int),
    {
        if rem < 0 {
            if y == 0 {
                proof {
                    assert(days_before_month(0, 1) == 0);
                }
                return None;
            }
            let prev = days_in_year_x(y - 1) as i64;
            proof {
                lemma_dby_step(y as int - 1);
            }
            y = y - 1;
            rem = rem + prev;
        } else {
            let diy = days_in_year_x(y) as i64;
            if rem < diy {
                break;
            }
            if y == 9999 {
                proof {
                    lemma_dby_step(9999);
                    lemma_month_sum(9999);
                    assert(days_before_month(9999, 13) == days_before_month(9999, 12)
                        + days_in_month(9999, 12));
                    lemma_dbm_mono(9999, 12, 13);
                }
                return None;
            }
            proof {
                lemma_dby_step(y as int);
            }
            y = y + 1;
            rem = rem - diy;
        }
    }
    let mut m: u8 = 1;
    loop
        invariant
            1 <= m <= 12,
            0 <= rem,
            n as int == days_before_year(y as int) + days_before_month(y as int, m as int) + rem,
            days_before_month(y as int, m as int) + rem < days_in_year(y as int),
            0 <= y <= 9999,
        ensures
            1 <= m <= 12,
            0 <= rem < days_in_month(y as int, m as int),
            n as int == days_before_year(y as int) + days_before_month(y as int, m as int) + rem,
        decreases 12 - m as int,
    {
        let dim = days_in_month_x(y, m) as i64;
        if rem < dim {
            break;
        }
        if m == 12 {
            proof {
                lemma_month_sum(y as int);
                assert(false);
            }
        }
        proof {
            assert(days_before_month(y as int, m as int + 1) == days_before_month(
                y as int,
                m as int,
            ) + days_in_month(y as int, m as int));
        }
        m = m + 1;
        rem = rem - dim;
    }
    let d: u8 = (rem as u8) + 1;
    Some((y, m, d))
}

/// `YYYY-MM-DD` text of a civil date.
pub open spec fn ymd_text(y: int, m: int, d: int) -> Seq<char> {
    padded_dec(y, 4) + "-"@ + padded_dec(m, 2) + "-"@ + padded_dec(d, 2)
}

/// `HH:MM:SS` text of a second of the day.
pub open spec fn sod_text(s: int) -> Seq<char> {
    padded_dec(s / 3600, 2) + ":"@ + padded_dec((s % 3600) / 60, 2) + ":"@ + padded_dec(
        s % 60,
        2,
    )
}

/// `YYYY-MM-DD` text of the unique civil date `n` days after 1970-01-01;
/// meaningful only on renderable day offsets.
pub open spec fn civil_text(n: int) -> Seq<char> {
    let t = choose|t: (int, int, int)| is_civil_of(n, t.0, t.1, t.2);
    ymd_text(t.0, t.1, t.2)
}

fn ymd_string(y: u16, m: u8, d: u8) -> (r: String)
    requires
        y <= 9999,
        m <= 12,
        d <= 31,
    ensures
        r@ == ymd_text(y as int, m as int, d as int),
{
    let mut s = pad4_text(y as u32);
    s.append("-");
    let mm = pad2_text(m as u32);
    s.append(mm.as_str());
    s.append("-");
    let dd = pad2_text(d as u32);
    s.append(dd.as_str());
    proof {
        assert(s@ =~= ymd_text(y as int, m as int, d as int));
    }
    s
}

/// Renders the second `sod` of a day as `HH:MM:SS`.
pub fn sod_string(sod: u32) -> (r: String)
    requires
        sod < 86400,
    ensures
        r@ == sod_text(sod as int),
{
    let h = sod / 3600;
    let mi = (sod % 3600) / 60;
    let se = sod % 60;
    let mut s = pad2_text(h);
    s.append(":");
    let m_text = pad2_text(mi);
    s.append(m_text.as_str());
    s.append(":");
    let s_text = pad2_text(se);
    s.append(s_text.as_str());
    proof {
        assert(s@ =~= sod_text(sod as int));
    }
    s
}

/// Renders the day offset `n` from 1970-01-01 as `YYYY-MM-DD`, or `None`
/// exactly when the date's year would fall outside 0..=9999.
pub fn day_number_string(n: i64) -> (r: Option<String>)
    ensures
        match r {
            Some(s) => renderable_day(n as int) && s@ == civil_text(n as int),
            None => !renderable_day(n as int),
        },
{
    match civil_from_day_number(n) {
        None => None,
        Some(t) => {
            let (y, m, d) = t;
            proof {
                lemma_day_number_in_range(n as int, y as int, m as int, d as int);
                let w = choose|w: (int, int, int)| is_civil_of(n as int, w.0, w.1, w.2);
                assert(is_civil_of(n as int, y as int, m as int, d as int));
                lemma_civil_unique(n as int, w.0, w.1, w.2, y as int, m as int, d as int);
            }
            Some(ymd_string(y, m, d))
        },
    }
}

/// Floor division of `t` by a positive divisor `k` (rounds toward
/// negative infinity, as the specification-level `/` does).
pub fn floor_div_i64(t: i64, k: u32) -> (q: i64)
    requires
        2 <= k,
    ensures
        q as int == t as int / k as int,
{
    if t >= 0 {
        let q0 = (t as u64) / (k as u64);
        q0 as i64
    } else {
        let m: u64 = ((-(t + 1)) as u64) + 1;
        let q0 = m / (k as u64);
        let r0 = m % (k as u64);
        let qi: u64 = if r0 == 0 {
            q0
        } else {
            q0 + 1
        };
        proof {
            lemma_fundamental_div_mod(m as int, k as int);
            assert(m as int == (k as int) * (q0 as int) + r0 as int);
            assert(t as int == -(m as int));
            if r0 == 0 {
                assert(t as int == (k as int) * (-(q0 as int)) + 0) by (nonlinear_arith)
                    requires
                        m as int == (k as int) * (q0 as int),
                        t as int == -(m as int),
                ;
                lemma_fundamental_div_mod_converse(t as int, k as int, -(q0 as int), 0);
            } else {
                assert(t as int == (k as int) * (-(q0 as int) - 1) + ((k as int) - (
                r0 as int))) by (nonlinear_arith)
                    requires
                        m as int == (k as int) * (q0 as int) + r0 as int,
                        t as int == -(m as int),
                ;
                lemma_fundamental_div_mod_converse(
                    t as int,
                    k as int,
                    -(q0 as int) - 1,
                    (k as int) - (r0 as int),
                );
            }
            assert(2 * (q0 as int) <= m as int) by (nonlinear_arith)
                requires
                    m as int == (k as int) * (q0 as int) + r0 as int,
                    k as int >= 2,
                    r0 as int >= 0,
                    q0 as int >= 0,
            ;
        }
        -(qi as i64)
    }
}

} // verus!
