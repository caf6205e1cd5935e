//! The value normalizer: a total, panic-free mapping from every physical
//! storage kind of the analytical engine to canonical display text.

use vstd::prelude::*;
use vstd::arithmetic::div_mod::{lemma_fundamental_div_mod, lemma_mod_bound};
use vstd::string::StringExecFns;
use crate::calendar::{
    civil_text, day_number_string, floor_div_i64, is_civil_of, lemma_dby_step, lemma_month_sum,
    days_before_year, days_before_month, days_in_month, days_in_year, day_number, renderable_day,
    sod_string, sod_text,
};
use crate::numtext::{dec_digits, i128_text, i64_text, i32_text, int_text, lemma_dec_digits_len,
    u128_text, usize_text};

verus! {

/// Resolution of a stored timestamp value.
#[derive(Clone, Copy, Debug, PartialEq, Eq, Structural)]
pub enum TimeUnit {
    Second,
    Millisecond,
    Microsecond,
    Nanosecond,
}

/// One engine value, reduced to the plain data the normalizer reads.
///
/// Floating-point, decimal and unrecognized values arrive with the text the
/// storage layer already produced for them (shortest round-trip rendering
/// for floats, exact decimal text, debug text); every other kind carries
/// its raw value and is rendered here.
#[derive(Clone, Debug, PartialEq)]
pub enum CellValue {
    /// A storage-level null.
    Null,
    Boolean(bool),
    /// Any signed integer width up to 128 bits.
    Int(i128),
    /// Any unsigned integer width up to 128 bits.
    UInt(u128),
    /// A 32- or 64-bit float, pre-rendered as shortest round-trip text.
    Float(String),
    /// A fixed-point decimal, in its exact storage-layer text.
    Decimal(String),
    /// Text bytes, possibly invalid UTF-8; repaired at render time.
    Text(Vec<u8>),
    /// Binary data; only its length is ever shown.
    Blob(Vec<u8>),
    /// Days since 1970-01-01.
    Date32(i32),
    /// A count of units since 1970-01-01 00:00:00 UTC.
    Timestamp(TimeUnit, i64),
    /// A time of day; rendered as its raw value, like the storage layer's
    /// debug form.
    Time64(TimeUnit, i64),
    Interval { months: i32, days: i32, nanos: i64 },
    /// A list value; the grid shows a placeholder, never the elements.
    List,
    /// A struct value; the grid shows a placeholder, never the fields.
    Struct,
    /// A dictionary-encoded enum, as its entry index.
    Enum(u64),
    /// Any unrecognized or future storage kind, pre-rendered as debug text.
    Other(String),
}

/// What `String::from_utf8_lossy` yields on the given bytes.
pub uninterp spec fn utf8_lossy_of(b: Seq<u8>) -> Seq<char>;

/// Relies on std's `String::from_utf8_lossy`: invalid UTF-8 sequences are
/// replaced with U+FFFD, never dropped, so the result is empty exactly when
/// the input is.
#[verifier::external_body]
fn utf8_lossy(b: &Vec<u8>) -> (r: String)
    ensures
        r@ == utf8_lossy_of(b@),
        b@.len() == 0 <==> r@.len() == 0,
{
    String::from_utf8_lossy(b.as_slice()).into_owned()
}

/// The reserved display text of a storage-level null.
pub open spec fn null_text() -> Seq<char> {
    "(null)"@
}

pub open spec fn bool_text(b: bool) -> Seq<char> {
    if b {
        "true"@
    } else {
        "false"@
    }
}

pub open spec fn blob_text(len: int) -> Seq<char> {
    "<blob "@ + dec_digits(len) + " bytes>"@
}

pub open spec fn date32_text(d: int) -> Seq<char> {
    if renderable_day(d) {
        civil_text(d)
    } else {
        "Date32("@ + int_text(d) + ")"@
    }
}

pub open spec fn unit_divisor(u: TimeUnit) -> int {
    match u {
        TimeUnit::Second => 1,
        TimeUnit::Millisecond => 1000,
        TimeUnit::Microsecond => 1000000,
        TimeUnit::Nanosecond => 1000000000,
    }
}

pub open spec fn unit_name(u: TimeUnit) -> Seq<char> {
    match u {
        TimeUnit::Second => "Second"@,
        TimeUnit::Millisecond => "Millisecond"@,
        TimeUnit::Microsecond => "Microsecond"@,
        TimeUnit::Nanosecond => "Nanosecond"@,
    }
}

/// A timestamp renders as the UTC wall clock of its whole-second part,
/// `YYYY-MM-DD HH:MM:SS`; out of the renderable range it falls back to a
/// debug-style form over the raw value.
pub open spec fn timestamp_text(u: TimeUnit, t: int) -> Seq<char> {
    let secs = t / unit_divisor(u);
    if renderable_day(secs / 86400) {
        civil_text(secs / 86400) + " "@ + sod_text(secs % 86400)
    } else {
        "Timestamp("@ + unit_name(u) + ", "@ + int_text(t) + ")"@
    }
}

pub open spec fn time64_text(t: int) -> Seq<char> {
    "Time64("@ + int_text(t) + ")"@
}

pub open spec fn interval_text(months: int, days: int, nanos: int) -> Seq<char> {
    "Interval(M: "@ + int_text(months) + ", D: "@ + int_text(days) + ", N: "@ + int_text(nanos)
        + ")"@
}

pub open spec fn enum_text(idx: int) -> Seq<char> {
    "Enum("@ + dec_digits(idx) + ")"@
}

/// The canonical display text of every storage value.
pub open spec fn spec_normalize(v: CellValue) -> Seq<char> {
    match v {
        CellValue::Null => null_text(),
        CellValue::Boolean(b) => bool_text(b),
        CellValue::Int(i) => int_text(i as int),
        CellValue::UInt(i) => dec_digits(i as int),
        CellValue::Float(s) => s@,
        CellValue::Decimal(s) => s@,
        CellValue::Text(b) => utf8_lossy_of(b@),
        CellValue::Blob(b) => blob_text(b@.len() as int),
        CellValue::Date32(d) => date32_text(d as int),
        CellValue::Timestamp(u, t) => timestamp_text(u, t as int),
        CellValue::Time64(_u, t) => time64_text(t as int),
        CellValue::Interval { months, days, nanos } => interval_text(
            months as int,
            days as int,
            nanos as int,
        ),
        CellValue::List => "[List]"@,
        CellValue::Struct => "{Struct}"@,
        CellValue::Enum(idx) => enum_text(idx as int),
        CellValue::Other(s) => s@,
    }
}

/// Whether the text carried inside `v` (repaired text bytes, or the
/// storage layer's own rendering of floats, decimals and unknown kinds)
/// is non-empty; vacuously true for every kind rendered here.
pub open spec fn has_visible_text(v: CellValue) -> bool {
    match v {
        CellValue::Text(b) => utf8_lossy_of(b@).len() > 0,
        CellValue::Float(s) => s@.len() > 0,
        CellValue::Decimal(s) => s@.len() > 0,
        CellValue::Other(s) => s@.len() > 0,
        _ => true,
    }
}

/// A null cell always renders as exactly the reserved sentinel.
pub proof fn lemma_null_sentinel()
    ensures
        spec_normalize(CellValue::Null) == "(null)"@,
{
}

proof fn lemma_padded_dec_len(n: int, w: int)
    ensures
        crate::numtext::padded_dec(n, w).len() >= 1,
{
    lemma_dec_digits_len(n);
}

/// For every storage kind whose carried text is not itself empty, the
/// normalized display string is non-empty.
pub proof fn lemma_normalize_non_empty(v: CellValue)
    requires
        has_visible_text(v),
    ensures
        spec_normalize(v).len() > 0,
{
    reveal_strlit("(null)");
    reveal_strlit("true");
    reveal_strlit("false");
    reveal_strlit("<blob ");
    reveal_strlit("[List]");
    reveal_strlit("{Struct}");
    reveal_strlit("Enum(");
    reveal_strlit("Time64(");
    reveal_strlit("Interval(M: ");
    reveal_strlit("Date32(");
    reveal_strlit("Timestamp(");
    match v {
        CellValue::Int(i) => {
            crate::numtext::lemma_int_text_len(i as int);
        },
        CellValue::UInt(i) => {
            lemma_dec_digits_len(i as int);
        },
        CellValue::Blob(b) => {
            lemma_dec_digits_len(b@.len() as int);
        },
        CellValue::Date32(d) => {
            if renderable_day(d as int) {
                let t = choose|t: (int, int, int)| is_civil_of(d as int, t.0, t.1, t.2);
                lemma_padded_dec_len(t.0, 4);
            }
        },
        CellValue::Timestamp(u, t) => {
            let secs = t as int / unit_divisor(u);
            if renderable_day(secs / 86400) {
                let w = choose|w: (int, int, int)| is_civil_of(secs / 86400, w.0, w.1, w.2);
                lemma_padded_dec_len(w.0, 4);
            }
        },
        CellValue::Enum(idx) => {
            lemma_dec_digits_len(idx as int);
        },
        _ => {},
    }
}

/// The schema name a describe-result cell yields: its repaired text, or
/// the empty string for a cell that is not text.
pub open spec fn column_name_of(c: CellValue) -> Seq<char> {
    match c {
        CellValue::Text(b) => utf8_lossy_of(b@),
        _ => Seq::<char>::empty(),
    }
}

/// Extracts a column name from one cell of a describe result.
pub fn column_name(c: &CellValue) -> (r: String)
    ensures
        r@ == column_name_of(*c),
{
    match c {
        CellValue::Text(b) => utf8_lossy(b),
        _ => String::new(),
    }
}

fn unit_str(u: TimeUnit) -> (r: &'static str)
    ensures
        r@ == unit_name(u),
{
    match u {
        TimeUnit::Second => "Second",
        TimeUnit::Millisecond => "Millisecond",
        TimeUnit::Microsecond => "Microsecond",
        TimeUnit::Nanosecond => "Nanosecond",
    }
}

/// Bound on the distance of `days_before_year` from the epoch.
proof fn lemma_dby_growth(a: int, b: int)
    requires
        a <= b,
    ensures
        365 * (b - a) <= days_before_year(b) - days_before_year(a) <= 366 * (b - a),
    decreases b - a,
{
    if a < b {
        lemma_dby_growth(a, b - 1);
        lemma_dby_step(b - 1);
    }
}

/// Every renderable day offset is small enough that whole-day arithmetic
/// stays far inside 64-bit range.
proof fn lemma_renderable_bounds(n: int)
    requires
        renderable_day(n),
    ensures
        -800000 <= n <= 4000000,
{
    lemma_dby_growth(0, 1970);
    lemma_dby_growth(1970, 9999);
    lemma_dby_step(9999);
    lemma_month_sum(9999);
    assert(days_before_month(9999, 13) == days_before_month(9999, 12) + days_in_month(9999, 12));
    assert(days_before_month(0, 1) == 0);
}

fn timestamp_string(u: TimeUnit, t: i64) -> (r: String)
    ensures
        r@ == timestamp_text(u, t as int),
{
    let secs: i64 = match u {
        TimeUnit::Second => t,
        TimeUnit::Millisecond => floor_div_i64(t, 1000),
        TimeUnit::Microsecond => floor_div_i64(t, 1000000),
        TimeUnit::Nanosecond => floor_div_i64(t, 1000000000),
    };
    let days = floor_div_i64(secs, 86400);
    match day_number_string(days) {
        Some(date_part) => {
            proof {
                lemma_renderable_bounds(days as int);
                lemma_fundamental_div_mod(secs as int, 86400);
                lemma_mod_bound(secs as int, 86400);
            }
            let sod: i64 = secs - days * 86400;
            let mut s = date_part;
            s.append(" ");
            let time_part = sod_string(sod as u32);
            s.append(time_part.as_str());
            proof {
                assert(s@ =~= timestamp_text(u, t as int));
            }
            s
        },
        None => {
            let mut s = String::from_str("Timestamp(");
            s.append(unit_str(u));
            s.append(", ");
            let raw = i64_text(t);
            s.append(raw.as_str());
            s.append(")");
            proof {
                assert(s@ =~= timestamp_text(u, t as int));
            }
            s
        },
    }
}

/// Converts one engine value into its canonical display string: a total
/// function over every storage kind, never panicking, locale-independent.
pub fn normalize(v: &CellValue) -> (r: String)
    ensures
        r@ == spec_normalize(*v),
{
    match v {
        CellValue::Null => String::from_str("(null)"),
        CellValue::Boolean(b) => {
            if *b {
                String::from_str("true")
            } else {
                String::from_str("false")
            }
        },
        CellValue::Int(i) => i128_text(*i),
        CellValue::UInt(i) => u128_text(*i),
        CellValue::Float(s) => s.clone(),
        CellValue::Decimal(s) => s.clone(),
        CellValue::Text(b) => utf8_lossy(b),
        CellValue::Blob(b) => {
            let mut s = String::from_str("<blob ");
            let len = usize_text(b.len());
            s.append(len.as_str());
            s.append(" bytes>");
            proof {
                assert(s@ =~= blob_text(b@.len() as int));
            }
            s
        },
        CellValue::Date32(d) => {
            match day_number_string(*d as i64) {
                Some(s) => s,
                None => {
                    let mut s = String::from_str("Date32(");
                    let raw = i32_text(*d);
                    s.append(raw.as_str());
                    s.append(")");
                    proof {
                        assert(s@ =~= date32_text(*d as int));
                    }
                    s
                },
            }
        },
        CellValue::Timestamp(u, t) => timestamp_string(*u, *t),
        CellValue::Time64(_u, t) => {
            let mut s = String::from_str("Time64(");
            let raw = i64_text(*t);
            s.append(raw.as_str());
            s.append(")");
            proof {
                assert(s@ =~= time64_text(*t as int));
            }
            s
        },
        CellValue::Interval { months, days, nanos } => {
            let mut s = String::from_str("Interval(M: ");
            let m_text = i32_text(*months);
            s.append(m_text.as_str());
            s.append(", D: ");
            let d_text = i32_text(*days);
            s.append(d_text.as_str());
            s.append(", N: ");
            let n_text = i64_text(*nanos);
            s.append(n_text.as_str());
            s.append(")");
            proof {
                assert(s@ =~= interval_text(*months as int, *days as int, *nanos as int));
            }
            s
        },
        CellValue::List => String::from_str("[List]"),
        CellValue::Struct => String::from_str("{Struct}"),
        CellValue::Enum(idx) => {
            let mut s = String::from_str("Enum(");
            let raw = u128_text(*idx as u128);
            s.append(raw.as_str());
            s.append(")");
            proof {
                assert(s@ =~= enum_text(*idx as int));
            }
            s
        },
        CellValue::Other(s) => s.clone(),
    }
}

} // verus!
