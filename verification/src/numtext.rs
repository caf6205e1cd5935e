//! Decimal text for integers: the canonical, locale-independent rendering
//! used for every integer-like cell value.

use vstd::prelude::*;
use vstd::string::StringExecFns;

verus! {

/// The decimal digit character for `d`, which must lie in 0..=9.
pub open spec fn digit_char(d: int) -> char {
    if d == 0 {
        '0'
    } else if d == 1 {
        '1'
    } else if d == 2 {
        '2'
    } else if d == 3 {
        '3'
    } else if d == 4 {
        '4'
    } else if d == 5 {
        '5'
    } else if d == 6 {
        '6'
    } else if d == 7 {
        '7'
    } else if d == 8 {
        '8'
    } else {
        '9'
    }
}

/// Decimal text of a non-negative integer, most significant digit first,
/// with no leading zeros (except for 0 itself).
pub open spec fn dec_digits(n: int) -> Seq<char>
    recommends
        n >= 0,
    decreases n,
{
    if n < 10 {
        seq![digit_char(n)]
    } else {
        dec_digits(n / 10).push(digit_char(n % 10))
    }
}

/// Decimal text of a signed integer: a leading '-' for negative values.
pub open spec fn int_text(n: int) -> Seq<char> {
    if n < 0 {
        seq!['-'] + dec_digits(-n)
    } else {
        dec_digits(n)
    }
}

/// Decimal text is never empty.
pub proof fn lemma_dec_digits_len(n: int)
    ensures
        dec_digits(n).len() >= 1,
    decreases n,
{
    if n >= 10 {
        lemma_dec_digits_len(n / 10);
    }
}

/// Signed decimal text is never empty.
pub proof fn lemma_int_text_len(n: int)
    ensures
        int_text(n).len() >= 1,
{
    if n < 0 {
        lemma_dec_digits_len(-n);
    } else {
        lemma_dec_digits_len(n);
    }
}

/// A run of `k` zero characters.
pub open spec fn zeros(k: int) -> Seq<char>
    decreases k,
{
    if k <= 0 {
        Seq::empty()
    } else {
        zeros(k - 1).push('0')
    }
}

/// Decimal text of `n` left-padded with zeros to at least `w` characters.
pub open spec fn padded_dec(n: int, w: int) -> Seq<char> {
    zeros(w - dec_digits(n).len()) + dec_digits(n)
}

/// How many digits small non-negative integers render to.
pub proof fn lemma_dec_digits_len_bounds(n: int)
    requires
        0 <= n,
    ensures
        n < 10 ==> dec_digits(n).len() == 1,
        10 <= n < 100 ==> dec_digits(n).len() == 2,
        100 <= n < 1000 ==> dec_digits(n).len() == 3,
        1000 <= n < 10000 ==> dec_digits(n).len() == 4,
    decreases n,
{
    if n >= 10 {
        lemma_dec_digits_len_bounds(n / 10);
    }
}

fn digit_str(d: u128) -> (r: &'static str)
    requires
        d < 10,
    ensures
        r@ == seq![digit_char(d as int)],
{
    let s: &'static str = if d == 0 {
        "0"
    } else if d == 1 {
        "1"
    } else if d == 2 {
        "2"
    } else if d == 3 {
        "3"
    } else if d == 4 {
        "4"
    } else if d == 5 {
        "5"
    } else if d == 6 {
        "6"
    } else if d == 7 {
        "7"
    } else if d == 8 {
        "8"
    } else {
        "9"
    };
    proof {
        reveal_strlit("0");
        reveal_strlit("1");
        reveal_strlit("2");
        reveal_strlit("3");
        reveal_strlit("4");
        reveal_strlit("5");
        reveal_strlit("6");
        reveal_strlit("7");
        reveal_strlit("8");
        reveal_strlit("9");
        assert(s@ =~= seq![digit_char(d as int)]);
    }
    s
}

/// Renders an unsigned 128-bit integer as decimal text.
pub fn u128_text(n: u128) -> (r: String)
    ensures
        r@ == dec_digits(n as int),
    decreases n,
{
    if n < 10 {
        String::from_str(digit_str(n))
    } else {
        proof {
            assert(n as int / 10 < n as int) by (nonlinear_arith)
                requires
                    n >= 10,
            ;
        }
        let mut s = u128_text(n / 10);
        s.append(digit_str(n % 10));
        proof {
            assert(s@ =~= dec_digits(n as int));
        }
        s
    }
}

/// Renders a signed 128-bit integer as decimal text.
pub fn i128_text(n: i128) -> (r: String)
    ensures
        r@ == int_text(n as int),
{
    if n >= 0 {
        u128_text(n as u128)
    } else {
        let magnitude: u128 = ((-(n + 1)) as u128) + 1;
        let mut s = String::from_str("-");
        let digits = u128_text(magnitude);
        s.append(digits.as_str());
        proof {
            reveal_strlit("-");
            assert(s@ =~= int_text(n as int));
        }
        s
    }
}

/// Renders a `u64` as decimal text.
pub fn u64_text(n: u64) -> (r: String)
    ensures
        r@ == dec_digits(n as int),
{
    u128_text(n as u128)
}

/// Renders a `usize` as decimal text.
pub fn usize_text(n: usize) -> (r: String)
    ensures
        r@ == dec_digits(n as int),
{
    u128_text(n as u128)
}

/// Renders an `i64` as decimal text.
pub fn i64_text(n: i64) -> (r: String)
    ensures
        r@ == int_text(n as int),
{
    i128_text(n as i128)
}

/// Renders an `i32` as decimal text.
pub fn i32_text(n: i32) -> (r: String)
    ensures
        r@ == int_text(n as int),
{
    i128_text(n as i128)
}

/// Renders `n` as decimal text padded with zeros to two characters.
pub fn pad2_text(n: u32) -> (r: String)
    requires
        n < 100,
    ensures
        r@ == padded_dec(n as int, 2),
{
    let mut s = String::new();
    if n < 10 {
        s.append("0");
    }
    let digits = u128_text(n as u128);
    s.append(digits.as_str());
    proof {
        reveal_strlit("0");
        lemma_dec_digits_len_bounds(n as int);
        if n < 10 {
            assert(zeros(1) =~= seq!['0']);
            assert("0"@ =~= zeros(1));
        } else {
            assert(zeros(0) =~= Seq::<char>::empty());
        }
        assert(s@ =~= padded_dec(n as int, 2));
    }
    s
}

/// Renders `n` as decimal text padded with zeros to four characters.
pub fn pad4_text(n: u32) -> (r: String)
    requires
        n < 10000,
    ensures
        r@ == padded_dec(n as int, 4),
{
    let mut s = String::new();
    if n < 10 {
        s.append("000");
    } else if n < 100 {
        s.append("00");
    } else if n < 1000 {
        s.append("0");
    }
    let digits = u128_text(n as u128);
    s.append(digits.as_str());
    proof {
        reveal_strlit("0");
        reveal_strlit("00");
        reveal_strlit("000");
        reveal_with_fuel(zeros, 4);
        lemma_dec_digits_len_bounds(n as int);
        if n < 10 {
            assert("000"@ =~= zeros(3));
        } else if n < 100 {
            assert("00"@ =~= zeros(2));
        } else if n < 1000 {
            assert("0"@ =~= zeros(1));
        }
        assert(s@ =~= padded_dec(n as int, 4));
    }
    s
}

} // verus!
