//! The values of a datapoint, checked against the declared type of their column.

use vstd::prelude::*;
use crate::project::DataType;

verus! {

/// `c` is one of the ten decimal digits.
pub open spec fn is_digit(c: char) -> bool {
    '0' <= c <= '9'
}

/// The number that the digits of `s` write, read as a decimal numeral.
pub open spec fn digits_value(s: Seq<char>) -> int
    decreases s.len(),
{
    if s.len() == 0 {
        0
    } else {
        10 * digits_value(s.drop_last()) + (s.last() as int - '0' as int)
    }
}

/// Every character of `s` is a digit.
pub open spec fn all_digits(s: Seq<char>) -> bool {
    forall|i: int| 0 <= i < s.len() ==> is_digit(#[trigger] s[i])
}

/// `s` begins with a sign.
pub open spec fn signed(s: Seq<char>) -> bool {
    s.len() > 0 && (s[0] == '-' || s[0] == '+')
}

/// `s` without its sign, if it has one.
pub open spec fn magnitude(s: Seq<char>) -> Seq<char> {
    if signed(s) {
        s.subrange(1, s.len() as int)
    } else {
        s
    }
}

/// `s` writes a whole number between `min` and `max`: an optional sign, then
/// digits and nothing else.
pub open spec fn is_integer(s: Seq<char>, min: int, max: int) -> bool {
    let m = magnitude(s);
    let value = if signed(s) && s[0] == '-' {
        -digits_value(m)
    } else {
        digits_value(m)
    };
    m.len() > 0 && all_digits(m) && min <= value <= max
}

/// The number of characters of `s` that are digits.
pub open spec fn digit_count(s: Seq<char>) -> nat
    decreases s.len(),
{
    if s.len() == 0 {
        0
    } else {
        digit_count(s.drop_last()) + if is_digit(s.last()) {
            1nat
        } else {
            0nat
        }
    }
}

/// The number of characters of `s` that are a decimal point.
pub open spec fn point_count(s: Seq<char>) -> nat
    decreases s.len(),
{
    if s.len() == 0 {
        0
    } else {
        point_count(s.drop_last()) + if s.last() == '.' {
            1nat
        } else {
            0nat
        }
    }
}

/// `s` writes a number in plain decimal notation: an optional sign, then digits
/// with at most one decimal point among them, and at least one digit.
pub open spec fn is_decimal(s: Seq<char>) -> bool {
    let m = magnitude(s);
    &&& digit_count(m) >= 1
    &&& point_count(m) <= 1
    &&& digit_count(m) + point_count(m) == m.len()
}

/// A column of the type `column_type` can hold `value`. Text and raw columns
/// hold anything; integer columns hold numerals of 32 bits, big integer columns
/// numerals of 64 bits, and float columns numbers in plain decimal notation.
pub open spec fn storable(column_type: DataType, value: Seq<char>) -> bool {
    match column_type {
        DataType::Text => true,
        DataType::Raw => true,
        DataType::Integer => is_integer(value, i32::MIN as int, i32::MAX as int),
        DataType::BigInteger => is_integer(value, i64::MIN as int, i64::MAX as int),
        DataType::Float => is_decimal(value),
    }
}

/// A numeral with more digits is no smaller.
proof fn lemma_digits_value_grows(s: Seq<char>)
    requires
        all_digits(s),
    ensures
        0 <= digits_value(s),
        s.len() > 0 ==> digits_value(s.drop_last()) <= digits_value(s),
    decreases s.len(),
{
    if s.len() > 0 {
        assert(is_digit(s[s.len() - 1]));
        assert forall|i: int| 0 <= i < s.drop_last().len() implies is_digit(
            #[trigger] s.drop_last()[i],
        ) by {
            assert(s.drop_last()[i] == s[i]);
        }
        lemma_digits_value_grows(s.drop_last());
    }
}

/// Decides whether `s` writes a whole number between `min` and `max`.
pub fn fits_integer(s: &str, min: i64, max: i64) -> (ok: bool)
    ensures
        ok == is_integer(s@, min as int, max as int),
{
    let n = s.unicode_len();
    if n == 0 {
        return false;
    }
    let first = s.get_char(0);
    let negative = first == '-';
    let start: usize = if first == '-' || first == '+' {
        1
    } else {
        0
    };
    let ghost m = magnitude(s@);
    if start == n {
        return false;
    }
    let cap: i128 = 0x8000_0000_0000_0000;
    let mut acc: i128 = 0;
    let mut i: usize = start;
    while i < n
        invariant
            start <= i <= n,
            n == s@.len(),
            m == magnitude(s@),
            m.len() == n - start,
            forall|k: int| 0 <= k < m.len() ==> m[k] == s@[start + k],
            all_digits(m.take(i - start)),
            cap == 0x8000_0000_0000_0000,
            0 <= acc <= cap + 1,
            digits_value(m.take(i - start)) <= cap ==> acc == digits_value(m.take(i - start)),
            digits_value(m.take(i - start)) > cap ==> acc == cap + 1,
        decreases n - i,
    {
        let c = s.get_char(i);
        let ghost next = m.take(i - start + 1);
        proof {
            assert(next.drop_last() =~= m.take(i - start));
            assert(next.last() == c);
        }
        if !(c >= '0' && c <= '9') {
            assert(!is_digit(m[i - start]));
            return false;
        }
        proof {
            assert forall|k: int| 0 <= k < next.len() implies is_digit(#[trigger] next[k]) by {
                if k < i - start {
                    assert(m.take(i - start)[k] == next[k]);
                }
            }
            lemma_digits_value_grows(next);
        }
        let digit: i128 = (c as u32 - '0' as u32) as i128;
        if acc <= cap {
            acc = acc * 10 + digit;
            if acc > cap {
                acc = cap + 1;
            }
        }
        i += 1;
    }
    proof {
        assert(m.take(n - start) =~= m);
    }
    if acc > cap {
        return false;
    }
    let value: i128 = if negative {
        -acc
    } else {
        acc
    };
    min as i128 <= value && value <= max as i128
}

/// Decides whether `s` writes a number in plain decimal notation.
pub fn fits_decimal(s: &str) -> (ok: bool)
    ensures
        ok == is_decimal(s@),
{
    let n = s.unicode_len();
    if n == 0 {
        assert(digit_count(magnitude(s@)) == 0);
        return false;
    }
    let first = s.get_char(0);
    let start: usize = if first == '-' || first == '+' {
        1
    } else {
        0
    };
    let ghost m = magnitude(s@);
    let mut digits: usize = 0;
    let mut points: usize = 0;
    let mut i: usize = start;
    while i < n
        invariant
            start <= i <= n,
            n == s@.len(),
            m == magnitude(s@),
            m.len() == n - start,
            forall|k: int| 0 <= k < m.len() ==> m[k] == s@[start + k],
            digits == digit_count(m.take(i - start)),
            points == point_count(m.take(i - start)),
            digits + points == i - start,
        decreases n - i,
    {
        let c = s.get_char(i);
        let ghost next = m.take(i - start + 1);
        proof {
            assert(next.drop_last() =~= m.take(i - start));
            assert(next.last() == c);
        }
        if c >= '0' && c <= '9' {
            digits += 1;
        } else if c == '.' {
            points += 1;
        } else {
            proof {
                lemma_counts_bounded(m, i - start + 1);
            }
            return false;
        }
        i += 1;
    }
    proof {
        assert(m.take(n - start) =~= m);
    }
    digits >= 1 && points <= 1
}

/// Digits and points together never outnumber the characters, and once a
/// character is neither, they stay fewer.
proof fn lemma_counts_bounded(m: Seq<char>, k: int)
    requires
        0 <= k <= m.len(),
    ensures
        digit_count(m.take(k)) + point_count(m.take(k)) <= k,
        digit_count(m.take(k)) + point_count(m.take(k)) < k ==> digit_count(m) + point_count(m)
            < m.len(),
    decreases m.len() - k,
{
    lemma_counts_prefix(m.take(k));
    if k < m.len() {
        assert(m.take(k + 1).drop_last() =~= m.take(k));
        lemma_counts_bounded(m, k + 1);
    } else {
        assert(m.take(k) =~= m);
    }
}

/// Digits and points together never outnumber the characters.
proof fn lemma_counts_prefix(s: Seq<char>)
    ensures
        digit_count(s) + point_count(s) <= s.len(),
    decreases s.len(),
{
    if s.len() > 0 {
        lemma_counts_prefix(s.drop_last());
    }
}

/// Decides whether a column of the type `column_type` can hold `value`.
pub fn can_store(column_type: DataType, value: &str) -> (ok: bool)
    ensures
        ok == storable(column_type, value@),
{
    match column_type {
        DataType::Text => true,
        DataType::Raw => true,
        DataType::Integer => fits_integer(value, i32::MIN as i64, i32::MAX as i64),
        DataType::BigInteger => fits_integer(value, i64::MIN, i64::MAX),
        DataType::Float => fits_decimal(value),
    }
}

} // verus!
