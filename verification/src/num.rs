//! Decimal integer text: parsing with exact range checking, and rendering.
//!
//! The accepted grammar is the one the standard integer parsers use: an
//! optional `+` or `-` sign followed by one or more decimal digits, and
//! nothing else.  Unsigned targets reject a `-` sign.

use vstd::prelude::*;
use vstd::string::{StrSliceExecFns, StringExecFns};

verus! {

broadcast use vstd::string::group_string_axioms;

/// Whether `c` is a decimal digit.
pub open spec fn is_digit(c: char) -> bool {
    ||| c == '0'
    ||| c == '1'
    ||| c == '2'
    ||| c == '3'
    ||| c == '4'
    ||| c == '5'
    ||| c == '6'
    ||| c == '7'
    ||| c == '8'
    ||| c == '9'
}

/// The value of a decimal digit.
pub open spec fn digit_val(c: char) -> int {
    if c == '0' {
        0
    } else if c == '1' {
        1
    } else if c == '2' {
        2
    } else if c == '3' {
        3
    } else if c == '4' {
        4
    } else if c == '5' {
        5
    } else if c == '6' {
        6
    } else if c == '7' {
        7
    } else if c == '8' {
        8
    } else {
        9
    }
}

/// The digit rendering a value below ten.
pub open spec fn digit_char(d: int) -> char {
    if d == 0 {
        '0'
    } else if d == 1 {
        '1'
    } else if d == 2 {
        '2'
    } else if d == 3 {
        '3'
    } else if d == 4 {
        '4'
    } else if d == 5 {
        '5'
    } else if d == 6 {
        '6'
    } else if d == 7 {
        '7'
    } else if d == 8 {
        '8'
    } else {
        '9'
    }
}

/// Whether every character of `s` is a decimal digit.
pub open spec fn all_digits(s: Seq<char>) -> bool {
    forall|i: int| 0 <= i < s.len() ==> is_digit(#[trigger] s[i])
}

/// The value of a run of decimal digits, most significant first.
pub open spec fn digits_val(s: Seq<char>) -> int
    decreases s.len(),
{
    if s.len() == 0 {
        0
    } else {
        digits_val(s.drop_last()) * 10 + digit_val(s.last())
    }
}

/// The magnitude part of integer text: everything after an optional sign.
pub open spec fn mag_of(s: Seq<char>) -> Seq<char> {
    if s.len() > 0 && (s[0] == '+' || s[0] == '-') {
        s.drop_first()
    } else {
        s
    }
}

/// Whether the text carries a `-` sign.
pub open spec fn is_neg_text(s: Seq<char>) -> bool {
    s.len() > 0 && s[0] == '-'
}

/// Whether `s` is well-formed signed integer text.
pub open spec fn valid_int_text(s: Seq<char>) -> bool {
    mag_of(s).len() > 0 && all_digits(mag_of(s))
}

/// Whether `s` is well-formed unsigned integer text (no `-` sign).
pub open spec fn valid_uns_text(s: Seq<char>) -> bool {
    valid_int_text(s) && !is_neg_text(s)
}

/// The mathematical value of well-formed integer text.
pub open spec fn int_text_val(s: Seq<char>) -> int {
    if is_neg_text(s) {
        -digits_val(mag_of(s))
    } else {
        digits_val(mag_of(s))
    }
}

/// Why integer text was rejected: the value does not fit the target width,
/// or the text is not integer text at all.
#[derive(Clone, Copy, Debug, PartialEq, Eq, Structural)]
pub enum NumFail {
    OutOfRange,
    Invalid,
}

/// Whether `c` is a decimal digit.
pub fn is_digit_ch(c: char) -> (r: bool)
    ensures
        r == is_digit(c),
{
    c == '0' || c == '1' || c == '2' || c == '3' || c == '4' || c == '5' || c == '6' || c == '7'
        || c == '8' || c == '9'
}

/// The value of a decimal digit.
pub fn digit_of(c: char) -> (d: u64)
    requires
        is_digit(c),
    ensures
        d == digit_val(c),
{
    if c == '0' {
        0
    } else if c == '1' {
        1
    } else if c == '2' {
        2
    } else if c == '3' {
        3
    } else if c == '4' {
        4
    } else if c == '5' {
        5
    } else if c == '6' {
        6
    } else if c == '7' {
        7
    } else if c == '8' {
        8
    } else {
        9
    }
}

/// The outcome of reading a digit run.
pub(crate) enum MagResult {
    /// A digit run with this value.
    Num(u64),
    /// A digit run whose value is above `u64::MAX`.
    TooBig,
    /// Empty, or holding a non-digit.
    NotNum,
}

/// Reads `s[start..]` as a run of decimal digits.
pub(crate) fn parse_mag(s: &str, start: usize) -> (r: MagResult)
    requires
        start <= s@.len(),
    ensures
        ({
            let m = s@.subrange(start as int, s@.len() as int);
            match r {
                MagResult::Num(v) => m.len() > 0 && all_digits(m) && digits_val(m) == v,
                MagResult::TooBig => m.len() > 0 && all_digits(m) && digits_val(m) > u64::MAX,
                MagResult::NotNum => !(m.len() > 0 && all_digits(m)),
            }
        }),
{
    let len = s.unicode_len();
    if start >= len {
        return MagResult::NotNum;
    }
    let mut acc: u64 = 0;
    let mut too_big: bool = false;
    let mut i: usize = start;
    while i < len
        invariant
            start <= i <= len,
            len == s@.len(),
            all_digits(s@.subrange(start as int, i as int)),
            !too_big ==> acc == digits_val(s@.subrange(start as int, i as int)),
            too_big ==> digits_val(s@.subrange(start as int, i as int)) > u64::MAX,
        decreases len - i,
    {
        let c = s.get_char(i);
        if !is_digit_ch(c) {
            proof {
                let m = s@.subrange(start as int, s@.len() as int);
                assert(m[i - start] == s@[i as int]);
            }
            return MagResult::NotNum;
        }
        let d = digit_of(c);
        proof {
            let p = s@.subrange(start as int, i as int);
            let p2 = s@.subrange(start as int, i + 1);
            assert(p2.drop_last() =~= p);
            assert(p2.last() == s@[i as int]);
            assert(digits_val(p2) == digits_val(p) * 10 + digit_val(s@[i as int]));
        }
        if too_big {
            proof {
                let p = s@.subrange(start as int, i as int);
                assert(digits_val(p) * 10 + d > u64::MAX) by (nonlinear_arith)
                    requires
                        digits_val(p) > u64::MAX,
                        0 <= d,
                ;
            }
        } else if acc > (u64::MAX - d) / 10 {
            proof {
                let p = s@.subrange(start as int, i as int);
                assert(acc * 10 + d > u64::MAX) by (nonlinear_arith)
                    requires
                        acc > (u64::MAX - d) / 10,
                        acc >= 0,
                        0 <= d <= 9,
                ;
            }
            too_big = true;
        } else {
            proof {
                assert(acc * 10 + d <= u64::MAX) by (nonlinear_arith)
                    requires
                        acc <= (u64::MAX - d) / 10,
                        acc >= 0,
                        0 <= d <= 9,
                ;
            }
            acc = acc * 10 + d;
        }
        i = i + 1;
    }
    proof {
        assert(s@.subrange(start as int, len as int) == s@.subrange(start as int, s@.len() as int));
    }
    if too_big {
        MagResult::TooBig
    } else {
        MagResult::Num(acc)
    }
}

/// Parses `s` as unsigned integer text with a value at most `u64::MAX`.
pub fn parse_unsigned(s: &str) -> (r: Result<u64, NumFail>)
    ensures
        ({
            match r {
                Ok(v) => valid_uns_text(s@) && int_text_val(s@) == v,
                Err(NumFail::OutOfRange) => valid_uns_text(s@) && int_text_val(s@) > u64::MAX,
                Err(NumFail::Invalid) => !valid_uns_text(s@),
            }
        }),
{
    let len = s.unicode_len();
    if len == 0 {
        return Err(NumFail::Invalid);
    }
    let first = s.get_char(0);
    if first == '-' {
        return Err(NumFail::Invalid);
    }
    let start: usize = if first == '+' {
        1
    } else {
        0
    };
    proof {
        assert(mag_of(s@) =~= s@.subrange(start as int, s@.len() as int));
    }
    match parse_mag(s, start) {
        MagResult::Num(v) => Ok(v),
        MagResult::TooBig => Err(NumFail::OutOfRange),
        MagResult::NotNum => Err(NumFail::Invalid),
    }
}

/// Parses `s` as signed integer text with a value fitting `i64`.
pub fn parse_signed(s: &str) -> (r: Result<i64, NumFail>)
    ensures
        ({
            match r {
                Ok(v) => valid_int_text(s@) && int_text_val(s@) == v,
                Err(NumFail::OutOfRange) => valid_int_text(s@) && (int_text_val(s@) < i64::MIN
                    || int_text_val(s@) > i64::MAX),
                Err(NumFail::Invalid) => !valid_int_text(s@),
            }
        }),
{
    let len = s.unicode_len();
    if len == 0 {
        return Err(NumFail::Invalid);
    }
    let first = s.get_char(0);
    let neg: bool = first == '-';
    let start: usize = if first == '+' || first == '-' {
        1
    } else {
        0
    };
    proof {
        assert(mag_of(s@) =~= s@.subrange(start as int, s@.len() as int));
    }
    match parse_mag(s, start) {
        MagResult::Num(v) => {
            if neg {
                if v <= 9223372036854775807u64 {
                    Ok(-(v as i64))
                } else if v == 9223372036854775808u64 {
                    Ok(i64::MIN)
                } else {
                    Err(NumFail::OutOfRange)
                }
            } else {
                if v <= 9223372036854775807u64 {
                    Ok(v as i64)
                } else {
                    Err(NumFail::OutOfRange)
                }
            }
        },
        MagResult::TooBig => Err(NumFail::OutOfRange),
        MagResult::NotNum => Err(NumFail::Invalid),
    }
}

/// The decimal rendering of a non-negative value.
pub open spec fn u64_text(n: int) -> Seq<char>
    decreases n,
{
    if n < 10 {
        seq![digit_char(n)]
    } else {
        u64_text(n / 10).push(digit_char(n % 10))
    }
}

/// The decimal rendering of a signed value: a `-` sign, then the magnitude.
pub open spec fn i64_text(n: int) -> Seq<char> {
    if n < 0 {
        seq!['-'] + u64_text(-n)
    } else {
        u64_text(n)
    }
}

/// The string slice rendering one digit.
fn digit_str(d: u64) -> (r: &'static str)
    requires
        d < 10,
    ensures
        r@ =~= seq![digit_char(d as int)],
{
    proof {
        reveal_strlit("0");
        reveal_strlit("1");
        reveal_strlit("2");
        reveal_strlit("3");
        reveal_strlit("4");
        reveal_strlit("5");
        reveal_strlit("6");
        reveal_strlit("7");
        reveal_strlit("8");
        reveal_strlit("9");
    }
    if d == 0 {
        "0"
    } else if d == 1 {
        "1"
    } else if d == 2 {
        "2"
    } else if d == 3 {
        "3"
    } else if d == 4 {
        "4"
    } else if d == 5 {
        "5"
    } else if d == 6 {
        "6"
    } else if d == 7 {
        "7"
    } else if d == 8 {
        "8"
    } else {
        "9"
    }
}

/// Renders `n` in decimal.
pub fn u64_to_string(n: u64) -> (r: String)
    ensures
        r@ == u64_text(n as int),
    decreases n,
{
    if n < 10 {
        String::from_str(digit_str(n))
    } else {
        let mut s = u64_to_string(n / 10);
        let d = digit_str(n % 10);
        s.append(d);
        proof {
            assert(u64_text((n / 10) as int).push(digit_char((n % 10) as int)) =~= u64_text(
                (n / 10) as int,
            ) + seq![digit_char((n % 10) as int)]);
        }
        s
    }
}

/// Renders `n` in decimal, with a `-` sign when negative.
pub fn i64_to_string(n: i64) -> (r: String)
    ensures
        r@ == i64_text(n as int),
{
    if n >= 0 {
        u64_to_string(n as u64)
    } else {
        let mag: u64 = ((-(n + 1)) as u64) + 1;
        let mut s = String::from_str("-");
        let m = u64_to_string(mag);
        s.append(m.as_str());
        proof {
            reveal_strlit("-");
            assert("-"@ =~= seq!['-']);
        }
        s
    }
}

/// Decimal rendering is parsed back to the value it came from: the scalar
/// round trip for unsigned integers.
pub proof fn lemma_u64_text_round_trip(n: int)
    requires
        0 <= n,
    ensures
        u64_text(n).len() > 0,
        all_digits(u64_text(n)),
        digits_val(u64_text(n)) == n,
    decreases n,
{
    if n < 10 {
        let t = seq![digit_char(n)];
        assert(u64_text(n) =~= t);
        assert(t.drop_last() =~= Seq::<char>::empty());
        assert(t.last() == digit_char(n));
        assert(digits_val(t) == digits_val(t.drop_last()) * 10 + digit_val(digit_char(n)));
        assert(digits_val(t.drop_last()) == 0);
        assert(digit_val(digit_char(n)) == n);
    } else {
        lemma_u64_text_round_trip(n / 10);
        let t = u64_text(n / 10).push(digit_char(n % 10));
        assert(u64_text(n) == t);
        assert(t.drop_last() =~= u64_text(n / 10));
        assert(t.last() == digit_char(n % 10));
        assert(0 <= n % 10 < 10);
        assert(digit_val(digit_char(n % 10)) == n % 10);
        assert(digits_val(t) == (n / 10) * 10 + (n % 10));
        assert((n / 10) * 10 + (n % 10) == n) by (nonlinear_arith);
        assert forall|i: int| 0 <= i < t.len() implies is_digit(#[trigger] t[i]) by {
            if i < t.len() - 1 {
                assert(t[i] == u64_text(n / 10)[i]);
            } else {
                assert(t[i] == digit_char(n % 10));
            }
        }
    }
}

/// Decimal rendering is parsed back to the value it came from: the scalar
/// round trip for signed integers.
pub proof fn lemma_i64_text_round_trip(n: int)
    ensures
        valid_int_text(i64_text(n)),
        int_text_val(i64_text(n)) == n,
{
    if n < 0 {
        lemma_u64_text_round_trip(-n);
        let t = seq!['-'] + u64_text(-n);
        assert(t[0] == '-');
        assert(mag_of(t) =~= u64_text(-n));
    } else {
        lemma_u64_text_round_trip(n);
        let t = u64_text(n);
        assert(is_digit(t[0]));
        assert(t[0] != '-' && t[0] != '+');
        assert(mag_of(t) =~= t);
    }
}

} // verus!
