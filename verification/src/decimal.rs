//! Decimal notation for integers: an optional sign, then digits.

use crate::strings::{advanced, pending};
use vstd::prelude::*;
use vstd::std_specs::iter::IteratorSpec;

verus! {

broadcast use vstd::string::group_string_axioms;

/// Whether `c` is one of the ten decimal digits.
pub open spec fn is_digit(c: char) -> bool {
    '0' <= c <= '9'
}

/// The number that the digit `c` stands for.
pub open spec fn digit_value(c: char) -> nat {
    (c as u32 - '0' as u32) as nat
}

/// The digit that stands for `d`, a number below ten.
pub open spec fn digit_char(d: nat) -> char {
    ('0' as u8 + d) as u8 as char
}

/// Whether `s` holds decimal digits and nothing else.
pub open spec fn all_digits(s: Seq<char>) -> bool {
    forall|i: int| 0 <= i < s.len() ==> is_digit(#[trigger] s[i])
}

/// The number that a row of digits stands for, the last digit counting ones.
pub open spec fn digits_value(s: Seq<char>) -> nat
    decreases s.len(),
{
    if s.len() == 0 {
        0
    } else {
        digits_value(s.drop_last()) * 10 + digit_value(s.last())
    }
}

/// The digits of `n`, without leading zeros; one zero for zero.
pub open spec fn decimal_text(n: nat) -> Seq<char>
    decreases n,
{
    if n < 10 {
        seq![digit_char(n)]
    } else {
        decimal_text(n / 10).push(digit_char(n % 10))
    }
}

/// The canonical text of an integer: its digits, behind a minus sign where
/// it is negative.
pub open spec fn integer_text(v: int) -> Seq<char> {
    if v < 0 {
        seq!['-'] + decimal_text((-v) as nat)
    } else {
        decimal_text(v as nat)
    }
}

/// Whether `s` begins with a sign: a plus sign, or a minus sign where the
/// type has negative values.
pub open spec fn has_sign(s: Seq<char>, signed: bool) -> bool {
    s.len() > 0 && (s[0] == '+' || (signed && s[0] == '-'))
}

/// Whether `s` begins with a minus sign that counts as a sign.
pub open spec fn is_negative(s: Seq<char>, signed: bool) -> bool {
    signed && s.len() > 0 && s[0] == '-'
}

/// What `s` holds behind its sign, if it has one.
pub open spec fn unsigned_part(s: Seq<char>, signed: bool) -> Seq<char> {
    if has_sign(s, signed) {
        s.drop_first()
    } else {
        s
    }
}

/// The magnitude of the integer that `s` denotes: behind an optional sign
/// stand at least one digit and nothing but digits. Leading zeros are
/// admitted; blanks, separators and a sign without digits are not.
pub open spec fn magnitude(s: Seq<char>, signed: bool) -> Option<nat> {
    let digits = unsigned_part(s, signed);
    if digits.len() > 0 && all_digits(digits) {
        Some(digits_value(digits))
    } else {
        None
    }
}

/// The integer that `s` denotes: its magnitude, negated behind a minus sign.
pub open spec fn integer_value(s: Seq<char>, signed: bool) -> Option<int> {
    match magnitude(s, signed) {
        Some(m) => Some(
            if is_negative(s, signed) {
                -(m as int)
            } else {
                m as int
            },
        ),
        None => None,
    }
}

/// The integer that `s` denotes in a type that holds the integers from `min`
/// to `max`: a text whose integer lies outside of them denotes nothing, and
/// a minus sign is a sign only where `min` is negative.
pub open spec fn bounded_value(s: Seq<char>, min: int, max: int) -> Option<int> {
    match integer_value(s, min < 0) {
        Some(v) => if min <= v <= max {
            Some(v)
        } else {
            None
        },
        None => None,
    }
}

/// The sign and the magnitude that `s` denotes, where the magnitude is at
/// most the limit given for its sign.
pub open spec fn sign_and_magnitude(
    s: Seq<char>,
    signed: bool,
    negative_limit: nat,
    positive_limit: nat,
) -> Option<(bool, nat)> {
    let limit = if is_negative(s, signed) {
        negative_limit
    } else {
        positive_limit
    };
    match magnitude(s, signed) {
        Some(m) => if m <= limit {
            Some((is_negative(s, signed), m))
        } else {
            None
        },
        None => None,
    }
}

/// A row of digits stands for no less than any of its beginnings.
pub proof fn lemma_digits_value_grows(s: Seq<char>, k: int)
    requires
        0 <= k <= s.len(),
    ensures
        digits_value(s.take(k)) <= digits_value(s),
    decreases s.len(),
{
    if k < s.len() {
        assert(s.drop_last().take(k) == s.take(k));
        lemma_digits_value_grows(s.drop_last(), k);
    } else {
        assert(s.take(k) == s);
    }
}

/// The digits of a number are digits, begin with one, and stand for it.
pub proof fn lemma_decimal_text(n: nat)
    ensures
        decimal_text(n).len() > 0,
        all_digits(decimal_text(n)),
        digits_value(decimal_text(n)) == n,
    decreases n,
{
    if n < 10 {
        let s = decimal_text(n);
        assert(s.drop_last().len() == 0);
        assert(digits_value(s.drop_last()) == 0);
    } else {
        lemma_decimal_text(n / 10);
        let s = decimal_text(n);
        assert(s.drop_last() == decimal_text(n / 10));
        assert(s.last() == digit_char(n % 10));
    }
}

/// An integer is read back from its canonical text, in every type that holds it.
pub proof fn lemma_integer_text_value(v: int, min: int, max: int)
    requires
        min <= v <= max,
    ensures
        bounded_value(integer_text(v), min, max) == Some(v),
{
    let s = integer_text(v);
    if v < 0 {
        lemma_decimal_text((-v) as nat);
        assert(s.drop_first() == decimal_text((-v) as nat));
    } else {
        lemma_decimal_text(v as nat);
        assert(is_digit(s[0]));
    }
}

/// Reads the sign and the magnitude of an integer from its decimal text. A
/// minus sign is read as a sign only where `signed`; a magnitude beyond the
/// limit given for its sign is refused.
pub fn read_decimal(
    s: &str,
    signed: bool,
    negative_limit: u128,
    positive_limit: u128,
) -> (r: Option<(bool, u128)>)
    ensures
        match r {
            Some((negative, m)) => sign_and_magnitude(
                s@,
                signed,
                negative_limit as nat,
                positive_limit as nat,
            ) == Some((negative, m as nat)),
            None => sign_and_magnitude(
                s@,
                signed,
                negative_limit as nat,
                positive_limit as nat,
            ) is None,
        },
{
    let mut chars = s.chars();
    let mut current = chars.next();
    let ghost mut rest: Seq<char> = advanced(s@);
    let mut negative = false;
    match current {
        Some(c) => {
            if c == '+' || (c == '-' && signed) {
                negative = c == '-';
                current = chars.next();
                proof {
                    rest = advanced(rest);
                }
            }
        },
        None => {
            return None;
        },
    }
    let ghost digits = unsigned_part(s@, signed);
    proof {
        assert(s@ == seq![s@[0]] + s@.drop_first());
        assert(pending(current, rest) == digits);
    }
    if current.is_none() {
        return None;
    }
    let limit: u128 = if negative {
        negative_limit
    } else {
        positive_limit
    };
    let mut total: u128 = 0;
    let ghost mut seen: int = 0;
    loop
        invariant
            digits == unsigned_part(s@, signed),
            digits.len() > 0,
            negative == is_negative(s@, signed),
            limit == if negative {
                negative_limit
            } else {
                positive_limit
            },
            chars.remaining() == rest,
            current is None ==> rest.len() == 0,
            0 <= seen <= digits.len(),
            pending(current, rest) == digits.skip(seen),
            all_digits(digits.take(seen)),
            total == digits_value(digits.take(seen)),
            total <= limit,
        ensures
            all_digits(digits),
            total == digits_value(digits),
        decreases digits.len() - seen,
    {
        match current {
            None => {
                proof {
                    assert(pending(current, rest).len() == 0);
                    assert(digits.take(seen) == digits);
                }
                break ;
            },
            Some(c) => {
                proof {
                    assert(pending(current, rest).len() == 1 + rest.len());
                    assert(pending(current, rest)[0] == c);
                    assert(digits.skip(seen).len() == digits.len() - seen);
                    assert(digits.skip(seen)[0] == digits[seen]);
                }
                if !('0' <= c && c <= '9') {
                    return None;
                }
                let digit: u128 = (c as u32 - '0' as u32) as u128;
                proof {
                    assert(digits.take(seen + 1).drop_last() == digits.take(seen));
                    assert(digits.take(seen + 1).last() == c);
                    assert(digits_value(digits.take(seen + 1)) == total * 10 + digit);
                }
                if digit > limit || total > (limit - digit) / 10 {
                    proof {
                        lemma_digits_value_grows(digits, seen + 1);
                    }
                    return None;
                }
                total = total * 10 + digit;
                current = chars.next();
                proof {
                    assert(rest =~= digits.skip(seen).drop_first());
                    assert(rest =~= digits.skip(seen + 1));
                    assert(pending(current, advanced(rest)) =~= rest);
                    rest = advanced(rest);
                    seen = seen + 1;
                }
            },
        }
    }
    Some((negative, total))
}

/// Reads an integer between `min` and `max` from its decimal text.
pub fn parse_bounded(s: &str, min: i128, max: i128) -> (r: Option<i128>)
    ensures
        match r {
            Some(v) => bounded_value(s@, min as int, max as int) == Some(v as int),
            None => bounded_value(s@, min as int, max as int) is None,
        },
{
    let negative_limit: u128 = if min < 0 {
        (-(min + 1)) as u128 + 1
    } else {
        0
    };
    let positive_limit: u128 = if max >= 0 {
        max as u128
    } else {
        0
    };
    match read_decimal(s, min < 0, negative_limit, positive_limit) {
        Some((negative, m)) => {
            let v: i128 = if !negative {
                m as i128
            } else if m == negative_limit {
                min
            } else {
                -(m as i128)
            };
            if min <= v && v <= max {
                Some(v)
            } else {
                None
            }
        },
        None => None,
    }
}

/// Appends the digits of `n` to `out`.
pub fn push_decimal(out: &mut String, n: u128)
    ensures
        final(out)@ == old(out)@ + decimal_text(n as nat),
    decreases n,
{
    if n >= 10 {
        push_decimal(out, n / 10);
    }
    out.push(('0' as u8 + (n % 10) as u8) as char);
}

/// Writes an integer as its canonical decimal text.
pub fn format_integer(v: i128) -> (r: String)
    ensures
        r@ == integer_text(v as int),
{
    let mut out = String::new();
    if v < 0 {
        out.push('-');
        push_decimal(&mut out, (-(v + 1)) as u128 + 1);
    } else {
        push_decimal(&mut out, v as u128);
    }
    out
}

} // verus!
