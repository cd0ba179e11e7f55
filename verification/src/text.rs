//! Contracts for the pieces of `std` string handling that vstd leaves
//! unspecified.

use vstd::prelude::*;

verus! {

/// Relies on `<str as PartialEq>::eq`: string slices compare equal exactly
/// when they hold the same characters.
pub assume_specification[ <str as PartialEq<str>>::eq ](s: &str, other: &str) -> (r: bool)
    ensures
        r == (s@ == other@),
;

/// What `char::is_alphanumeric` answers: whether the character counts as a
/// Unicode letter or digit, a function of the character alone.
pub uninterp spec fn unicode_alphanumeric(c: char) -> bool;

/// Relies on `char::is_alphanumeric`: the Unicode letter-or-digit test.
#[verifier::external_body]
pub fn char_is_alphanumeric(c: char) -> (r: bool)
    ensures
        r == unicode_alphanumeric(c),
{
    c.is_alphanumeric()
}

/// A decimal digit.
pub open spec fn is_digit(c: char) -> bool {
    '0' <= c && c <= '9'
}

/// The number a digit string stands for.
pub open spec fn digits_value(s: Seq<char>) -> int
    decreases s.len(),
{
    if s.len() == 0 {
        0
    } else {
        digits_value(s.drop_last()) * 10 + (s.last() as int - '0' as int)
    }
}

/// At least one character, all of them digits.
pub open spec fn all_digits(s: Seq<char>) -> bool {
    s.len() > 0 && forall|i: int| 0 <= i < s.len() ==> is_digit(#[trigger] s[i])
}

/// What a decimal string parses to as a 32-bit signed integer: an optional
/// sign, then digits and nothing else, within range.
pub open spec fn spec_parse_i32(s: Seq<char>) -> Option<int> {
    let negative = s.len() > 0 && s[0] == '-';
    let digits = if s.len() > 0 && (s[0] == '-' || s[0] == '+') {
        s.drop_first()
    } else {
        s
    };
    if !all_digits(digits) {
        None
    } else {
        let v = if negative {
            -digits_value(digits)
        } else {
            digits_value(digits)
        };
        if i32::MIN <= v <= i32::MAX {
            Some(v)
        } else {
            None
        }
    }
}

proof fn lemma_digits_value_nonneg(s: Seq<char>)
    requires
        forall|i: int| 0 <= i < s.len() ==> is_digit(#[trigger] s[i]),
    ensures
        digits_value(s) >= 0,
    decreases s.len(),
{
    if s.len() > 0 {
        assert(forall|i: int|
            0 <= i < s.drop_last().len() ==> is_digit(#[trigger] s.drop_last()[i]));
        lemma_digits_value_nonneg(s.drop_last());
    }
}

/// Parse a decimal string as the store's i32 route parameters do: an
/// optional sign, then only digits, and the value in range — anything else
/// is no number.
#[verifier::loop_isolation(false)]
pub fn parse_i32(s: &str) -> (r: Option<i32>)
    ensures
        match spec_parse_i32(s@) {
            Some(v) => r matches Some(rv) && rv as int == v,
            None => r is None,
        },
{
    let n = s.unicode_len();
    let mut i: usize = 0;
    let mut negative = false;
    if n > 0 {
        let c0 = s.get_char(0);
        if c0 == '-' {
            negative = true;
            i = 1;
        } else if c0 == '+' {
            i = 1;
        }
    }
    let ghost start = i as int;
    let ghost digits = if start == 1 {
        s@.drop_first()
    } else {
        s@
    };
    if i >= n {
        // empty digit part
        return None;
    }
    // one past the magnitude a 32-bit value can reach
    let cap: i64 = 2147483648;
    let mut acc: i64 = 0;
    let mut over = false;
    while i < n
        invariant
            start <= i <= n,
            n == s@.len(),
            digits == (if start == 1 {
                s@.drop_first()
            } else {
                s@
            }),
            digits.len() == n - start,
            forall|j: int| 0 <= j < i - start ==> is_digit(#[trigger] digits[j]),
            forall|j: int| 0 <= j < i - start ==> digits[j] == s@[j + start],
            !over ==> 0 <= acc <= cap && acc == digits_value(digits.take(i - start)),
            over ==> digits_value(digits.take(i - start)) > cap,
        decreases n - i,
    {
        let c = s.get_char(i);
        if !(c >= '0' && c <= '9') {
            // a non-digit anywhere makes the whole string no number
            assert(!all_digits(digits)) by {
                assert(digits[i as int - start] == s@[i as int]);
            }
            return None;
        }
        let d = (c as u32 - 48) as i64;
        proof {
            assert(digits.take(i as int + 1 - start).drop_last() =~= digits.take(i as int - start));
            assert(digits.take(i as int + 1 - start).last() == s@[i as int]);
            if !over {
                lemma_digits_value_nonneg(digits.take(i as int - start));
            }
        }
        if over {
            proof {
                lemma_digits_value_nonneg(digits.take(i as int - start));
            }
        } else {
            let next = acc * 10 + d;
            if next > cap {
                over = true;
            } else {
                acc = next;
            }
        }
        i += 1;
    }
    proof {
        assert(digits.take(n - start) =~= digits);
        assert(all_digits(digits));
    }
    if over {
        proof {
            lemma_digits_value_nonneg(digits);
        }
        return None;
    }
    if negative {
        // the magnitude may reach one past i32::MAX exactly at i32::MIN
        if acc > cap {
            return None;
        }
        Some((-acc) as i32)
    } else {
        if acc > cap - 1 {
            return None;
        }
        Some(acc as i32)
    }
}

} // verus!
