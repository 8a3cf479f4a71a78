//! Decimal numbers written as text.

use vstd::prelude::*;

verus! {

/// `c` is one of `0` to `9`.
pub open spec fn is_digit(c: char) -> bool {
    '0' <= c && c <= '9'
}

/// The number that the digit `c` stands for.
pub open spec fn digit_value(c: char) -> nat
    recommends
        is_digit(c),
{
    (c as nat - '0' as nat) as nat
}

/// Every character of `s` is a digit.
pub open spec fn all_digits(s: Seq<char>) -> bool {
    forall|i: int| 0 <= i < s.len() ==> is_digit(#[trigger] s[i])
}

/// The number that the digits of `s` write in base ten, most significant
/// digit first. The empty sequence writes zero.
pub open spec fn digits_value(s: Seq<char>) -> nat
    recommends
        all_digits(s),
    decreases s.len(),
{
    if s.len() == 0 {
        0
    } else {
        digits_value(s.drop_last()) * 10 + digit_value(s.last())
    }
}

/// `s` without its leading `+`, if it has one.
pub open spec fn unsigned_part(s: Seq<char>) -> Seq<char> {
    if s.len() > 0 && s[0] == '+' {
        s.skip(1)
    } else {
        s
    }
}

/// The number that `s` writes, if it writes one that fits `usize`: an
/// optional `+`, then one or more digits and nothing else.
pub open spec fn decimal_value(s: Seq<char>) -> Option<nat> {
    let digits = unsigned_part(s);
    if digits.len() > 0 && all_digits(digits) && digits_value(digits) <= usize::MAX {
        Some(digits_value(digits))
    } else {
        None
    }
}

/// Adding digits to the right never makes the number smaller.
pub proof fn digits_value_grows(s: Seq<char>, n: int)
    requires
        0 <= n <= s.len(),
    ensures
        digits_value(s.take(n)) <= digits_value(s),
    decreases s.len(),
{
    if n < s.len() {
        assert(s.drop_last().take(n) == s.take(n));
        digits_value_grows(s.drop_last(), n);
    } else {
        assert(s.take(n) == s);
    }
}

/// Reads the characters of `chars` from `start` up to `end` as a decimal
/// number.
pub fn parse_decimal(chars: &Vec<char>, start: usize, end: usize) -> (value: Option<usize>)
    requires
        start <= end <= chars.len(),
    ensures
        match value {
            Some(n) => decimal_value(chars@.subrange(start as int, end as int)) == Some(n as nat),
            None => decimal_value(chars@.subrange(start as int, end as int)) is None,
        },
{
    let ghost text = chars@.subrange(start as int, end as int);
    let first: usize = if start < end && chars[start] == '+' {
        start + 1
    } else {
        start
    };
    let ghost digits = unsigned_part(text);
    assert(digits == chars@.subrange(first as int, end as int));
    if first == end {
        return None;
    }
    let mut total: usize = 0;
    let mut i: usize = first;
    while i < end
        invariant
            start <= first <= i <= end <= chars.len(),
            first < end,
            digits == unsigned_part(chars@.subrange(start as int, end as int)),
            digits == chars@.subrange(first as int, end as int),
            all_digits(digits.take(i - first)),
            total == digits_value(digits.take(i - first)),
        decreases end - i,
    {
        let c = chars[i];
        assert(c == digits[i - first]);
        if !('0' <= c && c <= '9') {
            return None;
        }
        let digit: usize = (c as u32 - '0' as u32) as usize;
        let ghost longer = digits.take(i - first + 1);
        assert(longer.drop_last() == digits.take(i - first));
        assert(longer.last() == c);
        assert(digits_value(longer) == total * 10 + digit);
        assert(all_digits(longer)) by {
            assert forall|k: int| 0 <= k < longer.len() implies is_digit(#[trigger] longer[k]) by {
                if k < i - first {
                    assert(longer[k] == digits.take(i - first)[k]);
                }
            }
        }
        let next = match total.checked_mul(10) {
            Some(tens) => tens.checked_add(digit),
            None => None,
        };
        match next {
            Some(n) => {
                total = n;
            },
            None => {
                proof {
                    digits_value_grows(digits, i - first + 1);
                }
                return None;
            },
        }
        i = i + 1;
    }
    assert(digits.take(i - first) == digits);
    Some(total)
}

} // verus!
