use vstd::prelude::*;

use crate::digits::{chars_of, digit_char, digit_value, is_digit, is_digit_string};

verus! {

/// What one digit adds to the sum: a doubled digit of two decimal places
/// counts as the sum of its two places.
pub open spec fn luhn_term(d: int, double: bool) -> int {
    if double {
        let t = 2 * d;
        if t >= 10 {
            t / 10 + t % 10
        } else {
            t
        }
    } else {
        d
    }
}

/// The Luhn sum of `s`, taken from the rightmost digit leftward, doubling
/// the rightmost digit when `double` holds and every other one after it.
pub open spec fn luhn_sum(s: Seq<char>, double: bool) -> int
    decreases s.len(),
{
    if s.len() == 0 {
        0
    } else {
        luhn_term(digit_value(s.last()), double) + luhn_sum(s.drop_last(), !double)
    }
}

/// The check digit of `s`: the digit that, appended to `s`, brings the Luhn
/// sum of the whole to a multiple of ten.
pub open spec fn check_digit(s: Seq<char>) -> int {
    (10 - luhn_sum(s, true) % 10) % 10
}

/// `s` followed by its check digit.
pub open spec fn with_check_digit(s: Seq<char>) -> Seq<char> {
    s.push(digit_char(check_digit(s)))
}

/// A number that carries a correct check digit: its Luhn sum, with the
/// rightmost digit left undoubled, is a multiple of ten.
pub open spec fn luhn_valid(s: Seq<char>) -> bool {
    luhn_sum(s, false) % 10 == 0
}

/// The check digit of the digits of `value`.
pub fn generate_checksum(value: &str) -> (r: u8)
    requires
        is_digit_string(value@),
    ensures
        r == check_digit(value@),
        r < 10,
{
    let v = chars_of(value);
    let ghost s = value@;
    let mut i: usize = v.len();
    let mut double = true;
    // the sum so far, kept modulo ten
    let mut sum: u32 = 0;
    assert(s.subrange(0, s.len() as int) =~= s);
    while i > 0
        invariant
            v@ == s,
            is_digit_string(s),
            i <= s.len(),
            sum < 10,
            (sum + luhn_sum(s.subrange(0, i as int), double)) % 10 == luhn_sum(s, true) % 10,
        decreases i,
    {
        let ghost prefix = s.subrange(0, i as int);
        assert(is_digit(s[i - 1]));
        let digit: u32 = v[i - 1] as u32 - '0' as u32;
        let term: u32 = if double {
            let t = digit * 2;
            if t >= 10 {
                t / 10 + t % 10
            } else {
                t
            }
        } else {
            digit
        };
        assert(prefix.drop_last() =~= s.subrange(0, i - 1));
        assert(term == luhn_term(digit_value(prefix.last()), double));
        let ghost rest = luhn_sum(s.subrange(0, i - 1), !double);
        assert(luhn_sum(prefix, double) == term + rest);
        assert((((sum + term) % 10) + rest) % 10 == (sum + term + rest) % 10) by (nonlinear_arith);
        sum = (sum + term) % 10;
        double = !double;
        i = i - 1;
    }
    assert(s.subrange(0, 0) =~= Seq::<char>::empty());
    ((10 - sum) % 10) as u8
}

} // verus!
