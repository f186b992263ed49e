use vstd::prelude::*;

use crate::error::LuhnError;

verus! {

/// An ASCII decimal digit.
pub open spec fn is_digit(c: char) -> bool {
    '0' <= c <= '9'
}

/// The value of a digit character.
pub open spec fn digit_value(c: char) -> int {
    c as int - '0' as int
}

/// The digit character for a value in `0..10`.
pub open spec fn digit_char(d: int) -> char {
    (d + '0' as int) as char
}

/// A non-empty string of ASCII decimal digits.
pub open spec fn is_digit_string(s: Seq<char>) -> bool {
    s.len() > 0 && forall|i: int| 0 <= i < s.len() ==> is_digit(#[trigger] s[i])
}

/// The first check that `s` fails, in the order empty, space, minus sign,
/// decimal point, other non-digit; `None` for a well-formed digit string.
pub open spec fn input_error(s: Seq<char>) -> Option<LuhnError> {
    if s.len() == 0 {
        Some(LuhnError::EmptyString)
    } else if s.contains(' ') {
        Some(LuhnError::ContainsSpaces)
    } else if s.contains('-') {
        Some(LuhnError::NegativeNumber)
    } else if s.contains('.') {
        Some(LuhnError::FloatingPoint)
    } else if exists|i: int| 0 <= i < s.len() && !is_digit(#[trigger] s[i]) {
        Some(LuhnError::NonNumeric)
    } else {
        None
    }
}

/// What the input checks return for `s`.
pub open spec fn input_result(s: Seq<char>) -> Result<(), LuhnError> {
    match input_error(s) {
        Some(e) => Err(e),
        None => Ok(()),
    }
}

/// The input checks pass exactly on well-formed digit strings.
pub proof fn lemma_input_ok_is_digit_string(s: Seq<char>)
    ensures
        input_error(s) is None <==> is_digit_string(s),
{
    if is_digit_string(s) {
        assert(!s.contains(' ')) by {
            if s.contains(' ') {
                let i = choose|i: int| 0 <= i < s.len() && s[i] == ' ';
                assert(is_digit(s[i]));
            }
        }
        assert(!s.contains('-')) by {
            if s.contains('-') {
                let i = choose|i: int| 0 <= i < s.len() && s[i] == '-';
                assert(is_digit(s[i]));
            }
        }
        assert(!s.contains('.')) by {
            if s.contains('.') {
                let i = choose|i: int| 0 <= i < s.len() && s[i] == '.';
                assert(is_digit(s[i]));
            }
        }
    }
}

/// The characters of `s`, in order.
pub fn chars_of(s: &str) -> (r: Vec<char>)
    ensures
        r@ == s@,
{
    let mut v: Vec<char> = Vec::new();
    for c in it: s.chars()
        invariant
            v@ == it.seq().take(it.index() as int),
    {
        v.push(c);
    }
    v
}

fn contains_char(v: &Vec<char>, c: char) -> (r: bool)
    ensures
        r == v@.contains(c),
{
    let mut i: usize = 0;
    while i < v.len()
        invariant
            i <= v.len(),
            forall|j: int| 0 <= j < i ==> v@[j] != c,
        decreases v.len() - i,
    {
        if v[i] == c {
            return true;
        }
        i = i + 1;
    }
    false
}

fn all_digits(v: &Vec<char>) -> (r: bool)
    ensures
        r == forall|i: int| 0 <= i < v@.len() ==> is_digit(#[trigger] v@[i]),
{
    let mut i: usize = 0;
    while i < v.len()
        invariant
            i <= v.len(),
            forall|j: int| 0 <= j < i ==> is_digit(#[trigger] v@[j]),
        decreases v.len() - i,
    {
        if !('0' <= v[i] && v[i] <= '9') {
            return false;
        }
        i = i + 1;
    }
    true
}

/// Checks that `value` is a well-formed digit string, reporting the first
/// violated rule otherwise.
pub fn handle_errors(value: &str) -> (r: Result<(), LuhnError>)
    ensures
        r == input_result(value@),
        r is Ok <==> is_digit_string(value@),
{
    proof {
        lemma_input_ok_is_digit_string(value@);
    }
    let v = chars_of(value);
    if v.len() == 0 {
        return Err(LuhnError::EmptyString);
    }
    if contains_char(&v, ' ') {
        return Err(LuhnError::ContainsSpaces);
    }
    if contains_char(&v, '-') {
        return Err(LuhnError::NegativeNumber);
    }
    if contains_char(&v, '.') {
        return Err(LuhnError::FloatingPoint);
    }
    if !all_digits(&v) {
        return Err(LuhnError::NonNumeric);
    }
    Ok(())
}

/// The number that a digit string denotes in decimal.
pub open spec fn decimal_value(s: Seq<char>) -> nat
    decreases s.len(),
{
    if s.len() == 0 {
        0
    } else {
        (10 * decimal_value(s.drop_last()) + digit_value(s.last())) as nat
    }
}

/// Extending a digit string to the right never lowers its value.
pub proof fn lemma_decimal_value_prefix(s: Seq<char>, i: int, j: int)
    requires
        is_digit_string(s),
        0 <= i <= j <= s.len(),
    ensures
        decimal_value(s.subrange(0, i)) <= decimal_value(s.subrange(0, j)),
    decreases j - i,
{
    if i < j {
        lemma_decimal_value_prefix(s, i, j - 1);
        let p = s.subrange(0, j);
        assert(p.drop_last() =~= s.subrange(0, j - 1));
        assert(is_digit(s[j - 1]));
    }
}

/// The text of the error for a length that is not a number of this machine.
pub open spec fn parse_failure_message() -> Seq<char> {
    "failed to parse length"@
}

/// The decimal value of a well-formed digit string, or `None` where it
/// exceeds `usize::MAX`.
pub fn parse_usize(value: &str) -> (r: Option<usize>)
    requires
        is_digit_string(value@),
    ensures
        r matches Some(n) ==> n == decimal_value(value@),
        r is None <==> decimal_value(value@) > usize::MAX,
{
    let v = chars_of(value);
    let ghost s = value@;
    let mut n: usize = 0;
    let mut i: usize = 0;
    assert(s.subrange(0, 0) =~= Seq::<char>::empty());
    while i < v.len()
        invariant
            s == value@,
            v@ == s,
            is_digit_string(s),
            i <= s.len(),
            n == decimal_value(s.subrange(0, i as int)),
        decreases s.len() - i,
    {
        assert(is_digit(s[i as int]));
        let d: usize = (v[i] as u32 - '0' as u32) as usize;
        let ghost next = s.subrange(0, i + 1);
        assert(next.drop_last() =~= s.subrange(0, i as int));
        assert(decimal_value(next) == 10 * n + d);
        match n.checked_mul(10) {
            None => {
                proof {
                    lemma_decimal_value_prefix(s, i + 1, s.len() as int);
                    assert(s.subrange(0, s.len() as int) =~= s);
                }
                return None;
            },
            Some(m) => match m.checked_add(d) {
                None => {
                    proof {
                        lemma_decimal_value_prefix(s, i + 1, s.len() as int);
                        assert(s.subrange(0, s.len() as int) =~= s);
                    }
                    return None;
                },
                Some(k) => {
                    n = k;
                },
            },
        }
        i = i + 1;
    }
    assert(s.subrange(0, s.len() as int) =~= s);
    Some(n)
}

} // verus!
