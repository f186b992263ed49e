use vstd::prelude::*;

use crate::checksum::{luhn_valid, with_check_digit};
use crate::digits::{
    decimal_value,
    digit_char,
    handle_errors,
    input_error,
    is_digit_string,
    lemma_input_ok_is_digit_string,
    parse_failure_message,
    parse_usize,
};
use crate::error::LuhnError;
use crate::luhn::{carries_check_digit, digit_text, generate, lemma_generated_validates};

verus! {

/// The smallest length that `random` accepts.
pub const MIN_LENGTH: usize = 2;

/// The largest length that `random` accepts.
pub const MAX_LENGTH: usize = 100;

/// The text of the error for a requested length above the largest.
pub open spec fn too_long_message() -> Seq<char> {
    "string must be less than 100 characters"@
}

/// The text of the error for a requested length below the smallest.
pub open spec fn too_small_message() -> Seq<char> {
    "string must be greater than 1"@
}

/// Reads a requested length: a well-formed digit string whose value lies
/// between `MIN_LENGTH` and `MAX_LENGTH`.
pub fn parse_length(length: &str) -> (r: Result<usize, LuhnError>)
    ensures
        input_error(length@) matches Some(e) ==> r == Err::<usize, LuhnError>(e),
        input_error(length@) is None && decimal_value(length@) > usize::MAX ==> (r matches Err(
            LuhnError::ParseError(m),
        ) && m@ == parse_failure_message()),
        input_error(length@) is None && MAX_LENGTH < decimal_value(length@) <= usize::MAX ==> (
        r matches Err(LuhnError::InvalidLength(m)) && m@ == too_long_message()),
        input_error(length@) is None && decimal_value(length@) < MIN_LENGTH ==> (r matches Err(
            LuhnError::InvalidLength(m),
        ) && m@ == too_small_message()),
        r is Ok <==> (input_error(length@) is None && MIN_LENGTH <= decimal_value(length@)
            <= MAX_LENGTH),
        r matches Ok(n) ==> n == decimal_value(length@),
{
    match handle_errors(length) {
        Err(e) => {
            return Err(e);
        },
        Ok(()) => {},
    }
    let n = match parse_usize(length) {
        None => {
            return Err(LuhnError::ParseError(String::from_str("failed to parse length")));
        },
        Some(n) => n,
    };
    if n > MAX_LENGTH {
        return Err(
            LuhnError::InvalidLength(String::from_str("string must be less than 100 characters")),
        );
    }
    if n < MIN_LENGTH {
        return Err(LuhnError::InvalidLength(String::from_str("string must be greater than 1")));
    }
    Ok(n)
}

/// The digit characters of a sequence of digit values.
pub open spec fn digits_text(ds: Seq<u8>) -> Seq<char> {
    ds.map_values(|d: u8| digit_char(d as int))
}

/// The number made of the digits `ds` followed by their Luhn check digit.
pub fn complete_number(ds: &Vec<u8>) -> (r: String)
    requires
        ds@.len() > 0,
        forall|i: int| 0 <= i < ds@.len() ==> #[trigger] ds@[i] < 10,
    ensures
        r@ == with_check_digit(digits_text(ds@)),
        r@.len() == ds@.len() + 1,
        is_digit_string(r@),
        luhn_valid(r@),
{
    let mut payload = String::new();
    let mut i: usize = 0;
    while i < ds.len()
        invariant
            i <= ds@.len(),
            forall|j: int| 0 <= j < ds@.len() ==> #[trigger] ds@[j] < 10,
            payload@ == digits_text(ds@.subrange(0, i as int)),
        decreases ds@.len() - i,
    {
        let text = digit_text(ds[i]);
        payload.append(text);
        assert(digits_text(ds@.subrange(0, i + 1)) =~= digits_text(ds@.subrange(0, i as int))
            + text@);
        i = i + 1;
    }
    let ghost s = digits_text(ds@);
    assert(ds@.subrange(0, ds@.len() as int) =~= ds@);
    assert(is_digit_string(s));
    proof {
        lemma_input_ok_is_digit_string(s);
        lemma_generated_validates(s);
    }
    match generate(payload.as_str(), None) {
        Ok(full) => full,
        Err(_) => payload,
    }
}

/// Relies on rand's `thread_rng` and `Rng::gen_range`: a value drawn from
/// the range `0..10`.
#[verifier::external_body]
fn draw_digit() -> (d: u8)
    ensures
        d < 10,
{
    rand::Rng::gen_range(&mut rand::thread_rng(), 0u8..10)
}

/// A random number of the requested length whose last digit is the Luhn
/// check digit of the others; every other digit is drawn uniformly from
/// 0 to 9, the leading one included.
pub fn random(length: &str) -> (r: Result<String, LuhnError>)
    ensures
        input_error(length@) matches Some(e) ==> r == Err::<String, LuhnError>(e),
        input_error(length@) is None && decimal_value(length@) > usize::MAX ==> (r matches Err(
            LuhnError::ParseError(m),
        ) && m@ == parse_failure_message()),
        input_error(length@) is None && MAX_LENGTH < decimal_value(length@) <= usize::MAX ==> (
        r matches Err(LuhnError::InvalidLength(m)) && m@ == too_long_message()),
        input_error(length@) is None && decimal_value(length@) < MIN_LENGTH ==> (r matches Err(
            LuhnError::InvalidLength(m),
        ) && m@ == too_small_message()),
        r is Ok <==> (input_error(length@) is None && MIN_LENGTH <= decimal_value(length@)
            <= MAX_LENGTH),
        r matches Ok(t) ==> {
            &&& t@.len() == decimal_value(length@)
            &&& is_digit_string(t@)
            &&& carries_check_digit(t@)
            &&& luhn_valid(t@)
        },
{
    let n = match parse_length(length) {
        Err(e) => {
            return Err(e);
        },
        Ok(n) => n,
    };
    let mut ds: Vec<u8> = Vec::new();
    while ds.len() < n - 1
        invariant
            ds@.len() <= n - 1,
            n >= MIN_LENGTH,
            forall|j: int| 0 <= j < ds@.len() ==> #[trigger] ds@[j] < 10,
        decreases n - 1 - ds@.len(),
    {
        ds.push(draw_digit());
    }
    let r = complete_number(&ds);
    proof {
        lemma_generated_validates(digits_text(ds@));
    }
    Ok(r)
}

} // verus!
