use vstd::prelude::*;

use crate::checksum::{check_digit, generate_checksum, luhn_sum, luhn_valid, with_check_digit};
use crate::digits::{
    digit_char,
    digit_value,
    handle_errors,
    input_error,
    is_digit,
    is_digit_string,
    lemma_input_ok_is_digit_string,
};
use crate::error::{GenerateOptions, LuhnError};

verus! {

/// Whether `options` asks for the check digit alone.
pub open spec fn checksum_only(options: Option<GenerateOptions>) -> bool {
    match options {
        Some(o) => o.checksum_only,
        None => false,
    }
}

/// What `generate` returns for a well-formed digit string `s`.
pub open spec fn generated(s: Seq<char>, only_checksum: bool) -> Seq<char> {
    if only_checksum {
        seq![digit_char(check_digit(s))]
    } else {
        with_check_digit(s)
    }
}

/// What `generate` returns for `s` under `options`, as text.
pub open spec fn generate_spec(s: Seq<char>, options: Option<GenerateOptions>) -> Result<
    Seq<char>,
    LuhnError,
> {
    match input_error(s) {
        Some(e) => Err(e),
        None => Ok(generated(s, checksum_only(options))),
    }
}

/// A result whose string is replaced by its characters.
pub open spec fn text_result(r: Result<String, LuhnError>) -> Result<Seq<char>, LuhnError> {
    match r {
        Ok(t) => Ok(t@),
        Err(e) => Err(e),
    }
}

/// The text of the error for a number too short to carry a check digit.
pub open spec fn too_short_message() -> Seq<char> {
    "string must be longer than 1 character"@
}

/// The one-character string of the digit `d`.
pub(crate) fn digit_text(d: u8) -> (r: &'static str)
    requires
        d < 10,
    ensures
        r@ == seq![digit_char(d as int)],
{
    let all = "0123456789";
    proof {
        reveal_strlit("0123456789");
    }
    assert(all.is_ascii());
    assert(all@[d as int] == digit_char(d as int));
    let r = all.substring_ascii(d as usize, d as usize + 1);
    assert(r@ =~= seq![digit_char(d as int)]);
    r
}

/// Computes the Luhn check digit of `value` and returns either `value` with
/// the digit appended or, when `options` asks for it, the digit alone.
pub fn generate(value: &str, options: Option<GenerateOptions>) -> (r: Result<String, LuhnError>)
    ensures
        text_result(r) == generate_spec(value@, options),
{
    match handle_errors(value) {
        Err(e) => {
            return Err(e);
        },
        Ok(()) => {},
    }
    let checksum = generate_checksum(value);
    let text = digit_text(checksum);
    let only = match options {
        Some(o) => o.checksum_only,
        None => false,
    };
    if only {
        Ok(String::from_str(text))
    } else {
        let mut full = String::from_str(value);
        full.append(text);
        assert(full@ =~= with_check_digit(value@));
        Ok(full)
    }
}

/// Whether `s` ends in the check digit of the digits before it.
pub open spec fn carries_check_digit(s: Seq<char>) -> bool {
    s == with_check_digit(s.drop_last())
}

/// A digit string of two or more digits ends in the check digit of the rest
/// exactly when its Luhn sum is a multiple of ten.
pub proof fn lemma_carries_check_digit_iff_valid(s: Seq<char>)
    requires
        is_digit_string(s),
        s.len() >= 2,
    ensures
        carries_check_digit(s) <==> luhn_valid(s),
{
    let p = s.drop_last();
    let c = s.last();
    assert(is_digit(c));
    let sum = luhn_sum(p, true);
    assert(luhn_sum(s, false) == digit_value(c) + sum);
    if carries_check_digit(s) {
        assert(with_check_digit(p).last() == digit_char(check_digit(p)));
        assert(digit_value(c) == check_digit(p));
    }
    if luhn_valid(s) {
        assert(digit_value(c) == check_digit(p));
        assert(s =~= with_check_digit(p));
    }
}

/// Whether `value` ends in the correct Luhn check digit for the digits
/// before it.
pub fn validate(value: &str) -> (r: Result<bool, LuhnError>)
    ensures
        match input_error(value@) {
            Some(e) => r == Err::<bool, LuhnError>(e),
            None => if value@.len() == 1 {
                r matches Err(LuhnError::InvalidLength(m)) && m@ == too_short_message()
            } else {
                r == Ok::<bool, LuhnError>(luhn_valid(value@))
            },
        },
        r matches Ok(b) ==> b == carries_check_digit(value@),
{
    match handle_errors(value) {
        Err(e) => {
            return Err(e);
        },
        Ok(()) => {},
    }
    let n = value.unicode_len();
    if n == 1 {
        return Err(
            LuhnError::InvalidLength(String::from_str("string must be longer than 1 character")),
        );
    }
    proof {
        lemma_carries_check_digit_iff_valid(value@);
    }
    assert(value.is_ascii());
    let payload = value.substring_ascii(0, n - 1);
    assert(payload@ =~= value@.drop_last());
    assert(input_error(payload@) is None) by {
        lemma_input_ok_is_digit_string(payload@);
    }
    match generate(payload, None) {
        Err(e) => Err(e),
        Ok(full) => Ok(String::from_str(value) == full),
    }
}

/// A well-formed digit string followed by its check digit is a well-formed
/// digit string of at least two digits that ends in the check digit of the
/// rest and passes the Luhn check: `validate` accepts what `generate` makes.
pub proof fn lemma_generated_validates(s: Seq<char>)
    requires
        is_digit_string(s),
    ensures
        generate_spec(s, None) == Ok::<Seq<char>, LuhnError>(with_check_digit(s)),
        is_digit_string(with_check_digit(s)),
        input_error(with_check_digit(s)) is None,
        with_check_digit(s).len() == s.len() + 1,
        with_check_digit(s).len() >= 2,
        carries_check_digit(with_check_digit(s)),
        luhn_valid(with_check_digit(s)),
{
    let t = with_check_digit(s);
    assert(t.drop_last() =~= s);
    assert(is_digit_string(t));
    lemma_input_ok_is_digit_string(s);
    lemma_input_ok_is_digit_string(t);
    lemma_carries_check_digit_iff_valid(t);
}

/// For a well-formed digit string, `generate` with the check digit alone
/// asked for returns exactly one character, a digit.
pub proof fn lemma_checksum_only_is_one_digit(s: Seq<char>)
    requires
        is_digit_string(s),
    ensures
        generated(s, true).len() == 1,
        is_digit(generated(s, true)[0]),
{
    lemma_check_digit_range(s);
}

/// The check digit lies between 0 and 9.
pub proof fn lemma_check_digit_range(s: Seq<char>)
    ensures
        0 <= check_digit(s) < 10,
{
}

/// `generate` is a function of its arguments: two results that meet its
/// contract for the same input and options are the same.
pub proof fn lemma_generate_is_pure(
    s: Seq<char>,
    options: Option<GenerateOptions>,
    r1: Result<String, LuhnError>,
    r2: Result<String, LuhnError>,
)
    requires
        text_result(r1) == generate_spec(s, options),
        text_result(r2) == generate_spec(s, options),
    ensures
        text_result(r1) == text_result(r2),
{
}

/// A number that `random` returns passes `validate`: it is a well-formed
/// digit string longer than one character that passes the Luhn check.
pub proof fn lemma_random_output_validates(t: Seq<char>)
    requires
        is_digit_string(t),
        t.len() >= 2,
        carries_check_digit(t),
    ensures
        input_error(t) is None,
        t.len() != 1,
        luhn_valid(t),
{
    lemma_input_ok_is_digit_string(t);
    lemma_carries_check_digit_iff_valid(t);
}

} // verus!
