use vstd::prelude::*;

verus! {

/// Configuration options for generating Luhn numbers.
#[derive(Clone, Copy, Debug)]
pub struct GenerateOptions {
    /// If true, only the check digit is returned; otherwise the input
    /// followed by its check digit.
    pub checksum_only: bool,
}

impl Default for GenerateOptions {
    fn default() -> (r: GenerateOptions)
        ensures
            !r.checksum_only,
    {
        GenerateOptions { checksum_only: false }
    }
}

/// Why an input was rejected.
#[derive(Debug, PartialEq)]
pub enum LuhnError {
    /// The input string is empty.
    EmptyString,
    /// The input contains a space.
    ContainsSpaces,
    /// The input contains a minus sign.
    NegativeNumber,
    /// The input contains a decimal point.
    FloatingPoint,
    /// The input contains a character that is not an ASCII digit.
    NonNumeric,
    /// A length is out of range; the text says which bound was broken.
    InvalidLength(String),
    /// A length could not be read as a number.
    ParseError(String),
}

impl LuhnError {
    /// The human-readable description of the error.
    pub fn message(&self) -> (r: String)
        ensures
            self is InvalidLength ==> r@ == self->InvalidLength_0@,
            self is ParseError ==> r@ == self->ParseError_0@,
    {
        match self {
            LuhnError::EmptyString => String::from_str("string cannot be empty"),
            LuhnError::ContainsSpaces => String::from_str("string cannot contain spaces"),
            LuhnError::NegativeNumber => String::from_str("negative numbers are not allowed"),
            LuhnError::FloatingPoint => String::from_str("floating point numbers are not allowed"),
            LuhnError::NonNumeric => String::from_str("string must be convertible to a number"),
            LuhnError::InvalidLength(msg) => msg.clone(),
            LuhnError::ParseError(msg) => msg.clone(),
        }
    }
}

} // verus!
