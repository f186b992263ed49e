//! The Luhn check-digit algorithm over decimal digit strings: computing the
//! check digit, validating a number that carries one, and producing random
//! numbers that pass the check.
pub mod checksum;
pub mod digits;
pub mod error;
pub mod luhn;
pub mod sample;

pub use error::{GenerateOptions, LuhnError};
pub use luhn::{generate, validate};
pub use sample::random;
