use luhn_tools::{generate, validate, GenerateOptions, LuhnError};

#[test]
fn test_error_cases() {
    assert_eq!(validate("").unwrap_err(), LuhnError::EmptyString);
    assert_eq!(
        validate("1").unwrap_err(),
        LuhnError::InvalidLength("string must be longer than 1 character".to_string())
    );
    assert_eq!(validate("1a").unwrap_err(), LuhnError::NonNumeric);
}

#[test]
fn test_invalid_checksums() {
    assert!(!validate("10").unwrap());
    assert!(!validate("120").unwrap());
    assert!(!validate("1231").unwrap());
}

#[test]
fn test_valid_checksums() {
    assert!(validate("18").unwrap());
    assert!(validate("125").unwrap());
    assert!(validate("1230").unwrap());
    assert!(validate("01230").unwrap());
    assert!(validate("001230").unwrap());
}

#[test]
fn known_vectors() {
    assert!(validate("79927398713").unwrap());
    assert!(!validate("79927398714").unwrap());
    assert!(validate("4111111111111111").unwrap());
    assert!(!validate("4111111111111112").unwrap());
    assert!(validate("00").unwrap());
}

#[test]
fn validate_rejects_malformed_input() {
    assert_eq!(validate(" 18").unwrap_err(), LuhnError::ContainsSpaces);
    assert_eq!(validate("-18").unwrap_err(), LuhnError::NegativeNumber);
    assert_eq!(validate("1.8").unwrap_err(), LuhnError::FloatingPoint);
    assert_eq!(validate("a").unwrap_err(), LuhnError::NonNumeric);
    assert_eq!(
        validate("0").unwrap_err(),
        LuhnError::InvalidLength("string must be longer than 1 character".to_string())
    );
}

#[test]
fn generated_numbers_validate() {
    for input in ["0", "1", "42", "00123", "7992739871", "123456789012345678901234567890"] {
        let full = generate(input, None).unwrap();
        assert!(validate(&full).unwrap());
        let only = generate(input, Some(GenerateOptions { checksum_only: true })).unwrap();
        assert_eq!(full, format!("{}{}", input, only));
    }
}

#[test]
fn every_wrong_last_digit_fails() {
    let full = generate("7992739871", None).unwrap();
    let right = full.chars().last().unwrap();
    for d in '0'..='9' {
        let candidate = format!("7992739871{}", d);
        assert_eq!(validate(&candidate).unwrap(), d == right);
    }
}

#[test]
fn error_messages() {
    assert_eq!(LuhnError::EmptyString.message(), "string cannot be empty");
    assert_eq!(LuhnError::ContainsSpaces.message(), "string cannot contain spaces");
    assert_eq!(LuhnError::NegativeNumber.message(), "negative numbers are not allowed");
    assert_eq!(LuhnError::FloatingPoint.message(), "floating point numbers are not allowed");
    assert_eq!(LuhnError::NonNumeric.message(), "string must be convertible to a number");
    assert_eq!(validate("7").unwrap_err().message(), "string must be longer than 1 character");
}
