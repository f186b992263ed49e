use luhn_tools::{generate, GenerateOptions, LuhnError};

#[test]
fn lib_test_error_cases() {
    assert_eq!(generate("", None).unwrap_err(), LuhnError::EmptyString);
    assert_eq!(generate("1a", None).unwrap_err(), LuhnError::NonNumeric);
    assert_eq!(
        generate(" 123 ", None).unwrap_err(),
        LuhnError::ContainsSpaces
    );
    assert_eq!(
        generate("-123", None).unwrap_err(),
        LuhnError::NegativeNumber
    );
    assert_eq!(
        generate("123.45", None).unwrap_err(),
        LuhnError::FloatingPoint
    );
}

#[test]
fn test_generate_without_options() {
    assert_eq!(generate("1", None).unwrap(), "18");
    assert_eq!(generate("7992739871", None).unwrap(), "79927398713");
    assert_eq!(generate("0123", None).unwrap(), "01230");
}

#[test]
fn test_generate_with_checksum_false() {
    let options = Some(GenerateOptions {
        checksum_only: false,
    });
    assert_eq!(generate("1", options.clone()).unwrap(), "18");
    assert_eq!(generate("12", options.clone()).unwrap(), "125");
    assert_eq!(generate("123", options.clone()).unwrap(), "1230");
    assert_eq!(generate("1234", options.clone()).unwrap(), "12344");
    assert_eq!(generate("12345", options.clone()).unwrap(), "123455");
    assert_eq!(generate("123456", options.clone()).unwrap(), "1234566");
    assert_eq!(generate("1234567", options.clone()).unwrap(), "12345674");
    assert_eq!(generate("12345678", options.clone()).unwrap(), "123456782");
    assert_eq!(
        generate("123456789", options.clone()).unwrap(),
        "1234567897"
    );
    assert_eq!(generate("7992739871", options).unwrap(), "79927398713");
}

#[test]
fn test_generate_with_checksum_only() {
    let options = Some(GenerateOptions {
        checksum_only: true,
    });
    assert_eq!(generate("1", options.clone()).unwrap(), "8");
    assert_eq!(generate("12", options.clone()).unwrap(), "5");
    assert_eq!(generate("123", options.clone()).unwrap(), "0");
    assert_eq!(generate("1234", options.clone()).unwrap(), "4");
    assert_eq!(generate("12345", options.clone()).unwrap(), "5");
    assert_eq!(generate("123456", options.clone()).unwrap(), "6");
    assert_eq!(generate("1234567", options.clone()).unwrap(), "4");
    assert_eq!(generate("12345678", options.clone()).unwrap(), "2");
    assert_eq!(generate("123456789", options.clone()).unwrap(), "7");
    assert_eq!(generate("7992739871", options).unwrap(), "3");
}

#[test]
fn test_edge_cases() {
    assert_eq!(generate("0", None).unwrap(), "00");
    assert_eq!(generate("00123", None).unwrap(), "001230");
}

#[test]
fn generate_reports_the_first_broken_rule() {
    assert_eq!(generate("1 a", None).unwrap_err(), LuhnError::ContainsSpaces);
    assert_eq!(generate(" -1.", None).unwrap_err(), LuhnError::ContainsSpaces);
    assert_eq!(generate("-1.5", None).unwrap_err(), LuhnError::NegativeNumber);
    assert_eq!(generate("1.a", None).unwrap_err(), LuhnError::FloatingPoint);
    assert_eq!(generate("12\t3", None).unwrap_err(), LuhnError::NonNumeric);
    assert_eq!(generate("١٢", None).unwrap_err(), LuhnError::NonNumeric);
    assert_eq!(generate(" 1 ", None).unwrap_err(), LuhnError::ContainsSpaces);
    assert_eq!(generate("-1", None).unwrap_err(), LuhnError::NegativeNumber);
    assert_eq!(generate("1.2", None).unwrap_err(), LuhnError::FloatingPoint);
}

#[test]
fn generate_errors_do_not_depend_on_options() {
    let only = Some(GenerateOptions { checksum_only: true });
    assert_eq!(generate("", only).unwrap_err(), LuhnError::EmptyString);
    assert_eq!(generate("1a", only).unwrap_err(), LuhnError::NonNumeric);
}

#[test]
fn checksum_only_is_a_single_digit() {
    let only = Some(GenerateOptions { checksum_only: true });
    for input in ["0", "9", "00000", "123456789012345678901234567890", "5555555555554444"] {
        let digit = generate(input, only).unwrap();
        assert_eq!(digit.len(), 1);
        assert!(digit.chars().all(|c| c.is_ascii_digit()));
    }
    assert_eq!(generate("555555555555444", only).unwrap(), "4");
}

#[test]
fn generate_is_repeatable() {
    let only = Some(GenerateOptions { checksum_only: true });
    assert_eq!(generate("4111111111111111", None), generate("4111111111111111", None));
    assert_eq!(generate("4111111111111111", only), generate("4111111111111111", only));
    assert_eq!(generate("", None), generate("", None));
}

#[test]
fn default_options_append_the_digit() {
    let options = GenerateOptions::default();
    assert!(!options.checksum_only);
    assert_eq!(generate("7992739871", Some(options)).unwrap(), "79927398713");
}

#[test]
fn doubled_digits_above_nine_are_folded() {
    // 9 doubled is 18, counted as 1 + 8 = 9; the check digit is then 1
    assert_eq!(generate("9", None).unwrap(), "91");
    // 5 doubled is 10, counted as 1
    assert_eq!(generate("5", None).unwrap(), "59");
    assert_eq!(generate("00000", None).unwrap(), "000000");
}

#[test]
fn long_input_is_handled() {
    let long = "1".repeat(1000);
    let full = generate(&long, None).unwrap();
    assert_eq!(full.len(), 1001);
    assert!(full.starts_with(&long));
}
