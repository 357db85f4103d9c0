use rust_project::error_handling::{
    parse_and_add, parse_and_double, parse_error_string, parse_number, process_user_input, trim,
    validate_age, AppError, MyError, ParseError,
};
use rust_project::error_handling::parse_with_custom_error;
use rust_project::numeral::{i64_to_string, parse_i64, u64_to_string};

#[test]
fn parse_i64_reads_signed_numerals() {
    assert_eq!(parse_i64("123"), Some(123));
    assert_eq!(parse_i64("-123"), Some(-123));
    assert_eq!(parse_i64("+5"), Some(5));
    assert_eq!(parse_i64("0"), Some(0));
    assert_eq!(parse_i64("9223372036854775807"), Some(i64::MAX));
    assert_eq!(parse_i64("-9223372036854775808"), Some(i64::MIN));
}

#[test]
fn parse_i64_rejects_what_is_no_numeral() {
    assert_eq!(parse_i64(""), None);
    assert_eq!(parse_i64("-"), None);
    assert_eq!(parse_i64("+"), None);
    assert_eq!(parse_i64("12a"), None);
    assert_eq!(parse_i64("1.5"), None);
    assert_eq!(parse_i64(" 12"), None);
    assert_eq!(parse_i64("9223372036854775808"), None);
    assert_eq!(parse_i64("-9223372036854775809"), None);
}

#[test]
fn integers_print_in_base_ten() {
    assert_eq!(u64_to_string(0), "0");
    assert_eq!(u64_to_string(907), "907");
    assert_eq!(u64_to_string(u64::MAX), "18446744073709551615");
    assert_eq!(i64_to_string(0), "0");
    assert_eq!(i64_to_string(-1), "-1");
    assert_eq!(i64_to_string(1000), "1000");
    assert_eq!(i64_to_string(i64::MIN), "-9223372036854775808");
}

#[test]
fn printing_then_parsing_round_trips() {
    for n in [0i64, 1, -1, 42, -907, i64::MAX, i64::MIN] {
        assert_eq!(parse_i64(&i64_to_string(n)), Some(n));
    }
}

#[test]
fn parse_number_reads_32_bit_integers() {
    assert_eq!(parse_number("42"), Ok(42));
    assert_eq!(parse_number("-5"), Ok(-5));
    assert_eq!(parse_number("+7"), Ok(7));
    assert_eq!(parse_number("2147483647"), Ok(i32::MAX));
    assert_eq!(parse_number("-2147483648"), Ok(i32::MIN));
    assert_eq!(parse_number(""), Err(ParseError::Empty));
    assert_eq!(parse_number("+"), Err(ParseError::InvalidDigit));
    assert_eq!(parse_number("abc"), Err(ParseError::InvalidDigit));
    assert_eq!(parse_number("2147483648"), Err(ParseError::PosOverflow));
    assert_eq!(parse_number("-2147483649"), Err(ParseError::NegOverflow));
    // The first violation in reading order wins, as in std: the
    // overflow comes before the stray letter is reached.
    assert_eq!(
        parse_number("99999999999999x"),
        Err(ParseError::PosOverflow)
    );
}

#[test]
fn parse_number_fails_exactly_as_std_does() {
    for s in [
        "42", "-5", "+7", "0", "2147483647", "-2147483648", "", "+", "-", "abc", "12a",
        "2147483648", "-2147483649", "99999999999999x", "-99999999999999x", "1.5", " 12",
    ] {
        assert_eq!(
            parse_number(s).map_err(parse_error_string),
            s.parse::<i32>().map_err(|e| e.to_string()),
            "input {:?}",
            s
        );
    }
}

#[test]
fn custom_error_wraps_the_parse_error() {
    assert_eq!(parse_with_custom_error("7"), Ok(7));
    assert_eq!(
        parse_with_custom_error("x"),
        Err(MyError::ParseError(ParseError::InvalidDigit))
    );
}

#[test]
fn doubling_and_adding_report_stringified_parse_errors() {
    assert_eq!(parse_and_double("21"), Ok(42));
    assert_eq!(
        parse_and_double("abc"),
        Err(String::from("invalid digit found in string"))
    );
    assert_eq!(
        parse_and_double(""),
        Err(String::from("cannot parse integer from empty string"))
    );
    assert_eq!(
        parse_and_double("3000000000"),
        Err(String::from("number too large to fit in target type"))
    );
    assert_eq!(parse_and_add("1", "2"), Ok(3));
    assert_eq!(
        parse_and_add("x", "2"),
        Err(String::from("invalid digit found in string"))
    );
    assert_eq!(
        parse_and_add("1", ""),
        Err(String::from("cannot parse integer from empty string"))
    );
    assert_eq!(
        parse_and_add("-9999999999", "1"),
        Err(String::from("number too small to fit in target type"))
    );
}

#[test]
fn validate_age_accepts_zero_to_150() {
    assert_eq!(validate_age("30"), Ok(30));
    assert_eq!(validate_age("0"), Ok(0));
    assert_eq!(validate_age("150"), Ok(150));
    assert_eq!(
        validate_age("200"),
        Err(AppError::Validation {
            message: String::from("年龄 200 无效")
        })
    );
    assert_eq!(
        validate_age("-1"),
        Err(AppError::Validation {
            message: String::from("年龄 -1 无效")
        })
    );
    assert_eq!(
        validate_age("old"),
        Err(AppError::Parse {
            source: ParseError::InvalidDigit
        })
    );
}

#[test]
fn user_input_is_trimmed_and_checked() {
    assert_eq!(trim("  42\t\n"), "42");
    assert_eq!(trim("\r\n"), "");
    assert_eq!(trim("a b"), "a b");
    // The full Unicode white-space set, as std trims it.
    assert_eq!(trim("\u{3000}hi\u{00A0}"), "hi");
    assert_eq!(trim("\u{2028}x\u{85}"), "x");
    assert_eq!(process_user_input(" 42 "), Ok(42));
    assert_eq!(
        process_user_input("   "),
        Err(AppError::Io {
            message: String::from("输入为空")
        })
    );
    assert_eq!(
        process_user_input("abc"),
        Err(AppError::Parse {
            source: ParseError::InvalidDigit
        })
    );
    assert_eq!(
        process_user_input("-5"),
        Err(AppError::Validation {
            message: String::from("数字不能为负")
        })
    );
}
