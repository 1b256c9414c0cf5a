use telemetry_ingest::literal::{is_ascii_digit, is_decimal, parse_i32};
use telemetry_ingest::record::Scalar;

fn chars(s: &str) -> Vec<char> {
    s.chars().collect()
}

#[test]
fn digits_are_the_ten_ascii_digits() {
    for c in '0'..='9' {
        assert!(is_ascii_digit(c));
    }
    assert!(!is_ascii_digit('/'));
    assert!(!is_ascii_digit(':'));
    assert!(!is_ascii_digit('a'));
    assert!(!is_ascii_digit('٣'));
}

#[test]
fn parse_i32_reads_whole_numbers() {
    assert_eq!(parse_i32(&chars("0")), Some(0));
    assert_eq!(parse_i32(&chars("7")), Some(7));
    assert_eq!(parse_i32(&chars("+7")), Some(7));
    assert_eq!(parse_i32(&chars("-7")), Some(-7));
    assert_eq!(parse_i32(&chars("-0")), Some(0));
    assert_eq!(parse_i32(&chars("007")), Some(7));
    assert_eq!(parse_i32(&chars("1234567890")), Some(1234567890));
}

#[test]
fn parse_i32_reads_up_to_the_bounds_of_32_bits() {
    assert_eq!(parse_i32(&chars("2147483647")), Some(i32::MAX));
    assert_eq!(parse_i32(&chars("-2147483648")), Some(i32::MIN));
    assert_eq!(parse_i32(&chars("2147483648")), None);
    assert_eq!(parse_i32(&chars("-2147483649")), None);
    assert_eq!(parse_i32(&chars("00000000000000000000002147483647")), Some(i32::MAX));
    assert_eq!(parse_i32(&chars("99999999999999999999999999999999")), None);
    assert_eq!(parse_i32(&chars("-99999999999999999999999999999999")), None);
}

#[test]
fn parse_i32_refuses_what_is_no_whole_number() {
    for text in ["", "+", "-", "None", "1.0", "1e3", " 1", "1 ", "1,2", "--1", "+-1", "0x10", "١"] {
        assert_eq!(parse_i32(&chars(text)), None, "{:?}", text);
    }
}

#[test]
fn parse_i32_agrees_with_the_standard_parser() {
    let texts = [
        "", "0", "-0", "+0", "12", "-12", "+12", "2147483647", "2147483648", "-2147483648",
        "-2147483649", "4294967296", "1_000", "12a", "a12", "+", "-", "٣", "1.", ".1",
    ];
    for text in texts {
        assert_eq!(parse_i32(&chars(text)), text.parse::<i32>().ok(), "{:?}", text);
    }
}

#[test]
fn decimal_literals_are_recognised() {
    for text in [
        "0", "1.0", "-1.5", "+2", "3.", ".5", "-.5", "1e5", "1E5", "1e+5", "1.5e-7", "2.E3",
        ".5e0", "inf", "-inf", "+Infinity", "NaN", "nan", "INF", "007", "0.000", "123456789012345678901234567890",
    ] {
        assert!(is_decimal(&chars(text)), "{:?}", text);
    }
}

#[test]
fn what_is_no_decimal_literal_is_refused() {
    for text in [
        "", "+", "-", ".", "-.", "e5", ".e5", "1e", "1e+", "1e5.0", "1.2.3", "1,5", " 1", "1 ",
        "abc", "in", "infinit", "nanx", "--1", "0x10", "1_000", "1f", "١", "1e5e5", "+-1",
    ] {
        assert!(!is_decimal(&chars(text)), "{:?}", text);
    }
}

#[test]
fn decimal_literals_are_what_the_standard_parser_reads() {
    let texts = [
        "", "0", "-0", "+0", "1.0", "1.", ".1", ".", "+.", "-.1", "1e1", "1e", "e1", "1.e1", ".1e1",
        ".e1", "1e+1", "1e-1", "1e+-1", "1E1", "inf", "Inf", "iNf", "infinity", "INFINITY",
        "infinit", "infinityy", "nan", "NaN", "-nan", "+inf", "++1", "1 ", " 1", "1,0", "1..0",
        "0.0.0", "1e1.5", "٣", "1_0", "0x1p3", "1f64", "keepalive", "None", "2024-01-01T00:00:00Z",
    ];
    for text in texts {
        assert_eq!(is_decimal(&chars(text)), text.parse::<f64>().is_ok(), "{:?}", text);
    }
}

#[test]
fn scalar_zero_is_zero() {
    assert_eq!(Scalar::zero().as_str(), "0.0");
    assert_eq!(Scalar::zero().as_str().parse::<f64>(), Ok(0.0));
}

#[test]
fn scalar_parse_keeps_the_literal() {
    assert_eq!(Scalar::parse("1.5e-7").map(|s| s.as_str().to_string()), Some("1.5e-7".to_string()));
    assert_eq!(Scalar::parse("-3").map(|s| s.as_str().to_string()), Some("-3".to_string()));
    assert_eq!(Scalar::parse("abc"), None);
    assert_eq!(Scalar::parse(""), None);
}

#[test]
fn scalar_lenient_falls_back_to_zero() {
    assert_eq!(Scalar::lenient("2.5").as_str(), "2.5");
    assert_eq!(Scalar::lenient("two").as_str(), "0.0");
    assert_eq!(Scalar::lenient("").as_str(), "0.0");
    assert_eq!(Scalar::lenient(" 1").as_str(), "0.0");
    assert_eq!(Scalar::lenient("two"), Scalar::zero());
}

#[test]
fn every_scalar_reads_as_a_number() {
    for text in ["0", "1.0", "x", "", "1e400", "-inf", "7."] {
        assert!(Scalar::lenient(text).as_str().parse::<f64>().is_ok(), "{:?}", text);
    }
}

#[test]
fn scalar_clone_keeps_the_literal() {
    let scalar = Scalar::lenient("-12.5e3");
    assert_eq!(scalar.clone(), scalar);
    assert_eq!(scalar.clone().as_str(), "-12.5e3");
    assert_eq!(Scalar::zero().clone().as_str(), "0.0");
}
