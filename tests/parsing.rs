use auction_house::parse::{parse_amount, parse_id, ParseError};

#[test]
fn ids_parse() {
    assert_eq!(parse_id("0"), Ok(0));
    assert_eq!(parse_id("42"), Ok(42));
    assert_eq!(parse_id("+7"), Ok(7));
    assert_eq!(parse_id("007"), Ok(7));
    assert_eq!(parse_id("4294967295"), Ok(u32::MAX));
}

#[test]
fn malformed_ids_are_rejected() {
    assert_eq!(parse_id(""), Err(ParseError::Malformed));
    assert_eq!(parse_id("+"), Err(ParseError::Malformed));
    assert_eq!(parse_id("-1"), Err(ParseError::Malformed));
    assert_eq!(parse_id("12a"), Err(ParseError::Malformed));
    assert_eq!(parse_id(" 1"), Err(ParseError::Malformed));
    assert_eq!(parse_id("99999999999x"), Err(ParseError::Malformed));
}

#[test]
fn ids_out_of_range() {
    assert_eq!(parse_id("4294967296"), Err(ParseError::OutOfRange));
    assert_eq!(parse_id("123456789012345678901234567890"), Err(ParseError::OutOfRange));
}

#[test]
fn amounts_parse() {
    assert_eq!(parse_amount("15"), Ok(15));
    assert_eq!(parse_amount("-3"), Ok(-3));
    assert_eq!(parse_amount("+12"), Ok(12));
    assert_eq!(parse_amount("2147483647"), Ok(i32::MAX));
    assert_eq!(parse_amount("-2147483648"), Ok(i32::MIN));
    assert_eq!(parse_amount("-0"), Ok(0));
}

#[test]
fn bad_amounts_are_rejected() {
    assert_eq!(parse_amount(""), Err(ParseError::Malformed));
    assert_eq!(parse_amount("-"), Err(ParseError::Malformed));
    assert_eq!(parse_amount("1.5"), Err(ParseError::Malformed));
    assert_eq!(parse_amount("--1"), Err(ParseError::Malformed));
    assert_eq!(parse_amount("2147483648"), Err(ParseError::OutOfRange));
    assert_eq!(parse_amount("-2147483649"), Err(ParseError::OutOfRange));
}

#[test]
fn amounts_agree_with_std() {
    for s in ["0", "1", "-1", "+5", "65535", "-2147483648", "2147483647", "x", "", "-", "+-1"] {
        assert_eq!(parse_amount(s).ok(), s.parse::<i32>().ok(), "{}", s);
    }
    for s in ["0", "+9", "4294967295", "4294967296", "-0", "a"] {
        assert_eq!(parse_id(s).ok(), s.parse::<u32>().ok(), "{}", s);
    }
}
