use std::cell::RefCell;

use repo_support::ids::{
    digit_of, get_build_id, get_job_id, id_from, parse_id, IdError, ParseIdError,
    BUILD_ID_VARIABLE, JOB_ID_VARIABLE,
};

#[test]
fn parse_id_reads_decimal_numbers() {
    assert_eq!(parse_id("0"), Ok(0));
    assert_eq!(parse_id("42"), Ok(42));
    assert_eq!(parse_id("+42"), Ok(42));
    assert_eq!(parse_id("-42"), Ok(-42));
    assert_eq!(parse_id("007"), Ok(7));
    assert_eq!(parse_id("-0"), Ok(0));
}

#[test]
fn parse_id_reads_the_ends_of_the_range() {
    assert_eq!(parse_id("9223372036854775807"), Ok(i64::MAX));
    assert_eq!(parse_id("-9223372036854775808"), Ok(i64::MIN));
    assert_eq!(parse_id("+0000000000000000000009223372036854775807"), Ok(i64::MAX));
}

#[test]
fn parse_id_refuses_numbers_out_of_range() {
    assert_eq!(parse_id("9223372036854775808"), Err(ParseIdError::PosOverflow));
    assert_eq!(parse_id("-9223372036854775809"), Err(ParseIdError::NegOverflow));
    assert_eq!(parse_id("99999999999999999999999999"), Err(ParseIdError::PosOverflow));
    assert_eq!(parse_id("-99999999999999999999999999"), Err(ParseIdError::NegOverflow));
}

#[test]
fn parse_id_refuses_an_empty_text() {
    assert_eq!(parse_id(""), Err(ParseIdError::Empty));
}

#[test]
fn parse_id_refuses_what_is_no_digit() {
    assert_eq!(parse_id("+"), Err(ParseIdError::InvalidDigit));
    assert_eq!(parse_id("-"), Err(ParseIdError::InvalidDigit));
    assert_eq!(parse_id("12a"), Err(ParseIdError::InvalidDigit));
    assert_eq!(parse_id(" 12"), Err(ParseIdError::InvalidDigit));
    assert_eq!(parse_id("12 "), Err(ParseIdError::InvalidDigit));
    assert_eq!(parse_id("1.5"), Err(ParseIdError::InvalidDigit));
    assert_eq!(parse_id("--1"), Err(ParseIdError::InvalidDigit));
    assert_eq!(parse_id("+-1"), Err(ParseIdError::InvalidDigit));
    assert_eq!(parse_id("1+"), Err(ParseIdError::InvalidDigit));
    assert_eq!(parse_id("٣"), Err(ParseIdError::InvalidDigit));
    assert_eq!(parse_id("0x10"), Err(ParseIdError::InvalidDigit));
}

#[test]
fn parse_id_names_what_ends_the_reading_first() {
    assert_eq!(parse_id("99999999999999999999x"), Err(ParseIdError::PosOverflow));
    assert_eq!(parse_id("9999x9999999999999999"), Err(ParseIdError::InvalidDigit));
    assert_eq!(parse_id("922337203685477580x"), Err(ParseIdError::InvalidDigit));
    assert_eq!(parse_id("9223372036854775807x"), Err(ParseIdError::InvalidDigit));
    assert_eq!(parse_id("-9223372036854775808x"), Err(ParseIdError::InvalidDigit));
    assert_eq!(parse_id("92233720368547758070"), Err(ParseIdError::PosOverflow));
}

fn kind_of_std(text: &str) -> Result<i64, ParseIdError> {
    text.parse::<i64>().map_err(|error| match error.kind() {
        std::num::IntErrorKind::Empty => ParseIdError::Empty,
        std::num::IntErrorKind::InvalidDigit => ParseIdError::InvalidDigit,
        std::num::IntErrorKind::PosOverflow => ParseIdError::PosOverflow,
        std::num::IntErrorKind::NegOverflow => ParseIdError::NegOverflow,
        _ => panic!("unexpected kind"),
    })
}

#[test]
fn parse_id_agrees_with_the_standard_parser() {
    let alphabet = ['0', '1', '9', '+', '-', 'x', ' '];
    let mut texts: Vec<String> = vec![String::new()];
    let mut last: Vec<String> = vec![String::new()];
    for _ in 0..4 {
        let mut next = Vec::new();
        for text in &last {
            for c in alphabet {
                next.push(format!("{}{}", text, c));
            }
        }
        texts.extend(next.iter().cloned());
        last = next;
    }
    for sign in ["", "+", "-"] {
        for digits in [
            "9223372036854775806",
            "9223372036854775807",
            "9223372036854775808",
            "9223372036854775809",
            "9223372036854775810",
            "18446744073709551615",
            "18446744073709551616",
            "170141183460469231731687303715884105727",
            "000000000000000000000000000000000000001",
            "922337203685477580",
            "92233720368547758071",
        ] {
            texts.push(format!("{}{}", sign, digits));
            texts.push(format!("{}{}x", sign, digits));
            texts.push(format!("{}{}0", sign, digits));
        }
    }
    for text in &texts {
        assert_eq!(parse_id(text), kind_of_std(text), "for {:?}", text);
    }
}

#[test]
fn digit_of_knows_the_ten_digits() {
    for (value, c) in ('0'..='9').enumerate() {
        assert_eq!(digit_of(c), Some(value as u8));
    }
    assert_eq!(digit_of('/'), None);
    assert_eq!(digit_of(':'), None);
    assert_eq!(digit_of('a'), None);
    assert_eq!(digit_of('٣'), None);
}

#[test]
fn id_from_reads_the_value() {
    assert_eq!(id_from::<()>(Ok("123".to_string())), Ok(123));
    assert_eq!(id_from::<()>(Ok("-5".to_string())), Ok(-5));
}

#[test]
fn id_from_reports_a_missing_variable() {
    assert_eq!(id_from(Err("not present")), Err(IdError::Variable("not present")));
}

#[test]
fn id_from_reports_a_value_that_is_no_number() {
    assert_eq!(id_from::<()>(Ok("abc".to_string())), Err(IdError::Parse(ParseIdError::InvalidDigit)));
    assert_eq!(id_from::<()>(Ok(String::new())), Err(IdError::Parse(ParseIdError::Empty)));
    assert_eq!(
        id_from::<()>(Ok("9223372036854775808".to_string())),
        Err(IdError::Parse(ParseIdError::PosOverflow))
    );
}

fn environment(name: &str) -> Result<String, String> {
    match name {
        "FLAT_MANAGER_JOB_ID" => Ok("17".to_string()),
        "FLAT_MANAGER_BUILD_ID" => Ok("4711".to_string()),
        _ => Err(format!("{} is not set", name)),
    }
}

#[test]
fn job_and_build_id_are_read_under_their_names() {
    assert_eq!(JOB_ID_VARIABLE, "FLAT_MANAGER_JOB_ID");
    assert_eq!(BUILD_ID_VARIABLE, "FLAT_MANAGER_BUILD_ID");
    assert_eq!(get_job_id(environment), Ok(17));
    assert_eq!(get_build_id(environment), Ok(4711));
}

#[test]
fn job_id_asks_for_its_variable_once() {
    let asked = RefCell::new(Vec::new());
    let id = get_job_id(|name: &str| {
        asked.borrow_mut().push(name.to_string());
        environment(name)
    });
    assert_eq!(id, Ok(17));
    assert_eq!(*asked.borrow(), vec!["FLAT_MANAGER_JOB_ID"]);
}

#[test]
fn build_id_asks_for_its_variable_once() {
    let asked = RefCell::new(Vec::new());
    let id = get_build_id(|name: &str| {
        asked.borrow_mut().push(name.to_string());
        environment(name)
    });
    assert_eq!(id, Ok(4711));
    assert_eq!(*asked.borrow(), vec!["FLAT_MANAGER_BUILD_ID"]);
}

#[test]
fn missing_identifiers_are_errors() {
    let unset = |name: &str| -> Result<String, String> { Err(format!("{} is not set", name)) };
    assert_eq!(get_job_id(unset), Err(IdError::Variable("FLAT_MANAGER_JOB_ID is not set".to_string())));
    assert_eq!(
        get_build_id(unset),
        Err(IdError::Variable("FLAT_MANAGER_BUILD_ID is not set".to_string()))
    );
}

#[test]
fn identifiers_that_are_no_numbers_are_errors() {
    let junk = |_name: &str| -> Result<String, ()> { Ok("seven".to_string()) };
    assert_eq!(get_job_id(junk), Err(IdError::Parse(ParseIdError::InvalidDigit)));
    assert_eq!(get_build_id(junk), Err(IdError::Parse(ParseIdError::InvalidDigit)));
}
