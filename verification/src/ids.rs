//! Job and build identifiers.
//!
//! Both are whole numbers that the environment holds as text, each under a
//! name of its own. A text is a number when it is a run of decimal digits,
//! with or without one sign before it, whose value fits 64 bits.

use vstd::prelude::*;
use crate::segments::to_chars;

verus! {

/// The name under which the environment holds the job's identifier.
pub const JOB_ID_VARIABLE: &'static str = "FLAT_MANAGER_JOB_ID";

/// The name under which the environment holds the build's identifier.
pub const BUILD_ID_VARIABLE: &'static str = "FLAT_MANAGER_BUILD_ID";

/// Why a text is no identifier.
#[derive(Clone, Copy, Debug, PartialEq, Eq)]
pub enum ParseIdError {
    /// The text is empty.
    Empty,
    /// The text holds something that is no digit, or a sign and nothing else.
    InvalidDigit,
    /// The number is too large.
    PosOverflow,
    /// The number is too small.
    NegOverflow,
}

/// Why there is no identifier.
#[derive(Debug, PartialEq, Eq)]
pub enum IdError<V> {
    /// The environment did not give the variable's value.
    Variable(V),
    /// The variable's value is no identifier.
    Parse(ParseIdError),
}

/// Whether `c` is one of the ten decimal digits.
pub open spec fn is_digit(c: char) -> bool {
    '0' <= c <= '9'
}

/// The number that the digit `c` stands for.
pub open spec fn digit_value(c: char) -> int {
    c as int - '0' as int
}

/// The number that a run of digits stands for.
pub open spec fn decimal(digits: Seq<char>) -> int
    decreases digits.len(),
{
    if digits.len() == 0 {
        0
    } else {
        10 * decimal(digits.drop_last()) + digit_value(digits.last())
    }
}

/// The text is read from left to right, as the digits of a number below zero
/// where `negative` holds. The reading ends at the first character that is
/// no digit, and at the first digit with which the number leaves the range
/// of 64 bits.
pub open spec fn read_digits(digits: Seq<char>, negative: bool) -> Result<int, ParseIdError>
    decreases digits.len(),
{
    if digits.len() == 0 {
        Ok(0)
    } else {
        match read_digits(digits.drop_last(), negative) {
            Err(error) => Err(error),
            Ok(value) => if !is_digit(digits.last()) {
                Err(ParseIdError::InvalidDigit)
            } else if negative {
                if 10 * value - digit_value(digits.last()) < i64::MIN {
                    Err(ParseIdError::NegOverflow)
                } else {
                    Ok(10 * value - digit_value(digits.last()))
                }
            } else {
                if 10 * value + digit_value(digits.last()) > i64::MAX {
                    Err(ParseIdError::PosOverflow)
                } else {
                    Ok(10 * value + digit_value(digits.last()))
                }
            },
        }
    }
}

/// The identifier that a text stands for.
pub open spec fn spec_parse_id(text: Seq<char>) -> Result<i64, ParseIdError> {
    if text.len() == 0 {
        Err(ParseIdError::Empty)
    } else {
        let signed = text[0] == '+' || text[0] == '-';
        let digits = if signed {
            text.skip(1)
        } else {
            text
        };
        if digits.len() == 0 {
            Err(ParseIdError::InvalidDigit)
        } else {
            match read_digits(digits, text[0] == '-') {
                Ok(value) => Ok(value as i64),
                Err(error) => Err(error),
            }
        }
    }
}

/// Once the reading has failed, what follows changes nothing.
pub proof fn lemma_read_error_stays(digits: Seq<char>, negative: bool, read: int)
    requires
        0 <= read <= digits.len(),
    ensures
        read_digits(digits.take(read), negative) is Err ==> read_digits(digits, negative)
            == read_digits(digits.take(read), negative),
    decreases digits.len() - read,
{
    if read == digits.len() {
        assert(digits.take(read) =~= digits);
    } else {
        assert(digits.take(read + 1).drop_last() =~= digits.take(read));
        lemma_read_error_stays(digits, negative, read + 1);
    }
}

/// What was read stays within 64 bits, on the side of zero that the sign
/// names.
pub proof fn lemma_read_range(digits: Seq<char>, negative: bool)
    ensures
        read_digits(digits, negative) matches Ok(value) ==> i64::MIN <= value <= i64::MAX && (
        negative ==> value <= 0) && (!negative ==> value >= 0),
    decreases digits.len(),
{
    if digits.len() > 0 {
        lemma_read_range(digits.drop_last(), negative);
    }
}

/// Reads an identifier.
pub fn parse_id(text: &str) -> (id: Result<i64, ParseIdError>)
    ensures
        id == spec_parse_id(text@),
{
    let chars = to_chars(text);
    let n = chars.len();
    if n == 0 {
        return Err(ParseIdError::Empty);
    }
    let negative = chars[0] == '-';
    let start: usize = if chars[0] == '+' || chars[0] == '-' {
        1
    } else {
        0
    };
    if start == n {
        return Err(ParseIdError::InvalidDigit);
    }
    let ghost digits = if start == 1 {
        chars@.skip(1)
    } else {
        chars@
    };
    let mut value: i64 = 0;
    let mut i: usize = start;
    proof {
        assert(digits.take(0) =~= Seq::empty());
    }
    while i < n
        invariant
            start <= i <= n,
            n == chars.len(),
            digits.len() == n - start,
            forall|k: int| 0 <= k < digits.len() ==> digits[k] == chars@[start + k],
            read_digits(digits.take(i - start), negative) == Ok::<int, ParseIdError>(value as int),
            read_digits(digits, negative) is Ok ==> spec_parse_id(text@) == Ok::<
                i64,
                ParseIdError,
            >(read_digits(digits, negative)->Ok_0 as i64),
            read_digits(digits, negative) matches Err(error) ==> spec_parse_id(text@) == Err::<
                i64,
                ParseIdError,
            >(error),
        decreases n - i,
    {
        let c = chars[i];
        proof {
            assert(digits.take(i + 1 - start).drop_last() =~= digits.take(i - start));
            assert(digits.take(i + 1 - start).last() == c);
            lemma_read_range(digits.take(i - start), negative);
            lemma_read_error_stays(digits, negative, i + 1 - start);
        }
        let digit: i128 = match digit_of(c) {
            Some(digit) => digit as i128,
            None => {
                return Err(ParseIdError::InvalidDigit);
            },
        };
        let next: i128 = if negative {
            value as i128 * 10 - digit
        } else {
            value as i128 * 10 + digit
        };
        if next < i64::MIN as i128 {
            return Err(ParseIdError::NegOverflow);
        }
        if next > i64::MAX as i128 {
            return Err(ParseIdError::PosOverflow);
        }
        value = next as i64;
        i = i + 1;
    }
    proof {
        assert(digits.take(n - start) =~= digits);
    }
    Ok(value)
}

/// The value of a digit; `None` for any other character.
pub fn digit_of(c: char) -> (digit: Option<u8>)
    ensures
        digit is Some <==> is_digit(c),
        digit matches Some(value) ==> value == digit_value(c),
{
    if '0' <= c && c <= '9' {
        Some(c as u8 - 48)
    } else {
        None
    }
}

/// Whether a text holds digits only.
pub open spec fn all_digits(digits: Seq<char>) -> bool {
    forall|i: int| 0 <= i < digits.len() ==> is_digit(#[trigger] digits[i])
}

/// The number that `digits` stand for behind a sign.
pub open spec fn signed_decimal(digits: Seq<char>, negative: bool) -> int {
    if negative {
        -decimal(digits)
    } else {
        decimal(digits)
    }
}

proof fn lemma_decimal_grows(digits: Seq<char>)
    requires
        all_digits(digits),
    ensures
        0 <= decimal(digits),
        digits.len() > 0 ==> decimal(digits.drop_last()) <= decimal(digits),
    decreases digits.len(),
{
    if digits.len() > 0 {
        let shorter = digits.drop_last();
        assert forall|i: int| 0 <= i < shorter.len() implies is_digit(#[trigger] shorter[i]) by {
            assert(shorter[i] == digits[i]);
        }
        lemma_decimal_grows(shorter);
        assert(is_digit(digits[digits.len() - 1]));
    }
}

/// A run of characters is read to the end exactly when all of them are
/// digits and their number, with its sign, fits 64 bits; it is then read as
/// that number.
pub proof fn law_read_digits_accepts(digits: Seq<char>, negative: bool)
    ensures
        read_digits(digits, negative) is Ok <==> all_digits(digits) && i64::MIN <= signed_decimal(
            digits,
            negative,
        ) <= i64::MAX,
        read_digits(digits, negative) matches Ok(value) ==> value == signed_decimal(
            digits,
            negative,
        ),
    decreases digits.len(),
{
    if digits.len() > 0 {
        let shorter = digits.drop_last();
        law_read_digits_accepts(shorter, negative);
        if all_digits(digits) {
            lemma_decimal_grows(digits);
            assert forall|i: int| 0 <= i < shorter.len() implies is_digit(
                #[trigger] shorter[i],
            ) by {
                assert(shorter[i] == digits[i]);
            }
            assert(is_digit(digits[digits.len() - 1]));
        }
        if read_digits(digits, negative) is Ok {
            assert forall|i: int| 0 <= i < digits.len() implies is_digit(#[trigger] digits[i]) by {
                if i < shorter.len() {
                    assert(shorter[i] == digits[i]);
                }
            }
        }
    }
}

/// A text is an identifier exactly when it is a run of one or more digits,
/// with or without one sign before it, whose number fits 64 bits; the
/// identifier is that number.
pub proof fn law_parse_id_accepts(text: Seq<char>)
    ensures
        ({
            let signed = text.len() > 0 && (text[0] == '+' || text[0] == '-');
            let negative = text.len() > 0 && text[0] == '-';
            let digits = if signed {
                text.skip(1)
            } else {
                text
            };
            &&& spec_parse_id(text) is Ok <==> digits.len() > 0 && all_digits(digits) && i64::MIN
                <= signed_decimal(digits, negative) <= i64::MAX
            &&& spec_parse_id(text) matches Ok(id) ==> id == signed_decimal(digits, negative)
        }),
{
    if text.len() > 0 {
        let signed = text[0] == '+' || text[0] == '-';
        let digits = if signed {
            text.skip(1)
        } else {
            text
        };
        law_read_digits_accepts(digits, text[0] == '-');
    }
}

/// The identifier in what the environment gave for a variable.
pub open spec fn spec_id_from<V>(value: Result<String, V>) -> Result<i64, IdError<V>> {
    match value {
        Err(error) => Err(IdError::Variable(error)),
        Ok(text) => match spec_parse_id(text@) {
            Ok(id) => Ok(id),
            Err(error) => Err(IdError::Parse(error)),
        },
    }
}

/// Reads the identifier in what the environment gave for a variable. That it
/// gave nothing is an error, and so is a value that is no identifier.
#[verifier::when_used_as_spec(spec_id_from)]
pub fn id_from<V>(value: Result<String, V>) -> (id: Result<i64, IdError<V>>)
    ensures
        id == id_from(value),
{
    match value {
        Err(error) => Err(IdError::Variable(error)),
        Ok(text) => match parse_id(text.as_str()) {
            Ok(id) => Ok(id),
            Err(error) => Err(IdError::Parse(error)),
        },
    }
}

/// The identifier of the job, which `variable` reads from the environment
/// under the name [`JOB_ID_VARIABLE`].
pub fn get_job_id<V, F>(variable: F) -> (id: Result<i64, IdError<V>>) where
    F: Fn(&str) -> Result<String, V>,

    requires
        call_requires(variable, (JOB_ID_VARIABLE,)),
    ensures
        exists|value: Result<String, V>|
            call_ensures(variable, (JOB_ID_VARIABLE,), value) && id == #[trigger] spec_id_from(
                value,
            ),
{
    let value = variable(JOB_ID_VARIABLE);
    let ghost given = value;
    let id = id_from(value);
    assert(id == spec_id_from(given));
    id
}

/// The identifier of the build, which `variable` reads from the environment
/// under the name [`BUILD_ID_VARIABLE`].
pub fn get_build_id<V, F>(variable: F) -> (id: Result<i64, IdError<V>>) where
    F: Fn(&str) -> Result<String, V>,

    requires
        call_requires(variable, (BUILD_ID_VARIABLE,)),
    ensures
        exists|value: Result<String, V>|
            call_ensures(variable, (BUILD_ID_VARIABLE,), value) && id == #[trigger] spec_id_from(
                value,
            ),
{
    let value = variable(BUILD_ID_VARIABLE);
    let ghost given = value;
    let id = id_from(value);
    assert(id == spec_id_from(given));
    id
}

} // verus!
