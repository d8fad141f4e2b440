//! Reading a temperature sample from the text that the sensor gives: one
//! unsigned decimal number of thousandths of a degree, with white space
//! around it.

use crate::error::SensorError;
use crate::units::Celsius;
use vstd::prelude::*;

verus! {

/// The characters that Unicode calls white space.
pub open spec fn is_whitespace(c: char) -> bool {
    let code = c as u32;
    ||| 0x09 <= code <= 0x0D
    ||| code == 0x20
    ||| code == 0x85
    ||| code == 0xA0
    ||| code == 0x1680
    ||| 0x2000 <= code <= 0x200A
    ||| code == 0x2028
    ||| code == 0x2029
    ||| code == 0x202F
    ||| code == 0x205F
    ||| code == 0x3000
}

/// The decimal digits.
pub open spec fn is_digit(c: char) -> bool {
    0x30 <= c as u32 <= 0x39
}

/// The number that a digit stands for.
pub open spec fn digit_value(c: char) -> nat {
    (c as u32 - 0x30) as nat
}

/// The first place from `from` on that holds no white space.
pub open spec fn skip_whitespace(text: Seq<char>, from: int) -> int
    decreases text.len() - from,
{
    if 0 <= from < text.len() && is_whitespace(text[from]) {
        skip_whitespace(text, from + 1)
    } else {
        from
    }
}

/// The place after the last character before `to` that is no white space,
/// looking no further back than `from`.
pub open spec fn skip_whitespace_back(text: Seq<char>, from: int, to: int) -> int
    decreases to - from,
{
    if from < to <= text.len() && is_whitespace(text[to - 1]) {
        skip_whitespace_back(text, from, to - 1)
    } else {
        to
    }
}

/// A text without the white space at its start and at its end.
pub open spec fn trimmed(text: Seq<char>) -> Seq<char> {
    let start = skip_whitespace(text, 0);
    let end = skip_whitespace_back(text, start, text.len() as int);
    text.subrange(start, end)
}

/// Every character is a decimal digit.
pub open spec fn all_digits(text: Seq<char>) -> bool {
    forall|i: int| 0 <= i < text.len() ==> is_digit(#[trigger] text[i])
}

/// The number that a row of decimal digits stands for.
pub open spec fn decimal(digits: Seq<char>) -> nat
    decreases digits.len(),
{
    if digits.len() == 0 {
        0
    } else {
        decimal(digits.drop_last()) * 10 + digit_value(digits.last())
    }
}

/// A text without the plus sign that may stand before a number.
pub open spec fn unsigned_digits(text: Seq<char>) -> Seq<char> {
    if text.len() > 0 && text[0] == '+' {
        text.drop_first()
    } else {
        text
    }
}

/// The temperature that a sample text stands for. The text is trimmed; what
/// is left must be decimal digits, at least one, with or without a plus sign
/// before them, and their number must be a temperature that the library can
/// hold.
pub open spec fn sample_reading(text: Seq<char>) -> Result<int, SensorError> {
    let digits = unsigned_digits(trimmed(text));
    if digits.len() == 0 || !all_digits(digits) {
        Err(SensorError::Unparsable)
    } else if decimal(digits) > i64::MAX {
        Err(SensorError::OutOfRange)
    } else {
        Ok(decimal(digits) as int)
    }
}

/// Whether a character is white space.
pub fn char_is_whitespace(c: char) -> (b: bool)
    ensures
        b == is_whitespace(c),
{
    let code: u32 = c as u32;
    (0x09 <= code && code <= 0x0D) || code == 0x20 || code == 0x85 || code == 0xA0 || code
        == 0x1680 || (0x2000 <= code && code <= 0x200A) || code == 0x2028 || code == 0x2029
        || code == 0x202F || code == 0x205F || code == 0x3000
}

/// Reads a temperature sample in thousandths of a degree from the text that
/// the sensor gives.
pub fn parse_temperature(text: &str) -> (r: Result<Celsius, SensorError>)
    ensures
        match r {
            Ok(temp) => sample_reading(text@) == Ok::<int, SensorError>(temp@),
            Err(e) => sample_reading(text@) == Err::<int, SensorError>(e),
        },
{
    let len: usize = text.unicode_len();
    let mut start: usize = 0;
    while start < len && char_is_whitespace(text.get_char(start))
        invariant
            start <= len,
            len == text@.len(),
            skip_whitespace(text@, 0) == skip_whitespace(text@, start as int),
        decreases len - start,
    {
        start += 1;
    }
    let mut end: usize = len;
    while start < end && char_is_whitespace(text.get_char(end - 1))
        invariant
            start <= end <= len,
            len == text@.len(),
            skip_whitespace_back(text@, start as int, len as int) == skip_whitespace_back(
                text@,
                start as int,
                end as int,
            ),
        decreases end - start,
    {
        end -= 1;
    }
    assert(trimmed(text@) == text@.subrange(start as int, end as int));
    if start < end && text.get_char(start) == '+' {
        start += 1;
    }
    let ghost digits = text@.subrange(start as int, end as int);
    assert(digits =~= unsigned_digits(trimmed(text@)));
    if start == end {
        return Err(SensorError::Unparsable);
    }
    let mut value: u64 = 0;
    let mut too_large: bool = false;
    let mut i: usize = start;
    while i < end
        invariant
            start <= i <= end <= len,
            len == text@.len(),
            digits == text@.subrange(start as int, end as int),
            digits == unsigned_digits(trimmed(text@)),
            all_digits(digits.take(i - start)),
            too_large ==> decimal(digits.take(i - start)) > i64::MAX,
            !too_large ==> value == decimal(digits.take(i - start)) && value <= i64::MAX,
        decreases end - i,
    {
        let c: char = text.get_char(i);
        let code: u32 = c as u32;
        if !(0x30 <= code && code <= 0x39) {
            assert(!is_digit(digits[i - start]));
            return Err(SensorError::Unparsable);
        }
        let ghost before = digits.take(i - start);
        let ghost after = digits.take(i - start + 1);
        proof {
            assert(after.drop_last() =~= before);
            assert(after.last() == c);
            assert forall|j: int| 0 <= j < after.len() implies is_digit(#[trigger] after[j]) by {
                if j < before.len() {
                    assert(after[j] == before[j]);
                }
            }
        }
        if !too_large {
            let digit: u64 = (code - 0x30) as u64;
            if value > (i64::MAX as u64 - digit) / 10 {
                too_large = true;
            } else {
                value = value * 10 + digit;
            }
        }
        i += 1;
    }
    assert(digits.take(end - start) =~= digits);
    if too_large {
        Err(SensorError::OutOfRange)
    } else {
        Ok(Celsius { millidegrees: value as i64 })
    }
}

} // verus!
