//! The codec for annotation values. Alertmanager hands every annotation over
//! as a string, so a component or a severity travels as the decimal text of
//! an `i8`.

use vstd::prelude::*;

verus! {

/// The ASCII code of `-`.
const MINUS: u8 = 45;

/// The ASCII code of `+`.
const PLUS: u8 = 43;

/// The ASCII code of `0`.
const ZERO: u8 = 48;

/// The ASCII code of `9`.
const NINE: u8 = 57;

/// The text of an annotation was not the decimal form of an `i8`.
#[derive(Clone, Copy, Debug, PartialEq, Eq, Structural)]
pub struct MalformedPayload;

/// The character for a single decimal digit.
pub open spec fn digit_char(digit: int) -> char {
    if digit == 0 {
        '0'
    } else if digit == 1 {
        '1'
    } else if digit == 2 {
        '2'
    } else if digit == 3 {
        '3'
    } else if digit == 4 {
        '4'
    } else if digit == 5 {
        '5'
    } else if digit == 6 {
        '6'
    } else if digit == 7 {
        '7'
    } else if digit == 8 {
        '8'
    } else {
        '9'
    }
}

/// The decimal digits of a natural number, without leading zeros.
pub open spec fn decimal_digits(value: nat) -> Seq<char>
    decreases value,
{
    if value < 10 {
        seq![digit_char(value as int)]
    } else {
        decimal_digits(value / 10).push(digit_char((value % 10) as int))
    }
}

/// The decimal text of an integer: a minus sign for a negative one, then the
/// digits of its magnitude.
pub open spec fn decimal(value: int) -> Seq<char> {
    if value < 0 {
        seq!['-'] + decimal_digits((-value) as nat)
    } else {
        decimal_digits(value as nat)
    }
}

/// Whether `c` is one of the ten ASCII digits.
pub open spec fn is_digit(c: char) -> bool {
    '0' <= c <= '9'
}

/// The number that the ASCII digit `c` stands for.
pub open spec fn digit_value(c: char) -> int {
    c as int - '0' as int
}

/// The number that a run of digits denotes; leading zeros count for nothing.
pub open spec fn digits_value(digits: Seq<char>) -> nat
    decreases digits.len(),
{
    if digits.len() == 0 {
        0
    } else {
        (digits_value(digits.drop_last()) * 10 + digit_value(digits.last())) as nat
    }
}

/// Whether every character of `text` is a digit.
pub open spec fn all_digits(text: Seq<char>) -> bool {
    forall|i: int| 0 <= i < text.len() ==> is_digit(#[trigger] text[i])
}

/// What is left of `text` once a leading sign is taken off.
pub open spec fn unsigned_part(text: Seq<char>) -> Seq<char> {
    if text.len() > 0 && (text[0] == '-' || text[0] == '+') {
        text.skip(1)
    } else {
        text
    }
}

/// The integer that `text` denotes: an optional sign followed by at least one
/// digit and nothing else. `None` for every other text.
pub open spec fn denoted(text: Seq<char>) -> Option<int> {
    let digits = unsigned_part(text);
    if digits.len() == 0 || !all_digits(digits) {
        None
    } else if text[0] == '-' {
        Some(-(digits_value(digits) as int))
    } else {
        Some(digits_value(digits) as int)
    }
}

/// The `i8` that `text` denotes, if it denotes an integer in range.
pub open spec fn parsed(text: Seq<char>) -> Option<i8> {
    match denoted(text) {
        Some(value) => if i8::MIN <= value <= i8::MAX {
            Some(value as i8)
        } else {
            None
        },
        None => None,
    }
}

/// A run of digits denotes at least what any of its prefixes denotes.
proof fn digits_value_grows(digits: Seq<char>, len: int)
    requires
        all_digits(digits),
        0 <= len <= digits.len(),
    ensures
        digits_value(digits.take(len)) <= digits_value(digits),
    decreases digits.len(),
{
    if len == digits.len() {
        assert(digits.take(len) == digits);
    } else {
        let shorter = digits.drop_last();
        assert(shorter.take(len) == digits.take(len));
        digits_value_grows(shorter, len);
    }
}

/// The digits of a number denote that number.
pub proof fn decimal_digits_denote(value: nat)
    ensures
        decimal_digits(value).len() > 0,
        all_digits(decimal_digits(value)),
        digits_value(decimal_digits(value)) == value,
    decreases value,
{
    let digits = decimal_digits(value);
    if value < 10 {
        assert(digits_value(digits.drop_last()) == 0);
    } else {
        decimal_digits_denote(value / 10);
        assert(digits.drop_last() =~= decimal_digits(value / 10));
    }
}

/// What [`serialize`] writes, [`deserialize`] reads back: the decimal text
/// of an `i8` denotes that `i8`.
pub proof fn decimal_text_reads_back(value: i8)
    ensures
        parsed(decimal(value as int)) == Some(value),
{
    let text = decimal(value as int);
    if value < 0 {
        let digits = decimal_digits((-value) as nat);
        decimal_digits_denote((-value) as nat);
        assert(unsigned_part(text) =~= digits);
    } else {
        decimal_digits_denote(value as nat);
    }
}

/// The text of one decimal digit.
fn digit_text(digit: u8) -> (text: &'static str)
    requires
        digit < 10,
    ensures
        text@ == seq![digit_char(digit as int)],
{
    proof {
        reveal_strlit("0");
        reveal_strlit("1");
        reveal_strlit("2");
        reveal_strlit("3");
        reveal_strlit("4");
        reveal_strlit("5");
        reveal_strlit("6");
        reveal_strlit("7");
        reveal_strlit("8");
        reveal_strlit("9");
    }
    let text = match digit {
        0 => "0",
        1 => "1",
        2 => "2",
        3 => "3",
        4 => "4",
        5 => "5",
        6 => "6",
        7 => "7",
        8 => "8",
        _ => "9",
    };
    text
}

/// Writes an annotation value as its decimal text.
pub fn serialize(value: &i8) -> (text: String)
    ensures
        text@ == decimal(*value as int),
{
    let wide: i16 = *value as i16;
    let magnitude: u8 = if wide < 0 {
        (-wide) as u8
    } else {
        wide as u8
    };
    let mut text = String::new();
    if wide < 0 {
        proof {
            reveal_strlit("-");
        }
        text.append("-");
    }
    if magnitude >= 100 {
        text.append(digit_text(magnitude / 100));
    }
    if magnitude >= 10 {
        text.append(digit_text((magnitude / 10) % 10));
    }
    text.append(digit_text(magnitude % 10));
    proof {
        reveal_with_fuel(decimal_digits, 3);
    }
    text
}

/// Reads an annotation value back from its text: an optional sign, then
/// decimal digits, denoting an integer in the range of `i8`. Any other text
/// is malformed.
pub fn deserialize(text: &str) -> (value: Result<i8, MalformedPayload>)
    ensures
        match value {
            Ok(number) => parsed(text@) == Some(number),
            Err(_) => parsed(text@) is None,
        },
{
    if !text.is_ascii() {
        proof {
            // A character beyond ASCII is neither a sign nor a digit.
            let at = choose|i: int|
                0 <= i < text@.len() && !('\0' <= #[trigger] text@[i] <= '\u{7f}');
            let digits = unsigned_part(text@);
            if digits.len() < text@.len() && at > 0 {
                assert(!is_digit(digits[at - 1]));
            }
        }
        return Err(MalformedPayload);
    }
    let bytes = text.as_bytes();
    let len = bytes.len();
    proof {
        vstd::string::is_ascii_spec_bytes(text);
    }
    let negative = len > 0 && bytes[0] == MINUS;
    let start: usize = if len > 0 && (bytes[0] == MINUS || bytes[0] == PLUS) {
        1
    } else {
        0
    };
    let ghost digits = unsigned_part(text@);
    if start == len {
        return Err(MalformedPayload);
    }
    let mut magnitude: u16 = 0;
    let mut i: usize = start;
    while i < len
        invariant
            start <= i <= len,
            len == text@.len(),
            text.is_ascii(),
            bytes@ =~= Seq::new(text@.len(), |k: int| text@[k] as u8),
            digits == text@.skip(start as int),
            digits == unsigned_part(text@),
            forall|k: int| 0 <= k < i - start ==> is_digit(#[trigger] digits[k]),
            magnitude == digits_value(digits.take(i - start)),
            magnitude <= 128,
        decreases len - i,
    {
        let byte = bytes[i];
        if byte < ZERO || byte > NINE {
            assert(!is_digit(digits[i - start]));
            return Err(MalformedPayload);
        }
        let ghost seen = digits.take(i - start);
        let ghost next = digits.take(i - start + 1);
        assert(next.drop_last() == seen);
        magnitude = magnitude * 10 + (byte - ZERO) as u16;
        i += 1;
        if magnitude > 128 {
            // Whatever follows, the number is out of range or the text is
            // no number.
            proof {
                if all_digits(digits) {
                    digits_value_grows(digits, i - start);
                }
            }
            return Err(MalformedPayload);
        }
    }
    assert(digits.take(i - start) == digits);
    if negative {
        Ok((-(magnitude as i16)) as i8)
    } else if magnitude <= 127 {
        Ok(magnitude as i8)
    } else {
        Err(MalformedPayload)
    }
}

} // verus!
