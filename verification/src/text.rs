//! Small text routines: unwrapping a quoted field, and decimal numbers.

use vstd::prelude::*;

verus! {

/// The double quote that encloses an encoded string field.
pub open spec fn quote() -> char {
    '"'
}

/// A field without its enclosing pair of quotes.
///
/// Only one leading and one trailing quote are removed, and only when both
/// are there; whatever stands between them, escaped quotes included, is kept.
pub open spec fn unquoted(raw: Seq<char>) -> Seq<char> {
    if raw.len() >= 2 && raw.first() == quote() && raw.last() == quote() {
        raw.subrange(1, raw.len() - 1)
    } else {
        raw
    }
}

/// Removes the enclosing pair of quotes from an encoded field.
pub fn strip_quotes(raw: &str) -> (plain: String)
    ensures
        plain@ == unquoted(raw@),
{
    let len = raw.unicode_len();
    if len >= 2 && raw.get_char(0) == '"' && raw.get_char(len - 1) == '"' {
        raw.substring_char(1, len - 1).to_owned()
    } else {
        raw.to_owned()
    }
}

/// Whether a character is one of the ten decimal digits.
pub open spec fn is_digit(c: char) -> bool {
    '0' <= c <= '9'
}

/// The number a decimal digit stands for; 0 for any other character.
pub open spec fn digit_value(c: char) -> nat {
    if is_digit(c) {
        (c as int - '0' as int) as nat
    } else {
        0
    }
}

/// Whether a text holds decimal digits only.
pub open spec fn all_digits(text: Seq<char>) -> bool {
    forall|i: int| 0 <= i < text.len() ==> is_digit(#[trigger] text[i])
}

/// The number that a run of decimal digits denotes.
pub open spec fn digits_value(digits: Seq<char>) -> nat
    decreases digits.len(),
{
    if digits.len() == 0 {
        0
    } else {
        10 * digits_value(digits.drop_last()) + digit_value(digits.last())
    }
}

/// The integer that a text denotes: an optional sign, `+` or `-`, then one or
/// more decimal digits and nothing else, with a value that fits 64 bits.
/// Leading zeros are allowed.
pub open spec fn signed_decimal(text: Seq<char>) -> Option<int> {
    let signed = text.len() > 0 && (text[0] == '-' || text[0] == '+');
    let digits = if signed {
        text.skip(1)
    } else {
        text
    };
    let value = if text.len() > 0 && text[0] == '-' {
        -(digits_value(digits) as int)
    } else {
        digits_value(digits) as int
    };
    if digits.len() > 0 && all_digits(digits) && i64::MIN <= value <= i64::MAX {
        Some(value)
    } else {
        None
    }
}

/// The epoch seconds that an encoded creation time denotes: a whole number
/// followed by the fraction `.0`, which is cut off. A text of any other form
/// denotes none.
pub open spec fn epoch_of(raw: Seq<char>) -> Option<int> {
    if raw.len() >= 2 && raw[raw.len() - 2] == '.' && raw[raw.len() - 1] == '0' {
        signed_decimal(raw.subrange(0, raw.len() - 2))
    } else {
        None
    }
}

/// The ASCII code of `-`.
const MINUS: u8 = 0x2d;

/// The ASCII code of `+`.
const PLUS: u8 = 0x2b;

/// The ASCII code of `0`.
const ZERO: u8 = 0x30;

/// The ASCII code of `9`.
const NINE: u8 = 0x39;

/// The largest magnitude of a 64-bit integer, that of the least one.
const MAGNITUDE_LIMIT: u64 = 0x8000_0000_0000_0000;

/// The digits read so far never denote more than the whole run does.
proof fn lemma_digits_value_of_prefix(digits: Seq<char>, k: int)
    requires
        0 <= k <= digits.len(),
    ensures
        digits_value(digits.take(k)) <= digits_value(digits),
    decreases digits.len(),
{
    if k == digits.len() {
        assert(digits.take(k) =~= digits);
    } else {
        lemma_digits_value_of_prefix(digits.drop_last(), k);
        assert(digits.drop_last().take(k) =~= digits.take(k));
    }
}

/// A text that denotes an integer holds ASCII characters only.
proof fn lemma_number_is_ascii(text: Seq<char>)
    requires
        signed_decimal(text) is Some,
    ensures
        vstd::utf8::is_ascii_chars(text),
{
    let signed = text[0] == '-' || text[0] == '+';
    assert forall|i: int| 0 <= i < text.len() implies '\0' <= #[trigger] text[i] <= '\u{7f}' by {
        if signed {
            if i > 0 {
                assert(is_digit(text.skip(1)[i - 1]));
            }
        } else {
            assert(is_digit(text[i]));
        }
    }
}

/// Reads a whole number with an optional sign.
pub fn parse_signed(text: &str) -> (value: Option<i64>)
    ensures
        match value {
            Some(v) => signed_decimal(text@) == Some(v as int),
            None => signed_decimal(text@) is None,
        },
{
    if !text.is_ascii() {
        proof {
            if signed_decimal(text@) is Some {
                lemma_number_is_ascii(text@);
            }
        }
        return None;
    }
    proof {
        vstd::string::is_ascii_spec_bytes(text);
    }
    let len = text.as_bytes().len();
    assert(len == text@.len());
    if len == 0 {
        return None;
    }
    let first = text.get_ascii(0);
    assert(first as int == text@[0] as int);
    let negative = first == MINUS;
    let start: usize = if first == MINUS || first == PLUS {
        1
    } else {
        0
    };
    let ghost digits = text@.skip(start as int);
    assert(text@.skip(0) =~= text@);
    assert(negative == (text@[0] == '-'));
    assert(start == 1 <==> (text@[0] == '-' || text@[0] == '+'));
    if start == len {
        return None;
    }
    let mut magnitude: u64 = 0;
    let mut i: usize = start;
    assert(digits.take(0) =~= Seq::<char>::empty());
    while i < len
        invariant
            text.is_ascii(),
            len == text@.len(),
            start < len,
            start <= i <= len,
            start <= 1,
            start == 1 <==> (text@[0] == '-' || text@[0] == '+'),
            negative == (text@[0] == '-'),
            digits == text@.skip(start as int),
            start == 0 ==> digits == text@,
            all_digits(digits.take(i - start)),
            magnitude == digits_value(digits.take(i - start)),
            magnitude <= MAGNITUDE_LIMIT,
        decreases len - i,
    {
        let byte = text.get_ascii(i);
        let ghost c = text@[i as int];
        assert(byte as int == c as int);
        assert(digits[i - start] == c);
        assert(digits.take(i - start + 1).drop_last() =~= digits.take(i - start));
        assert(digits.take(i - start + 1).last() == c);
        if byte < ZERO || byte > NINE {
            assert(!is_digit(c));
            return None;
        }
        let digit: u64 = (byte - ZERO) as u64;
        assert(digit == digit_value(c));
        assert(digits_value(digits.take(i - start + 1)) == 10 * magnitude + digit);
        if magnitude > (MAGNITUDE_LIMIT - digit) / 10 {
            proof {
                assert(10 * magnitude + digit > MAGNITUDE_LIMIT);
                lemma_digits_value_of_prefix(digits, i - start + 1);
            }
            return None;
        }
        magnitude = magnitude * 10 + digit;
        i += 1;
    }
    assert(digits.take(len - start) =~= digits);
    if negative {
        if magnitude == MAGNITUDE_LIMIT {
            Some(i64::MIN)
        } else {
            Some(-(magnitude as i64))
        }
    } else if magnitude > i64::MAX as u64 {
        None
    } else {
        Some(magnitude as i64)
    }
}

/// Reads an encoded creation time.
pub fn parse_epoch(raw: &str) -> (epoch: Option<i64>)
    ensures
        match epoch {
            Some(e) => epoch_of(raw@) == Some(e as int),
            None => epoch_of(raw@) is None,
        },
{
    let len = raw.unicode_len();
    if len >= 2 && raw.get_char(len - 2) == '.' && raw.get_char(len - 1) == '0' {
        parse_signed(raw.substring_char(0, len - 2))
    } else {
        None
    }
}

/// The character that writes a number below ten.
pub open spec fn digit_char(d: nat) -> char {
    if d == 0 {
        '0'
    } else if d == 1 {
        '1'
    } else if d == 2 {
        '2'
    } else if d == 3 {
        '3'
    } else if d == 4 {
        '4'
    } else if d == 5 {
        '5'
    } else if d == 6 {
        '6'
    } else if d == 7 {
        '7'
    } else if d == 8 {
        '8'
    } else {
        '9'
    }
}

/// A number in decimal digits, without leading zeros.
pub open spec fn decimal_digits(n: nat) -> Seq<char>
    decreases n,
{
    if n < 10 {
        seq![digit_char(n)]
    } else {
        decimal_digits(n / 10).push(digit_char(n % 10))
    }
}

/// The text of one decimal digit.
fn digit_text(d: u64) -> (text: &'static str)
    requires
        d < 10,
    ensures
        text@ == seq![digit_char(d as nat)],
{
    let text = if d == 0 {
        "0"
    } else if d == 1 {
        "1"
    } else if d == 2 {
        "2"
    } else if d == 3 {
        "3"
    } else if d == 4 {
        "4"
    } else if d == 5 {
        "5"
    } else if d == 6 {
        "6"
    } else if d == 7 {
        "7"
    } else if d == 8 {
        "8"
    } else {
        "9"
    };
    proof {
        reveal_strlit("0");
        reveal_strlit("1");
        reveal_strlit("2");
        reveal_strlit("3");
        reveal_strlit("4");
        reveal_strlit("5");
        reveal_strlit("6");
        reveal_strlit("7");
        reveal_strlit("8");
        reveal_strlit("9");
        assert(text@ =~= seq![digit_char(d as nat)]);
    }
    text
}

/// Writes a number in decimal digits.
pub fn decimal_text(n: u64) -> (text: String)
    ensures
        text@ == decimal_digits(n as nat),
    decreases n,
{
    if n < 10 {
        String::from_str(digit_text(n))
    } else {
        let mut text = decimal_text(n / 10);
        text.append(digit_text(n % 10));
        assert(text@ =~= decimal_digits((n / 10) as nat).push(digit_char((n % 10) as nat)));
        text
    }
}

} // verus!
