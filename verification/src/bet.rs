//! Reading a bet from what the player typed: surrounding whitespace is
//! dropped, and what is left must be a decimal number that fits in 32 bits.

use vstd::prelude::*;
use vstd::string::StringSliceAdditionalSpecFns;
use crate::cards::is_digit;

verus! {

/// The text without its leading and trailing whitespace, as the standard
/// library's `str::trim` leaves it.
pub uninterp spec fn trimmed(text: Seq<char>) -> Seq<char>;

/// Calls the standard library's `str::trim`, which returns the part of the
/// text between its leading and its trailing whitespace, whitespace being
/// what Unicode calls `White_Space`. Nothing is proved of it; the result is
/// known here by the name `trimmed` only.
#[verifier::external_body]
fn trim_text(text: &str) -> (inner: &str)
    ensures
        inner@ == trimmed(text@),
{
    text.trim()
}

/// Whether every byte is a decimal digit.
pub open spec fn all_digits(bytes: Seq<u8>) -> bool {
    forall|i: int| 0 <= i < bytes.len() ==> is_digit(#[trigger] bytes[i])
}

/// The number that a row of decimal digits stands for.
pub open spec fn digits_value(digits: Seq<u8>) -> int
    decreases digits.len(),
{
    if digits.len() == 0 {
        0
    } else {
        10 * digits_value(digits.drop_last()) + (digits.last() - 0x30)
    }
}

/// The number that the bytes stand for: an optional `+` or `-`, then at
/// least one decimal digit and nothing else.
pub open spec fn signed_number(bytes: Seq<u8>) -> Option<int> {
    if bytes.len() == 0 {
        None
    } else if bytes[0] == 0x2bu8 || bytes[0] == 0x2du8 {
        let digits = bytes.subrange(1, bytes.len() as int);
        if digits.len() == 0 || !all_digits(digits) {
            None
        } else if bytes[0] == 0x2du8 {
            Some(-digits_value(digits))
        } else {
            Some(digits_value(digits))
        }
    } else if all_digits(bytes) {
        Some(digits_value(bytes))
    } else {
        None
    }
}

/// The 32-bit number that the bytes stand for, if they stand for one.
pub open spec fn parsed_i32(bytes: Seq<u8>) -> Option<i32> {
    match signed_number(bytes) {
        Some(value) => if i32::MIN <= value <= i32::MAX {
            Some(value as i32)
        } else {
            None
        },
        None => None,
    }
}

/// The bet that a typed text stands for.
pub open spec fn bet_of(text: Seq<char>) -> Option<i32> {
    parsed_i32(vstd::utf8::encode_utf8(trimmed(text)))
}

/// A row of digits stands for at least as much as any row it starts with.
pub proof fn lemma_digits_grow(digits: Seq<u8>, cut: int)
    requires
        all_digits(digits),
        0 <= cut <= digits.len(),
    ensures
        0 <= digits_value(digits.subrange(0, cut)) <= digits_value(digits),
    decreases digits.len() - cut,
{
    if cut == digits.len() {
        assert(digits.subrange(0, cut) =~= digits);
        lemma_digits_not_negative(digits);
    } else {
        let longer = digits.subrange(0, cut + 1);
        assert(longer.drop_last() =~= digits.subrange(0, cut));
        assert(is_digit(longer.last()));
        lemma_digits_grow(digits, cut + 1);
        lemma_digits_not_negative(digits.subrange(0, cut));
    }
}

/// A row of digits stands for a number that is not negative.
pub proof fn lemma_digits_not_negative(digits: Seq<u8>)
    requires
        all_digits(digits),
    ensures
        digits_value(digits) >= 0,
    decreases digits.len(),
{
    if digits.len() > 0 {
        assert(is_digit(digits.last()));
        lemma_digits_not_negative(digits.drop_last());
    }
}

/// Reads a decimal number of 32 bits.
pub fn parse_i32(bytes: &[u8]) -> (number: Option<i32>)
    ensures
        number == parsed_i32(bytes@),
{
    let length: usize = bytes.len();
    if length == 0 {
        return None;
    }
    let negative: bool = bytes[0] == 0x2d;
    let start: usize = if negative || bytes[0] == 0x2b {
        1
    } else {
        0
    };
    if start == length {
        assert(bytes@.subrange(1, length as int).len() == 0);
        return None;
    }
    let ghost digits = bytes@.subrange(start as int, length as int);
    assert(start == 0 ==> digits =~= bytes@);
    let mut total: i64 = 0;
    let mut index: usize = start;
    while index < length
        invariant
            start <= index <= length,
            length == bytes@.len(),
            start == 0 || start == 1,
            start == 1 <==> (bytes@[0] == 0x2bu8 || bytes@[0] == 0x2du8),
            negative == (bytes@[0] == 0x2du8),
            start == 0 ==> digits == bytes@,
            digits == bytes@.subrange(start as int, length as int),
            all_digits(digits.subrange(0, index - start)),
            total == digits_value(digits.subrange(0, index - start)),
            0 <= total <= 0x8000_0000,
        decreases length - index,
    {
        let byte: u8 = bytes[index];
        if byte < 0x30 || byte > 0x39 {
            assert(!is_digit(digits[index - start]));
            return None;
        }
        let ghost shorter = digits.subrange(0, index - start);
        let ghost longer = digits.subrange(0, index - start + 1);
        assert(longer.drop_last() =~= shorter);
        assert(longer.last() == byte);
        total = total * 10 + (byte - 0x30) as i64;
        if total > 0x8000_0000 {
            proof {
                if all_digits(digits) {
                    lemma_digits_grow(digits, index - start + 1);
                }
            }
            return None;
        }
        index = index + 1;
    }
    assert(digits.subrange(0, length - start) =~= digits);
    if negative {
        Some((-total) as i32)
    } else if total > 0x7fff_ffff {
        None
    } else {
        Some(total as i32)
    }
}

/// Reads the bet that the player typed. Which texts are a bet rests on what
/// `str::trim` leaves of them.
pub fn read_bet(text: &str) -> (bet: Option<i32>)
    ensures
        bet == bet_of(text@),
{
    parse_i32(trim_text(text).as_bytes())
}

} // verus!
