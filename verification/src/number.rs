//! Decimal numbers as they are written in text and in torrent files.

use vstd::prelude::*;

verus! {

/// Whether a byte is one of the ASCII digits.
pub open spec fn is_digit(byte: u8) -> bool {
    0x30 <= byte <= 0x39
}

/// Whether a sequence consists of ASCII digits only.
pub open spec fn all_digits(text: Seq<u8>) -> bool {
    forall|i: int| 0 <= i < text.len() ==> is_digit(#[trigger] text[i])
}

/// The number that a sequence of digits denotes in base ten.
pub open spec fn digits_value(text: Seq<u8>) -> nat
    decreases text.len(),
{
    if text.len() == 0 {
        0
    } else {
        digits_value(text.drop_last()) * 10 + (text.last() - 0x30) as nat
    }
}

/// What is left of a number's text once one leading plus sign is taken off.
pub open spec fn without_plus(text: Seq<u8>) -> Seq<u8> {
    if text.len() > 0 && text[0] == 0x2b {
        text.drop_first()
    } else {
        text
    }
}

/// The unsigned number that a text denotes: at least one digit, nothing but
/// digits behind an optional plus sign, and no more than `max`.
pub open spec fn decimal_value(text: Seq<u8>, max: nat) -> Option<nat> {
    let digits = without_plus(text);
    if digits.len() > 0 && all_digits(digits) && digits_value(digits) <= max {
        Some(digits_value(digits))
    } else {
        None
    }
}

/// The shortest decimal writing of a number.
pub open spec fn digits_of(value: nat) -> Seq<u8>
    decreases value,
{
    if value < 10 {
        seq![(0x30 + value) as u8]
    } else {
        digits_of(value / 10).push((0x30 + value % 10) as u8)
    }
}

/// The digits of a number, as characters.
pub open spec fn decimal_text(value: nat) -> Seq<char> {
    Seq::new(digits_of(value).len(), |i: int| digits_of(value)[i] as char)
}

/// Writing a number and reading the digits back gives the number.
pub proof fn law_digits_read_back(value: nat, max: nat)
    requires
        value <= max,
    ensures
        decimal_value(digits_of(value), max) == Some(value),
        all_digits(digits_of(value)),
        digits_of(value).len() > 0,
{
    lemma_digits_of(value);
}

/// The digits of a number are digits and denote that number.
pub proof fn lemma_digits_of(value: nat)
    ensures
        all_digits(digits_of(value)),
        digits_of(value).len() > 0,
        digits_value(digits_of(value)) == value,
    decreases value,
{
    let text = digits_of(value);
    if value < 10 {
        assert(text.drop_last() =~= Seq::<u8>::empty());
        assert(digits_value(text.drop_last()) == 0);
    } else {
        lemma_digits_of(value / 10);
        assert(text.drop_last() =~= digits_of(value / 10));
    }
}

/// A longer run of digits denotes a number that is not smaller.
proof fn lemma_prefix_not_larger(text: Seq<u8>, end: int)
    requires
        0 <= end <= text.len(),
        all_digits(text),
    ensures
        digits_value(text.take(end)) <= digits_value(text),
    decreases text.len(),
{
    if end == text.len() {
        assert(text.take(end) =~= text);
    } else {
        lemma_prefix_not_larger(text.drop_last(), end);
        assert(text.drop_last().take(end) =~= text.take(end));
    }
}

/// Reads the unsigned number that a text denotes.
pub fn parse_decimal(text: &[u8], max: u64) -> (r: Option<u64>)
    ensures
        match r {
            Some(value) => decimal_value(text@, max as nat) == Some(value as nat),
            None => decimal_value(text@, max as nat) is None,
        },
{
    let start: usize = if text.len() > 0 && text[0] == 0x2b { 1 } else { 0 };
    let ghost digits = without_plus(text@);
    assert(digits =~= text@.skip(start as int));
    if start == text.len() {
        return None;
    }
    let mut value: u64 = 0;
    let mut i: usize = start;
    assert(digits.take(0) =~= Seq::<u8>::empty());
    while i < text.len()
        invariant
            start <= i <= text@.len(),
            start < text@.len(),
            digits == without_plus(text@),
            digits == text@.skip(start as int),
            all_digits(digits.take(i - start)),
            value == digits_value(digits.take(i - start)),
            value <= max,
        decreases text@.len() - i,
    {
        let byte = text[i];
        let ghost prefix = digits.take(i - start);
        let ghost longer = digits.take(i + 1 - start);
        assert(digits[i - start] == byte);
        assert(longer.drop_last() =~= prefix);
        assert(longer.last() == byte);
        if byte < 0x30 || byte > 0x39 {
            assert(!is_digit(digits[i - start]));
            return None;
        }
        assert forall|j: int| 0 <= j < longer.len() implies is_digit(#[trigger] longer[j]) by {
            if j < prefix.len() {
                assert(longer[j] == prefix[j]);
            }
        }
        let digit: u64 = (byte - 0x30) as u64;
        if value > max / 10 || digit > max - value * 10 {
            proof {
                assert(digits_value(longer) > max);
                if all_digits(digits) {
                    lemma_prefix_not_larger(digits, i + 1 - start);
                }
            }
            return None;
        }
        value = value * 10 + digit;
        i += 1;
    }
    assert(digits.take(text@.len() - start) =~= digits);
    Some(value)
}

/// Writes a number in decimal.
pub fn decimal(value: u64) -> (r: String)
    ensures
        r@ == decimal_text(value as nat),
    decreases value,
{
    let digit = (0x30 + (value % 10) as u8) as char;
    let mut text = if value < 10 { String::new() } else { decimal(value / 10) };
    text.push(digit);
    proof {
        assert(digits_of(value as nat).last() as char == digit);
        if value >= 10 {
            assert(digits_of(value as nat).drop_last() =~= digits_of((value / 10) as nat));
        }
    }
    text
}

} // verus!
