//! The pause between two frames, as given on the command line.

use vstd::prelude::*;

verus! {

/// The pause between two frames, in milliseconds, where none is given.
pub const DEFAULT_FRAME_DELAY: u64 = 50;

/// Whether `b` is an ASCII decimal digit.
pub open spec fn is_digit(b: u8) -> bool {
    0x30 <= b <= 0x39
}

/// The value of the digit `b`.
pub open spec fn digit_value(b: u8) -> nat {
    if is_digit(b) {
        (b - 0x30) as nat
    } else {
        0
    }
}

/// The number that `digits` spell in base ten, the first digit counting most.
pub open spec fn decimal_value(digits: Seq<u8>) -> nat
    decreases digits.len(),
{
    if digits.len() == 0 {
        0
    } else {
        decimal_value(digits.drop_last()) * 10 + digit_value(digits.last())
    }
}

/// Whether `digits` holds decimal digits only.
pub open spec fn all_digits(digits: Seq<u8>) -> bool {
    forall|i: int| 0 <= i < digits.len() ==> is_digit(#[trigger] digits[i])
}

/// `text` without the plus sign that may stand in front of a number.
pub open spec fn unsigned_part(text: Seq<u8>) -> Seq<u8> {
    if text.len() > 0 && text[0] == 0x2b {
        text.skip(1)
    } else {
        text
    }
}

/// The number of milliseconds that `text` spells: an optional plus sign and
/// then one or more decimal digits and nothing else, whose value fits in 64
/// bits. Any other text spells no number.
pub open spec fn parse_millis_spec(text: Seq<u8>) -> Option<u64> {
    let digits = unsigned_part(text);
    if digits.len() > 0 && all_digits(digits) && decimal_value(digits) <= u64::MAX {
        Some(decimal_value(digits) as u64)
    } else {
        None
    }
}

/// The pause for an optional argument: the number that it spells, or the
/// default where there is no argument or it spells no number.
pub open spec fn frame_delay_spec(arg: Option<Seq<u8>>) -> u64 {
    match arg {
        Some(text) => match parse_millis_spec(text) {
            Some(ms) => ms,
            None => DEFAULT_FRAME_DELAY,
        },
        None => DEFAULT_FRAME_DELAY,
    }
}

/// A number is at least as large as the number that its first `k` digits spell.
pub proof fn lemma_prefix_value(digits: Seq<u8>, k: int)
    requires
        0 <= k <= digits.len(),
    ensures
        decimal_value(digits.take(k)) <= decimal_value(digits),
    decreases digits.len(),
{
    if k == digits.len() {
        assert(digits.take(k) =~= digits);
    } else {
        lemma_prefix_value(digits.drop_last(), k);
        assert(digits.drop_last().take(k) =~= digits.take(k));
    }
}

/// Reads `text` as a number of milliseconds.
pub fn parse_millis(text: &[u8]) -> (ms: Option<u64>)
    ensures
        ms == parse_millis_spec(text@),
{
    let len = text.len();
    let start: usize = if len > 0 && text[0] == 0x2b { 1 } else { 0 };
    let ghost digits = unsigned_part(text@);
    assert(digits =~= text@.skip(start as int));
    if start == len {
        return None;
    }
    let mut acc: u64 = 0;
    let mut i: usize = start;
    assert(digits.take(0) =~= Seq::<u8>::empty());
    while i < len
        invariant
            start <= i <= len,
            len == text@.len(),
            digits == unsigned_part(text@),
            digits == text@.skip(start as int),
            digits.len() == len - start,
            all_digits(digits.take(i - start)),
            acc == decimal_value(digits.take(i - start)),
        decreases len - i,
    {
        let b = text[i];
        let ghost upto = digits.take(i - start + 1);
        proof {
            assert(upto.drop_last() =~= digits.take(i - start));
            assert(upto.last() == b);
            assert(digits[i - start] == b);
            assert(decimal_value(upto) == decimal_value(upto.drop_last()) * 10 + digit_value(b));
            lemma_prefix_value(digits, i - start + 1);
        }
        if b < 0x30 || b > 0x39 {
            return None;
        }
        let digit: u64 = (b - 0x30) as u64;
        if acc > 1844674407370955161 {
            return None;
        }
        let shifted: u64 = acc * 10;
        if shifted > u64::MAX - digit {
            return None;
        }
        acc = shifted + digit;
        assert forall|k: int| 0 <= k < upto.len() implies is_digit(#[trigger] upto[k]) by {
            if k < upto.len() - 1 {
                assert(upto[k] == digits.take(i - start)[k]);
            }
        }
        i = i + 1;
    }
    assert(digits.take(len - start) =~= digits);
    Some(acc)
}

/// The pause between two frames for the argument of the program, if it has
/// one: the number of milliseconds that the argument spells, or the default
/// where it spells none.
pub fn frame_delay(arg: Option<&[u8]>) -> (ms: u64)
    ensures
        ms == frame_delay_spec(
            match arg {
                Some(text) => Some(text@),
                None => None,
            },
        ),
{
    match arg {
        Some(text) => match parse_millis(text) {
            Some(ms) => ms,
            None => DEFAULT_FRAME_DELAY,
        },
        None => DEFAULT_FRAME_DELAY,
    }
}

} // verus!
