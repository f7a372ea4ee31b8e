//! The printable code: a value in decimal, left-padded with zeros to a fixed
//! number of digits.

use crate::hotp::{dynamic_truncation, hmac_sha1, hotp_code, hotp_value};
use pad::{Alignment, PadStr};
use vstd::arithmetic::power::{lemma_pow_positive, pow};
use vstd::prelude::*;

verus! {

/// Number of digits of a code.
pub const CODE_DIGITS: u32 = 6;

/// The character for the decimal digit `d`.
pub open spec fn digit_char(d: nat) -> char
    recommends
        d < 10,
{
    ('0' as nat + d) as char
}

/// Whether `c` is one of `'0'` to `'9'`.
pub open spec fn is_digit(c: char) -> bool {
    '0' <= c <= '9'
}

/// The decimal digits of `n`, most significant first, without leading zeros.
pub open spec fn decimal_digits(n: nat) -> Seq<char>
    decreases n,
{
    if n < 10 {
        seq![digit_char(n)]
    } else {
        decimal_digits(n / 10).push(digit_char(n % 10))
    }
}

/// `text` with as many copies of `fill` in front as it takes to reach `width`
/// characters; `text` itself where it is already that long or longer.
pub open spec fn left_padded(text: Seq<char>, width: nat, fill: char) -> Seq<char> {
    if text.len() >= width {
        text
    } else {
        Seq::new((width - text.len()) as nat, |i: int| fill) + text
    }
}

/// `value` in decimal, zero-padded on the left to at least `digits` characters.
pub open spec fn formatted_code(value: nat, digits: nat) -> Seq<char> {
    left_padded(decimal_digits(value), digits, '0')
}

/// Whether `c` is a printable ASCII character, space to tilde.
pub open spec fn is_printable_ascii(c: char) -> bool {
    ' ' <= c <= '~'
}

/// The decimal form of any number is non-empty and made of digits only.
pub proof fn lemma_decimal_digits_are_digits(n: nat)
    ensures
        decimal_digits(n).len() >= 1,
        forall|i: int| 0 <= i < decimal_digits(n).len() ==> is_digit(#[trigger] decimal_digits(n)[i]),
    decreases n,
{
    if n >= 10 {
        lemma_decimal_digits_are_digits(n / 10);
    }
}

/// A number below `10^k` has at most `k` decimal digits, for `k >= 1`.
pub proof fn lemma_decimal_digits_len(n: nat, k: nat)
    requires
        k >= 1,
        n < pow(10, k),
    ensures
        decimal_digits(n).len() <= k,
    decreases n,
{
    if n >= 10 {
        assert(pow(10, k) == 10 * pow(10, (k - 1) as nat)) by {
            reveal(pow);
        }
        assert(pow(10, 1) == 10) by {
            reveal_with_fuel(pow, 2);
        }
        assert(k >= 2);
        lemma_decimal_digits_len(n / 10, (k - 1) as nat);
    }
}

/// A value reduced to `digits` decimal digits and then formatted to `digits`
/// characters is exactly `digits` characters long, each of them a digit.
pub proof fn lemma_formatted_code_is_digits(truncated: nat, digits: nat)
    requires
        digits >= 1,
    ensures
        formatted_code(hotp_value(truncated as int, digits) as nat, digits).len() == digits,
        forall|i: int|
            0 <= i < digits ==> is_digit(
                #[trigger] formatted_code(hotp_value(truncated as int, digits) as nat, digits)[i],
            ),
{
    lemma_pow_positive(10, digits);
    let value = hotp_value(truncated as int, digits) as nat;
    lemma_decimal_digits_len(value, digits);
    lemma_decimal_digits_are_digits(value);
}

/// The one-character string for the decimal digit `d`.
fn digit_str(d: u32) -> (text: &'static str)
    requires
        d < 10,
    ensures
        text@ == seq![digit_char(d as nat)],
{
    proof {
        reveal_strlit("0");
        reveal_strlit("1");
        reveal_strlit("2");
        reveal_strlit("3");
        reveal_strlit("4");
        reveal_strlit("5");
        reveal_strlit("6");
        reveal_strlit("7");
        reveal_strlit("8");
        reveal_strlit("9");
    }
    let text = match d {
        0 => "0",
        1 => "1",
        2 => "2",
        3 => "3",
        4 => "4",
        5 => "5",
        6 => "6",
        7 => "7",
        8 => "8",
        _ => "9",
    };
    assert(text@ =~= seq![digit_char(d as nat)]);
    text
}

/// `value` in decimal.
pub fn decimal(value: u32) -> (text: String)
    ensures
        text@ == decimal_digits(value as nat),
    decreases value,
{
    if value < 10 {
        digit_str(value).to_owned()
    } else {
        let mut text = decimal(value / 10);
        text.append(digit_str(value % 10));
        text
    }
}

/// Pads on the left with `PadStr::pad` of the `pad` crate, right-aligned and
/// without truncation. On printable ASCII the crate counts one column for each
/// character, so the contract states the result in characters: the text
/// unchanged where it fills the width, else `fill` repeated in front of it.
#[verifier::external_body]
fn pad_left(text: &str, width: usize, fill: char) -> (padded: String)
    requires
        forall|i: int| 0 <= i < text@.len() ==> is_printable_ascii(#[trigger] text@[i]),
    ensures
        padded@ == left_padded(text@, width as nat, fill),
{
    text.pad(width, fill, Alignment::Right, false)
}

/// `value` in decimal, zero-padded on the left to `digits` characters. A value
/// with more than `digits` decimal digits is rendered in full.
pub fn format_code(value: u32, digits: u32) -> (code: String)
    ensures
        code@ == formatted_code(value as nat, digits as nat),
{
    let text = decimal(value);
    proof {
        lemma_decimal_digits_are_digits(value as nat);
    }
    pad_left(text.as_str(), digits as usize, '0')
}

/// The six-digit code of `counter` under `secret`.
pub fn get_code(secret: Vec<u8>, counter: [u8; 8]) -> (code: String)
    ensures
        code@ == formatted_code(
            hotp_value(dynamic_truncation(hmac_sha1(secret@, counter@)), 6) as nat,
            6,
        ),
        code@.len() == 6,
        forall|i: int| 0 <= i < 6 ==> is_digit(#[trigger] code@[i]),
{
    let value = hotp_code(secret, counter, CODE_DIGITS);
    proof {
        lemma_formatted_code_is_digits(
            dynamic_truncation(hmac_sha1(secret@, counter@)) as nat,
            6,
        );
    }
    format_code(value, CODE_DIGITS)
}

} // verus!
