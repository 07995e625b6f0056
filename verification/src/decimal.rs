//! Decimal notation of integers, which the decoder reads back as hexadecimal
//! when it is handed a number instead of a text.

use crate::hex::{all_hex_digits, digit_text, hex_digits_value, hex_to_u64};
use vstd::prelude::*;
use vstd::string::*;

verus! {

/// The digit character for a value below 10.
pub open spec fn decimal_digit(d: nat) -> char {
    ('0' as int + d) as char
}

/// The decimal notation of `n`: most significant digit first, and no leading
/// zero except for zero itself, which is written `0`.
pub open spec fn decimal_text(n: nat) -> Seq<char>
    decreases n,
{
    if n < 10 {
        seq![decimal_digit(n)]
    } else {
        decimal_text(n / 10).push(decimal_digit(n % 10))
    }
}

/// The decimal notation of a signed integer: a minus sign before the digits of
/// a negative one, and no sign otherwise.
pub open spec fn signed_decimal_text(v: int) -> Seq<char> {
    if v < 0 {
        seq!['-'] + decimal_text((-v) as nat)
    } else {
        decimal_text(v as nat)
    }
}

/// The number that comes out when the decimal digits of `n` are read as
/// hexadecimal digits: 12345 becomes 0x12345.
pub open spec fn decimal_as_hex(n: nat) -> nat
    decreases n,
{
    if n < 10 {
        n
    } else {
        16 * decimal_as_hex(n / 10) + n % 10
    }
}

/// The decimal notation of a number is a non-empty run of hexadecimal digits,
/// and read in base 16 it denotes the number's digits taken as hexadecimal.
pub proof fn lemma_decimal_text_as_hex(n: nat)
    ensures
        decimal_text(n).len() > 0,
        all_hex_digits(decimal_text(n)),
        hex_digits_value(decimal_text(n)) == decimal_as_hex(n),
    decreases n,
{
    let text = decimal_text(n);
    if n < 10 {
        assert(hex_digits_value(text.drop_last()) == 0);
    } else {
        lemma_decimal_text_as_hex(n / 10);
        assert(text.drop_last() =~= decimal_text(n / 10));
    }
}

/// Reading decimal digits in base 16 never gives less than the number itself.
pub proof fn lemma_decimal_as_hex_grows(n: nat)
    ensures
        n <= decimal_as_hex(n),
    decreases n,
{
    if n >= 10 {
        lemma_decimal_as_hex_grows(n / 10);
    }
}

spec fn ten_to(k: nat) -> nat
    decreases k,
{
    if k == 0 {
        1
    } else {
        10 * ten_to((k - 1) as nat)
    }
}

spec fn sixteen_to(k: nat) -> nat
    decreases k,
{
    if k == 0 {
        1
    } else {
        16 * sixteen_to((k - 1) as nat)
    }
}

/// A number has at most `k` decimal digits exactly when its digits, read in
/// base 16, make a number of at most `k` hexadecimal digits.
proof fn lemma_same_digit_count(n: nat, k: nat)
    ensures
        n < ten_to(k) <==> decimal_as_hex(n) < sixteen_to(k),
    decreases k,
{
    if k == 0 {
        lemma_decimal_as_hex_grows(n);
    } else {
        lemma_same_digit_count(n / 10, (k - 1) as nat);
    }
}

/// The digits of a number, read in base 16, fit in 64 bits exactly when the
/// number has at most sixteen decimal digits.
pub proof fn lemma_decimal_as_hex_fits(n: nat)
    ensures
        decimal_as_hex(n) <= u64::MAX <==> n < 10_000_000_000_000_000,
{
    lemma_same_digit_count(n, 16);
    assert(ten_to(16) == 10_000_000_000_000_000) by {
        reveal_with_fuel(ten_to, 17);
    }
    assert(sixteen_to(16) == 0x1_0000_0000_0000_0000) by {
        reveal_with_fuel(sixteen_to, 17);
    }
}

/// What the notation of an unsigned number denotes in base 16: its digits taken
/// as hexadecimal, as long as there are at most sixteen of them.
pub proof fn lemma_decimal_text_denotes(n: nat)
    ensures
        hex_to_u64(decimal_text(n)) == if n < 10_000_000_000_000_000 {
            Some(decimal_as_hex(n) as u64)
        } else {
            None
        },
{
    lemma_decimal_text_as_hex(n);
    lemma_decimal_as_hex_fits(n);
}

/// Appends the decimal notation of `v` to `out`.
fn push_decimal(out: &mut String, v: u64)
    ensures
        final(out)@ == old(out)@ + decimal_text(v as nat),
    decreases v,
{
    if v >= 10 {
        push_decimal(out, v / 10);
    }
    out.append(digit_text(v % 10, false));
}

/// Writes `v` in decimal.
pub fn format_decimal(v: u64) -> (s: String)
    ensures
        s@ == decimal_text(v as nat),
{
    let mut s = String::new();
    push_decimal(&mut s, v);
    s
}

} // verus!
