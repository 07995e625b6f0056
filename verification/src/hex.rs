//! Hexadecimal notation for 64-bit payloads: what a text denotes, how a number
//! is written, and the executable parser and printer proved against both.

use vstd::prelude::*;
use vstd::string::*;
use vstd::utf8::is_ascii_chars;

verus! {

/// The value of one hexadecimal digit, in either letter case; `None` for any
/// other character.
pub open spec fn hex_digit_value(c: char) -> Option<nat> {
    if '0' <= c <= '9' {
        Some((c as int - '0' as int) as nat)
    } else if 'a' <= c <= 'f' {
        Some((c as int - 'a' as int + 10) as nat)
    } else if 'A' <= c <= 'F' {
        Some((c as int - 'A' as int + 10) as nat)
    } else {
        None
    }
}

/// Whether `c` is a hexadecimal digit.
pub open spec fn is_hex_digit(c: char) -> bool {
    hex_digit_value(c) is Some
}

/// Whether every character of `s` is a hexadecimal digit.
pub open spec fn all_hex_digits(s: Seq<char>) -> bool {
    forall|i: int| 0 <= i < s.len() ==> is_hex_digit(#[trigger] s[i])
}

/// The number that a run of hexadecimal digits denotes, most significant digit
/// first. The empty run denotes zero.
pub open spec fn hex_digits_value(s: Seq<char>) -> nat
    decreases s.len(),
{
    if s.len() == 0 {
        0
    } else {
        16 * hex_digits_value(s.drop_last()) + hex_digit_value(s.last()).unwrap()
    }
}

/// The payload that a text denotes in base 16.
///
/// A text is accepted when it is made of hexadecimal digits and nothing else:
/// at least one digit, in either letter case and with any number of leading
/// zeros, and a value that fits in 64 bits. Everything else denotes nothing;
/// in particular no sign, prefix, separator or blank is taken.
pub open spec fn hex_to_u64(s: Seq<char>) -> Option<u64> {
    if s.len() > 0 && all_hex_digits(s) && hex_digits_value(s) <= u64::MAX {
        Some(hex_digits_value(s) as u64)
    } else {
        None
    }
}

/// The digit character for a value below 16, with the letters in the chosen case.
pub open spec fn hex_digit(d: nat, upper: bool) -> char {
    if d < 10 {
        ('0' as int + d) as char
    } else if upper {
        ('A' as int + d - 10) as char
    } else {
        ('a' as int + d - 10) as char
    }
}

/// The hexadecimal notation of `n`: most significant digit first, no prefix,
/// and no leading zero except for zero itself, which is written `0`.
pub open spec fn hex_text(n: nat, upper: bool) -> Seq<char>
    decreases n,
{
    if n < 16 {
        seq![hex_digit(n, upper)]
    } else {
        hex_text(n / 16, upper).push(hex_digit(n % 16, upper))
    }
}

/// Each digit character denotes the value it was chosen for, in both cases.
pub proof fn lemma_digit_denotes(d: nat, upper: bool)
    requires
        d < 16,
    ensures
        hex_digit_value(hex_digit(d, upper)) == Some(d),
{
}

/// The notation of a number is a non-empty run of hexadecimal digits that
/// denotes that number.
pub proof fn lemma_hex_text_denotes(n: nat, upper: bool)
    ensures
        hex_text(n, upper).len() > 0,
        all_hex_digits(hex_text(n, upper)),
        hex_digits_value(hex_text(n, upper)) == n,
    decreases n,
{
    let text = hex_text(n, upper);
    if n < 16 {
        lemma_digit_denotes(n, upper);
        assert(hex_digits_value(text.drop_last()) == 0);
    } else {
        lemma_hex_text_denotes(n / 16, upper);
        lemma_digit_denotes(n % 16, upper);
        assert(text.drop_last() =~= hex_text(n / 16, upper));
    }
}

/// Reading back what was written gives the payload again, whichever letter
/// case it was written in.
pub proof fn lemma_parse_inverts_format(v: u64, upper: bool)
    ensures
        hex_to_u64(hex_text(v as nat, upper)) == Some(v),
{
    lemma_hex_text_denotes(v as nat, upper);
}

/// The uppercase form of an ASCII letter; any other character is left as it is.
pub open spec fn ascii_uppercase(c: char) -> char {
    if 'a' <= c <= 'z' {
        (c as int - 32) as char
    } else {
        c
    }
}

/// The two notations of a number differ in letter case only: they have the same
/// length, each character of the uppercase one is the uppercase form of the
/// character below it, and both denote the number.
pub proof fn lemma_letter_case_only(n: nat)
    ensures
        hex_text(n, true).len() == hex_text(n, false).len(),
        forall|i: int|
            0 <= i < hex_text(n, false).len() ==> #[trigger] hex_text(n, true)[i]
                == ascii_uppercase(hex_text(n, false)[i]),
        hex_digits_value(hex_text(n, true)) == n,
        hex_digits_value(hex_text(n, false)) == n,
    decreases n,
{
    lemma_hex_text_denotes(n, true);
    lemma_hex_text_denotes(n, false);
    if n >= 16 {
        lemma_letter_case_only(n / 16);
    }
}

/// Whether `c` is a digit of the canonical notation: a decimal digit or one of
/// the lowercase letters `a` to `f`.
pub open spec fn is_canonical_digit(c: char) -> bool {
    '0' <= c <= '9' || 'a' <= c <= 'f'
}

/// Whether `s` is written the canonical way: at least one digit, lowercase
/// letters only, no sign, and no leading zero unless the text is `0` itself.
pub open spec fn is_canonical(s: Seq<char>) -> bool {
    &&& s.len() > 0
    &&& forall|i: int| 0 <= i < s.len() ==> is_canonical_digit(#[trigger] s[i])
    &&& s.len() > 1 ==> s[0] != '0'
}

/// The lowercase notation of every number is canonical.
pub proof fn lemma_hex_text_is_canonical(n: nat)
    ensures
        is_canonical(hex_text(n, false)),
        n > 0 ==> hex_text(n, false)[0] != '0',
    decreases n,
{
    if n >= 16 {
        lemma_hex_text_is_canonical(n / 16);
    }
}

/// Writing the number that a canonical text denotes gives that text again.
pub proof fn lemma_format_inverts_parse(s: Seq<char>)
    requires
        is_canonical(s),
    ensures
        hex_text(hex_digits_value(s), false) == s,
    decreases s.len(),
{
    let head = s.drop_last();
    if s.len() == 1 {
        assert(hex_digits_value(head) == 0);
    } else {
        assert(is_canonical(head));
        lemma_format_inverts_parse(head);
        assert(hex_digits_value(head) >= 1) by {
            lemma_prefix_value_le(head, 1);
        }
        assert(hex_digits_value(s) / 16 == hex_digits_value(head));
        assert(hex_text(hex_digits_value(s), false) =~= s);
    }
}

/// The one-character text of the digit `d`.
pub(crate) fn digit_text(d: u64, upper: bool) -> (s: &'static str)
    requires
        d < 16,
    ensures
        s@ == seq![hex_digit(d as nat, upper)],
{
    let alphabet: &'static str = if upper {
        "0123456789ABCDEF"
    } else {
        "0123456789abcdef"
    };
    proof {
        reveal_strlit("0123456789ABCDEF");
        reveal_strlit("0123456789abcdef");
    }
    let i: usize = d as usize;
    alphabet.substring_ascii(i, i + 1)
}

/// Appends the hexadecimal notation of `v` to `out`.
fn push_hex(out: &mut String, v: u64, upper: bool)
    ensures
        final(out)@ == old(out)@ + hex_text(v as nat, upper),
    decreases v,
{
    if v >= 16 {
        push_hex(out, v / 16, upper);
    }
    out.append(digit_text(v % 16, upper));
}

/// Writes `v` in hexadecimal, with lowercase letters unless `upper` is set.
pub fn format_hex(v: u64, upper: bool) -> (s: String)
    ensures
        s@ == hex_text(v as nat, upper),
{
    let mut s = String::new();
    push_hex(&mut s, v, upper);
    s
}

/// A text that denotes a payload holds ASCII characters only.
proof fn lemma_accepted_text_is_ascii(s: Seq<char>)
    requires
        hex_to_u64(s) is Some,
    ensures
        is_ascii_chars(s),
{
    assert forall|i: int| 0 <= i < s.len() implies '\0' <= #[trigger] s[i] <= '\u{7f}' by {
        assert(is_hex_digit(s[i]));
    }
}

/// A run of digits denotes at least what any of its prefixes denotes.
proof fn lemma_prefix_value_le(s: Seq<char>, k: int)
    requires
        0 <= k <= s.len(),
    ensures
        hex_digits_value(s.subrange(0, k)) <= hex_digits_value(s),
    decreases s.len(),
{
    if k == s.len() {
        assert(s.subrange(0, k) =~= s);
    } else {
        lemma_prefix_value_le(s.drop_last(), k);
        assert(s.drop_last().subrange(0, k) =~= s.subrange(0, k));
    }
}

const ASCII_0: u8 = 0x30;

const ASCII_9: u8 = 0x39;

const ASCII_UPPER_A: u8 = 0x41;

const ASCII_UPPER_F: u8 = 0x46;

const ASCII_LOWER_A: u8 = 0x61;

const ASCII_LOWER_F: u8 = 0x66;

/// The value of the hexadecimal digit that the byte `b` spells, if it spells one.
fn digit_of_byte(b: u8) -> (r: Option<u64>)
    ensures
        r is Some <==> is_hex_digit(b as char),
        r matches Some(d) ==> hex_digit_value(b as char) == Some(d as nat) && d < 16,
{
    if ASCII_0 <= b && b <= ASCII_9 {
        Some((b - ASCII_0) as u64)
    } else if ASCII_LOWER_A <= b && b <= ASCII_LOWER_F {
        Some((b - ASCII_LOWER_A) as u64 + 10)
    } else if ASCII_UPPER_A <= b && b <= ASCII_UPPER_F {
        Some((b - ASCII_UPPER_A) as u64 + 10)
    } else {
        None
    }
}

/// Reads a payload written in base 16.
///
/// Accepts one or more hexadecimal digits of either letter case, as long as
/// the value fits in 64 bits, and nothing else.
pub fn parse_hex(s: &str) -> (r: Option<u64>)
    ensures
        r == hex_to_u64(s@),
{
    if !s.is_ascii() {
        proof {
            if hex_to_u64(s@) is Some {
                lemma_accepted_text_is_ascii(s@);
            }
        }
        return None;
    }
    let bytes = s.as_bytes();
    proof {
        is_ascii_spec_bytes(s);
    }
    let n: usize = bytes.len();
    if n == 0 {
        return None;
    }
    let mut acc: u64 = 0;
    let mut i: usize = 0;
    while i < n
        invariant
            i <= n,
            0 < n == s@.len(),
            bytes@.len() == n,
            is_ascii_chars(s@),
            forall|k: int| 0 <= k < n ==> bytes@[k] == #[trigger] s@[k] as u8,
            all_hex_digits(s@.subrange(0, i as int)),
            acc == hex_digits_value(s@.subrange(0, i as int)),
        decreases n - i,
    {
        let ghost seen = s@.subrange(0, i as int);
        let ghost next = s@.subrange(0, i + 1);
        proof {
            assert(next.drop_last() =~= seen);
            assert(bytes@[i as int] as char == s@[i as int]);
        }
        let d: u64 = match digit_of_byte(bytes[i]) {
            Some(d) => d,
            None => {
                return None;
            },
        };
        if acc > (u64::MAX - d) / 16 {
            proof {
                assert(hex_digits_value(next) > u64::MAX);
                lemma_prefix_value_le(s@, i + 1);
            }
            return None;
        }
        acc = acc * 16 + d;
        i += 1;
        proof {
            assert forall|k: int| 0 <= k < next.len() implies is_hex_digit(#[trigger] next[k]) by {
                if k < seen.len() {
                    assert(next[k] == seen[k]);
                }
            }
        }
    }
    assert(s@.subrange(0, n as int) =~= s@);
    Some(acc)
}

} // verus!
