//! The serialization adapter: one canonical external form on the way out, and a
//! decoder that accepts the three token shapes of the historical encodings.

use crate::decimal::{
    decimal_as_hex, decimal_text, format_decimal, lemma_decimal_text_denotes, signed_decimal_text,
};
use crate::hex::{
    all_hex_digits, format_hex, hex_digits_value, hex_text, hex_to_u64, is_canonical,
    lemma_format_inverts_parse, lemma_hex_text_is_canonical, lemma_parse_inverts_format,
    parse_hex,
};
use crate::id::U64Id;
use vstd::prelude::*;

verus! {

/// An inbound token, by the shape in which the source format presented it.
#[derive(Debug, Clone, PartialEq, Eq)]
pub enum Token {
    /// A text.
    Str(String),
    /// An unsigned integer.
    Unsigned(u64),
    /// A signed integer.
    Signed(i64),
}

/// What a token holds, with the text as a sequence of characters.
pub enum TokenView {
    /// A text.
    Str(Seq<char>),
    /// An unsigned integer.
    Unsigned(u64),
    /// A signed integer.
    Signed(i64),
}

impl View for Token {
    type V = TokenView;

    open spec fn view(&self) -> TokenView {
        match self {
            Token::Str(s) => TokenView::Str(s@),
            Token::Unsigned(v) => TokenView::Unsigned(*v),
            Token::Signed(v) => TokenView::Signed(*v),
        }
    }
}

impl TokenView {
    /// The text that the token is read as: a text token as it stands, a number
    /// by its decimal notation.
    pub open spec fn text(self) -> Seq<char> {
        match self {
            TokenView::Str(s) => s,
            TokenView::Unsigned(v) => decimal_text(v as nat),
            TokenView::Signed(v) => signed_decimal_text(v as int),
        }
    }
}

/// Why a token was not decoded.
#[derive(Debug, Clone, PartialEq, Eq)]
pub enum DecodeError {
    /// The token does not denote a payload. It is handed back as it came.
    InvalidEncoding { token: Token },
}

/// The canonical external form of an identifier: its payload in lowercase
/// hexadecimal, without prefix or padding.
pub open spec fn encoded(id: U64Id) -> Seq<char> {
    hex_text(id.0 as nat, false)
}

/// The payload that a token denotes, if any.
///
/// A text token is read as hexadecimal. A number token is accepted only from a
/// human-readable format; there its decimal digits are read as hexadecimal
/// digits, so that the number 12345 denotes the payload 0x12345.
pub open spec fn decoded_payload(token: TokenView, human_readable: bool) -> Option<u64> {
    if human_readable || token is Str {
        hex_to_u64(token.text())
    } else {
        None
    }
}

/// What decoding a token yields: the identifier it denotes, or the error that
/// carries the token.
pub open spec fn decoded(token: Token, human_readable: bool) -> Result<U64Id, DecodeError> {
    match decoded_payload(token@, human_readable) {
        Some(payload) => Ok(U64Id(payload)),
        None => Err(DecodeError::InvalidEncoding { token }),
    }
}

/// Encodes an identifier. Every target format receives this same text.
pub fn encode(id: U64Id) -> (s: String)
    ensures
        s@ == encoded(id),
{
    format_hex(id.0, false)
}

/// Decodes a token. `human_readable` says whether the format it came from
/// tells texts and numbers apart; only such a format may hand in a number.
pub fn decode(token: Token, human_readable: bool) -> (r: Result<U64Id, DecodeError>)
    ensures
        r == decoded(token, human_readable),
{
    let payload: Option<u64> = match &token {
        Token::Str(s) => parse_hex(s.as_str()),
        Token::Unsigned(v) => {
            if human_readable {
                parse_hex(format_decimal(*v).as_str())
            } else {
                None
            }
        },
        Token::Signed(v) => {
            if human_readable && *v >= 0 {
                parse_hex(format_decimal(*v as u64).as_str())
            } else {
                proof {
                    lemma_signed_token(*v, human_readable);
                }
                None
            }
        },
    };
    match payload {
        Some(p) => Ok(U64Id(p)),
        None => Err(DecodeError::InvalidEncoding { token }),
    }
}

/// Decoding inverts encoding: the encoded form of any identifier, handed back
/// as a text token, decodes to that identifier, from either kind of format.
pub proof fn lemma_decode_inverts_encode(id: U64Id, human_readable: bool)
    ensures
        decoded_payload(TokenView::Str(encoded(id)), human_readable) == Some(id.0),
{
    lemma_parse_inverts_format(id.0, false);
}

/// Different identifiers have different encoded forms.
pub proof fn lemma_encode_is_injective(a: U64Id, b: U64Id)
    requires
        encoded(a) == encoded(b),
    ensures
        a == b,
{
    lemma_parse_inverts_format(a.0, false);
    lemma_parse_inverts_format(b.0, false);
}

/// The encoded form of every identifier is canonical.
pub proof fn lemma_encoded_is_canonical(id: U64Id)
    ensures
        is_canonical(encoded(id)),
{
    lemma_hex_text_is_canonical(id.0 as nat);
}

/// A canonical text is a fixed point: it decodes exactly when the number it
/// denotes fits in 64 bits, and encoding what it decodes to gives the same
/// text again.
pub proof fn lemma_encode_inverts_decode(text: Seq<char>, human_readable: bool)
    requires
        is_canonical(text),
    ensures
        decoded_payload(TokenView::Str(text), human_readable) is Some <==> hex_digits_value(text)
            <= u64::MAX,
        decoded_payload(TokenView::Str(text), human_readable) matches Some(payload) ==> encoded(
            U64Id(payload),
        ) == text,
{
    lemma_format_inverts_parse(text);
    assert(all_hex_digits(text));
}

/// The dual reading of numbers: an unsigned number from a human-readable
/// format decodes to what its decimal digits spell in base 16, which exists
/// exactly when there are at most sixteen digits. From any other format a
/// number is refused.
pub proof fn lemma_unsigned_token(v: u64, human_readable: bool)
    ensures
        decoded_payload(TokenView::Unsigned(v), human_readable) == if human_readable && v
            < 10_000_000_000_000_000 {
            Some(decimal_as_hex(v as nat) as u64)
        } else {
            None
        },
{
    lemma_decimal_text_denotes(v as nat);
}

/// A signed number that is not negative decodes as the unsigned number of the
/// same value does; a negative one is always refused.
pub proof fn lemma_signed_token(v: i64, human_readable: bool)
    ensures
        v >= 0 ==> decoded_payload(TokenView::Signed(v), human_readable) == decoded_payload(
            TokenView::Unsigned(v as u64),
            human_readable,
        ),
        v < 0 ==> decoded_payload(TokenView::Signed(v), human_readable) is None,
{
    if v < 0 {
        assert(signed_decimal_text(v as int)[0] == '-');
    }
}

/// A number and the text that holds its decimal notation denote the same
/// payload, or both denote nothing.
pub proof fn lemma_number_reads_as_its_text(number: TokenView)
    ensures
        decoded_payload(number, true) == decoded_payload(TokenView::Str(number.text()), true),
{
}

} // verus!
