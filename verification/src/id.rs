//! The identifier value type.

use crate::hex::{format_hex, hex_text};
use crate::rng::random_in_range;
use core::cmp::Ordering;
use vstd::prelude::*;
use vstd::std_specs::cmp::PartialOrdSpecImpl;

verus! {

/// The payload of the null identifier.
pub const NULL_PAYLOAD: u64 = u64::MAX;

/// How many payloads at the top of the 64-bit space the generator leaves alone,
/// the null payload not counted.
pub const RESERVED_PAYLOADS: u64 = 128;

/// An identifier: a plain 64-bit payload.
///
/// Every `u64` is a structurally valid identifier; nothing is checked when one
/// is made from an integer. The payload `u64::MAX` is the null identifier. The
/// generator draws below `u64::MAX - 128` only, so it never produces the null
/// identifier nor one of the payloads just below it.
///
/// Two identifiers are equal, and ordered, as their payloads are.
#[derive(Debug, Clone, Copy, PartialEq, Eq, Ord, Hash, Structural)]
pub struct U64Id(pub u64);

impl U64Id {
    /// The payloads that the generator draws from. Nothing keeps an identifier
    /// made by other means inside this range.
    pub const VALID_RANGE: core::ops::Range<u64> = 0..(NULL_PAYLOAD - RESERVED_PAYLOADS);

    /// Whether this is the null identifier.
    pub open spec fn is_null_spec(self) -> bool {
        self.0 == NULL_PAYLOAD
    }

    /// Whether the generator could have produced this identifier.
    pub open spec fn in_valid_range(self) -> bool {
        U64Id::VALID_RANGE.start <= self.0 < U64Id::VALID_RANGE.end
    }

    /// The null identifier, which the generator never produces.
    pub fn null() -> (id: U64Id)
        ensures
            id == U64Id(NULL_PAYLOAD),
    {
        U64Id(NULL_PAYLOAD)
    }

    /// Wraps `raw` as it is, without any check.
    pub fn from_raw(raw: u64) -> (id: U64Id)
        ensures
            id == U64Id(raw),
    {
        U64Id(raw)
    }

    /// The payload.
    pub fn raw_value(self) -> (raw: u64)
        ensures
            raw == self.0,
    {
        self.0
    }

    /// Whether this is the null identifier.
    #[verifier::when_used_as_spec(is_null_spec)]
    pub fn is_null(self) -> (b: bool)
        ensures
            b == self.is_null_spec(),
    {
        self.0 == NULL_PAYLOAD
    }

    /// Draws a fresh identifier at random from the valid range.
    ///
    /// Which identifier comes is up to the random source; whichever it is, it
    /// is not null and not in the reserved band.
    pub fn new() -> (id: U64Id)
        ensures
            id.in_valid_range(),
            !id.is_null(),
    {
        let range = U64Id::VALID_RANGE;
        U64Id::from_raw(random_in_range(range.start, range.end))
    }

    /// The display form: the payload in lowercase hexadecimal, without prefix
    /// or padding.
    pub fn to_string(&self) -> (s: String)
        ensures
            s@ == hex_text(self.0 as nat, false),
    {
        format_hex(self.0, false)
    }

    /// The payload in hexadecimal with lowercase letters.
    pub fn to_lower_hex(&self) -> (s: String)
        ensures
            s@ == hex_text(self.0 as nat, false),
    {
        format_hex(self.0, false)
    }

    /// The payload in hexadecimal with uppercase letters.
    pub fn to_upper_hex(&self) -> (s: String)
        ensures
            s@ == hex_text(self.0 as nat, true),
    {
        format_hex(self.0, true)
    }
}

impl Default for U64Id {
    /// A fresh random identifier, as `new` draws it.
    fn default() -> (id: U64Id)
        ensures
            id.in_valid_range(),
            !id.is_null(),
    {
        U64Id::new()
    }
}

impl PartialOrd for U64Id {
    /// Compares the payloads.
    fn partial_cmp(&self, other: &U64Id) -> (r: Option<Ordering>) {
        if self.0 < other.0 {
            Some(Ordering::Less)
        } else if self.0 > other.0 {
            Some(Ordering::Greater)
        } else {
            Some(Ordering::Equal)
        }
    }
}

impl PartialOrdSpecImpl for U64Id {
    open spec fn obeys_partial_cmp_spec() -> bool {
        true
    }

    /// Identifiers are ordered as their payloads are.
    open spec fn partial_cmp_spec(&self, other: &U64Id) -> Option<Ordering> {
        if self.0 < other.0 {
            Some(Ordering::Less)
        } else if self.0 > other.0 {
            Some(Ordering::Greater)
        } else {
            Some(Ordering::Equal)
        }
    }
}

/// No payload but the reserved one makes a null identifier.
pub proof fn lemma_only_the_sentinel_is_null(raw: u64)
    ensures
        U64Id(raw).is_null() <==> raw == u64::MAX,
        U64Id(NULL_PAYLOAD).is_null(),
{
}

/// The valid range ends 128 payloads below the null one, so an identifier in
/// it is neither null nor in the reserved band at the top.
pub proof fn lemma_valid_range_is_below_the_reserved_band(id: U64Id)
    ensures
        id.in_valid_range() <==> id.0 < u64::MAX - 128,
        id.in_valid_range() ==> !id.is_null(),
{
}

} // verus!
