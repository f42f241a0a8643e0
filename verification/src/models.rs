//! Identifiers and keys in the form in which the store keeps them.

use crate::hex::{hex_digit, hex_encode, to_hex};
use vstd::prelude::*;

verus! {

/// What `Uuid::parse_str` of the uuid crate makes of a text: the 128-bit
/// value of the identifier it spells, or nothing where it spells none.
pub uninterp spec fn uuid_parse(text: Seq<char>) -> Option<u128>;

/// What `SecretKey::from_str` of secp256k1 makes of a text: the 32 bytes of
/// the key that it spells, or nothing where it spells none.
pub uninterp spec fn secret_key_parse(text: Seq<char>) -> Option<Seq<u8>>;

/// The hexadecimal digit of `value` at place `k`, counted from the most
/// significant of its thirty-two.
pub open spec fn uuid_nibble(value: u128, k: int) -> int {
    ((value >> ((4 * (31 - k)) as u128)) & 0xf) as int
}

/// How many hyphens stand before place `i` of the hyphenated form.
pub open spec fn hyphens_before(i: int) -> int {
    if i > 23 {
        4
    } else if i > 18 {
        3
    } else if i > 13 {
        2
    } else if i > 8 {
        1
    } else {
        0
    }
}

/// The canonical text of an identifier: thirty-two lower-case hexadecimal
/// digits in groups of 8, 4, 4, 4 and 12, with a hyphen between the groups.
pub open spec fn hyphenated_text(value: u128) -> Seq<char> {
    Seq::new(
        36,
        |i: int|
            if i == 8 || i == 13 || i == 18 || i == 23 {
                '-'
            } else {
                hex_digit(uuid_nibble(value, i - hyphens_before(i)))
            },
    )
}

/// Whether a value carries the marks of a random identifier: version 4 and
/// the RFC 4122 variant.
pub open spec fn is_random_uuid(value: u128) -> bool {
    value & 0x0000_0000_0000_f000_c000_0000_0000_0000 == 0x0000_0000_0000_4000_8000_0000_0000_0000
}

/// Calls `Uuid::parse_str` of the uuid crate that `sqlx` hands on, and hands
/// out the identifier as a number (`Uuid::as_u128`, its sixteen bytes read
/// big-endian).
#[verifier::external_body]
fn uuid_from_text(text: &str) -> (value: Option<u128>)
    ensures
        value == uuid_parse(text@),
{
    match sqlx::types::Uuid::parse_str(text) {
        Ok(uuid) => Some(uuid.as_u128()),
        Err(_) => None,
    }
}

/// Calls `Uuid::from_u128` and formats the result with `Uuid::hyphenated`:
/// the identifier's bytes as lower-case hexadecimal in the 8-4-4-4-12
/// grouping, which is one of the forms that `Uuid::parse_str` is documented to
/// read back.
#[verifier::external_body]
fn uuid_to_text(value: u128) -> (text: String)
    ensures
        text@ == hyphenated_text(value),
        uuid_parse(text@) == Some(value),
{
    sqlx::types::Uuid::from_u128(value).hyphenated().to_string()
}

/// Calls `Uuid::new_v4`: a random identifier, of which only the version and
/// variant bits are fixed.
#[verifier::external_body]
fn uuid_random() -> (value: u128)
    ensures
        is_random_uuid(value),
{
    sqlx::types::Uuid::new_v4().as_u128()
}

/// Calls `SecretKey::from_str` of the secp256k1 crate that `bdk` hands on and
/// takes the key's bytes with `secret_bytes`.
#[verifier::external_body]
fn secret_key_from_text(text: &str) -> (bytes: Option<[u8; 32]>)
    ensures
        bytes.is_some() == secret_key_parse(text@).is_some(),
        bytes matches Some(b) ==> secret_key_parse(text@) == Some(b@),
{
    match <bdk::bitcoin::secp256k1::SecretKey as std::str::FromStr>::from_str(text) {
        Ok(key) => Some(key.secret_bytes()),
        Err(_) => None,
    }
}

/// The identifier of an order and of the CFD taken against it.
#[derive(Clone, Copy, Debug, PartialEq, Eq, Hash, Structural)]
pub struct OrderId(pub u128);

impl OrderId {
    /// Reads an identifier from any of the textual forms of a UUID.
    pub fn parse(text: &str) -> (id: Option<OrderId>)
        ensures
            id == match uuid_parse(text@) {
                Some(value) => Some(OrderId(value)),
                None => None,
            },
    {
        match uuid_from_text(text) {
            Some(value) => Some(OrderId(value)),
            None => None,
        }
    }

    /// The canonical text: 36 characters, hyphenated. `parse` reads it back.
    pub fn to_string(&self) -> (text: String)
        ensures
            text@ == hyphenated_text(self.0),
            text@.len() == 36,
            uuid_parse(text@) == Some(self.0),
    {
        uuid_to_text(self.0)
    }
}

impl Default for OrderId {
    /// A fresh random identifier.
    fn default() -> (id: OrderId)
        ensures
            is_random_uuid(id.0),
    {
        OrderId(uuid_random())
    }
}

/// A text that spells no secret key.
#[derive(Clone, Copy, Debug, PartialEq, Eq, Structural)]
pub struct InvalidSecretKey;

/// A secret key of the curve, kept as its 32 bytes.
#[derive(Clone, Copy, Debug, PartialEq, Eq)]
pub struct SecretKey {
    bytes: [u8; 32],
}

impl View for SecretKey {
    type V = Seq<u8>;

    closed spec fn view(&self) -> Seq<u8> {
        self.bytes@
    }
}

impl SecretKey {
    /// Reads a key from its hexadecimal text; the curve decides which texts
    /// spell a key.
    pub fn from_str(text: &str) -> (key: Result<SecretKey, InvalidSecretKey>)
        ensures
            key.is_ok() == secret_key_parse(text@).is_some(),
            key matches Ok(k) ==> secret_key_parse(text@) == Some(k@),
    {
        match secret_key_from_text(text) {
            Some(bytes) => Ok(SecretKey { bytes }),
            None => Err(InvalidSecretKey),
        }
    }

    /// The key with the given bytes, which have to be those of a key.
    pub(crate) fn from_secret_bytes(bytes: [u8; 32]) -> (key: SecretKey)
        ensures
            key@ == bytes@,
    {
        SecretKey { bytes }
    }

    /// The key as 64 lower-case hexadecimal digits.
    pub fn to_string(&self) -> (text: String)
        ensures
            text@ == hex_encode(self@),
    {
        let mut bytes: Vec<u8> = Vec::new();
        let mut i: usize = 0;
        while i < 32
            invariant
                i <= 32,
                bytes@ == self.bytes@.subrange(0, i as int),
            decreases 32 - i,
        {
            bytes.push(self.bytes[i]);
            i += 1;
        }
        to_hex(&bytes)
    }

    /// The 32 bytes of the key.
    pub fn secret_bytes(&self) -> (bytes: [u8; 32])
        ensures
            bytes@ == self@,
    {
        self.bytes
    }
}

} // verus!
