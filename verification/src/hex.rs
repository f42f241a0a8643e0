//! Hexadecimal text, as the store keeps scripts and keys.

use vstd::prelude::*;

verus! {

/// The lower-case hexadecimal digit of a value below sixteen.
pub open spec fn hex_digit(n: int) -> char {
    if n < 10 {
        ((48 + n) as u8) as char
    } else {
        ((87 + n) as u8) as char
    }
}

/// The value of a hexadecimal digit of either case, `None` for any other character.
pub open spec fn hex_value(c: char) -> Option<int> {
    let n = c as int;
    if 48 <= n <= 57 {
        Some(n - 48)
    } else if 97 <= n <= 102 {
        Some(n - 87)
    } else if 65 <= n <= 70 {
        Some(n - 55)
    } else {
        None
    }
}

/// Two lower-case digits for each byte, the high half first.
pub open spec fn hex_encode(bytes: Seq<u8>) -> Seq<char> {
    Seq::new(
        2 * bytes.len(),
        |i: int|
            if i % 2 == 0 {
                hex_digit(bytes[i / 2] as int / 16)
            } else {
                hex_digit(bytes[i / 2] as int % 16)
            },
    )
}

/// Whether a text is an even number of hexadecimal digits.
pub open spec fn is_hex(s: Seq<char>) -> bool {
    &&& s.len() % 2 == 0
    &&& forall|i: int| 0 <= i < s.len() ==> (#[trigger] hex_value(s[i])).is_some()
}

/// The bytes that a hexadecimal text stands for, `None` where it is not one.
pub open spec fn hex_decode(s: Seq<char>) -> Option<Seq<u8>> {
    if is_hex(s) {
        Some(
            Seq::new(
                s.len() / 2,
                |i: int| (16 * hex_value(s[2 * i]).unwrap() + hex_value(s[2 * i + 1]).unwrap()) as u8,
            ),
        )
    } else {
        None
    }
}

/// Decoding what was encoded gives the bytes back.
pub proof fn lemma_hex_round_trip(bytes: Seq<u8>)
    ensures
        hex_decode(hex_encode(bytes)) == Some(bytes),
{}

/// Makes a script of the bytes (`ScriptBuf::from_bytes` of the bitcoin crate
/// that `bdk` hands on) and calls `Script::to_hex_string` on it: the bytes as
/// lower-case hexadecimal text, two digits a byte.
#[verifier::external_body]
pub(crate) fn to_hex(bytes: &Vec<u8>) -> (text: String)
    ensures
        text@ == hex_encode(bytes@),
{
    bdk::bitcoin::ScriptBuf::from_bytes(bytes.clone()).to_hex_string()
}

/// Calls `ScriptBuf::from_hex` of the bitcoin crate that `bdk` hands on and
/// takes the script's bytes (`ScriptBuf::into_bytes`): the bytes of a text
/// made of an even number of hexadecimal digits of either case, and nothing
/// for any other text.
#[verifier::external_body]
pub(crate) fn from_hex(text: &str) -> (bytes: Option<Vec<u8>>)
    ensures
        bytes.is_some() == hex_decode(text@).is_some(),
        bytes matches Some(b) ==> hex_decode(text@) == Some(b@),
{
    match bdk::bitcoin::ScriptBuf::from_hex(text) {
        Ok(script) => Some(script.into_bytes()),
        Err(_) => None,
    }
}

} // verus!
