//! Addresses, descriptors and signatures. The library keeps each as the text
//! that its parser prints back: a text that parses to itself.

use vstd::prelude::*;

verus! {

/// What printing the result of `Address::from_str` gives for a text, or
/// nothing where the text is no address.
pub uninterp spec fn address_text(text: Seq<char>) -> Option<Seq<char>>;

/// What printing the result of `Descriptor::from_str` gives for a text, or
/// nothing where the text is no descriptor.
pub uninterp spec fn descriptor_text(text: Seq<char>) -> Option<Seq<char>>;

/// What printing the result of `Signature::from_str` gives for a text, or
/// nothing where the text is no signature.
pub uninterp spec fn signature_text(text: Seq<char>) -> Option<Seq<char>>;

/// Calls `Address::from_str` of the bitcoin crate that `bdk` hands on, takes
/// the address for whatever network it names (`Address::assume_checked`) and
/// prints it with `to_string`.
#[verifier::external_body]
fn print_address(text: &str) -> (printed: Option<String>)
    ensures
        printed.is_some() == address_text(text@).is_some(),
        printed matches Some(p) ==> address_text(text@) == Some(p@),
{
    match <bdk::bitcoin::Address<bdk::bitcoin::address::NetworkUnchecked> as std::str::FromStr>::from_str(text) {
        Ok(address) => Some(address.assume_checked().to_string()),
        Err(_) => None,
    }
}

/// Calls `Descriptor::from_str` of `bdk::descriptor`, over plain public keys,
/// and prints the descriptor it gives with `to_string`.
#[verifier::external_body]
fn print_descriptor(text: &str) -> (printed: Option<String>)
    ensures
        printed.is_some() == descriptor_text(text@).is_some(),
        printed matches Some(p) ==> descriptor_text(text@) == Some(p@),
{
    match <bdk::descriptor::Descriptor<bdk::bitcoin::PublicKey> as std::str::FromStr>::from_str(text) {
        Ok(descriptor) => Some(descriptor.to_string()),
        Err(_) => None,
    }
}

/// Calls `Signature::from_str` of the secp256k1 crate that `bdk` hands on, and
/// prints the signature it gives with `to_string`.
#[verifier::external_body]
fn print_signature(text: &str) -> (printed: Option<String>)
    ensures
        printed.is_some() == signature_text(text@).is_some(),
        printed matches Some(p) ==> signature_text(text@) == Some(p@),
{
    match <bdk::bitcoin::secp256k1::ecdsa::Signature as std::str::FromStr>::from_str(text) {
        Ok(signature) => Some(signature.to_string()),
        Err(_) => None,
    }
}

/// The text that an address is kept as: what the parser prints for `text`,
/// provided that it reads that back unchanged.
pub open spec fn canonical_address(text: Seq<char>) -> Option<Seq<char>> {
    match address_text(text) {
        Some(printed) => if address_text(printed) == Some(printed) {
            Some(printed)
        } else {
            None
        },
        None => None,
    }
}

/// The text that a descriptor is kept as.
pub open spec fn canonical_descriptor(text: Seq<char>) -> Option<Seq<char>> {
    match descriptor_text(text) {
        Some(printed) => if descriptor_text(printed) == Some(printed) {
            Some(printed)
        } else {
            None
        },
        None => None,
    }
}

/// The text that a signature is kept as.
pub open spec fn canonical_signature(text: Seq<char>) -> Option<Seq<char>> {
    match signature_text(text) {
        Some(printed) => if signature_text(printed) == Some(printed) {
            Some(printed)
        } else {
            None
        },
        None => None,
    }
}

/// A bitcoin address.
#[derive(Clone, Debug, PartialEq, Eq)]
pub struct Address {
    text: String,
}

/// An output descriptor.
#[derive(Clone, Debug, PartialEq, Eq)]
pub struct Descriptor {
    text: String,
}

/// An ECDSA signature.
#[derive(Clone, Debug, PartialEq, Eq)]
pub struct Signature {
    text: String,
}

impl View for Address {
    type V = Seq<char>;

    closed spec fn view(&self) -> Seq<char> {
        self.text@
    }
}

impl View for Descriptor {
    type V = Seq<char>;

    closed spec fn view(&self) -> Seq<char> {
        self.text@
    }
}

impl View for Signature {
    type V = Seq<char>;

    closed spec fn view(&self) -> Seq<char> {
        self.text@
    }
}

/// Whether a text is an address in the form it is kept in.
pub open spec fn is_address(text: Seq<char>) -> bool {
    address_text(text) == Some(text)
}

/// Whether a text is a descriptor in the form it is kept in.
pub open spec fn is_descriptor(text: Seq<char>) -> bool {
    descriptor_text(text) == Some(text)
}

/// Whether a text is a signature in the form it is kept in.
pub open spec fn is_signature(text: Seq<char>) -> bool {
    signature_text(text) == Some(text)
}

impl Address {
    /// Reads an address. Some exactly where the text is one and its printed
    /// form reads back as itself; the address is then that printed form.
    pub fn parse(text: &str) -> (address: Option<Address>)
        ensures
            address.is_some() == canonical_address(text@).is_some(),
            address matches Some(a) ==> canonical_address(text@) == Some(a@) && is_address(a@),
    {
        match print_address(text) {
            Some(printed) => {
                match print_address(printed.as_str()) {
                    Some(again) => {
                        if again == printed {
                            Some(Address { text: printed })
                        } else {
                            None
                        }
                    },
                    None => None,
                }
            },
            None => None,
        }
    }

    /// The address as text.
    pub fn to_string(&self) -> (text: String)
        ensures
            text@ == self@,
    {
        self.text.clone()
    }
}

impl Descriptor {
    /// Reads a descriptor. Some exactly where the text is one and its printed
    /// form reads back as itself; the descriptor is then that printed form.
    pub fn parse(text: &str) -> (descriptor: Option<Descriptor>)
        ensures
            descriptor.is_some() == canonical_descriptor(text@).is_some(),
            descriptor matches Some(d) ==> canonical_descriptor(text@) == Some(d@) && is_descriptor(
                d@,
            ),
    {
        match print_descriptor(text) {
            Some(printed) => {
                match print_descriptor(printed.as_str()) {
                    Some(again) => {
                        if again == printed {
                            Some(Descriptor { text: printed })
                        } else {
                            None
                        }
                    },
                    None => None,
                }
            },
            None => None,
        }
    }

    /// The descriptor as text.
    pub fn to_string(&self) -> (text: String)
        ensures
            text@ == self@,
    {
        self.text.clone()
    }
}

impl Signature {
    /// Reads a signature. Some exactly where the text is one and its printed
    /// form reads back as itself; the signature is then that printed form.
    pub fn parse(text: &str) -> (signature: Option<Signature>)
        ensures
            signature.is_some() == canonical_signature(text@).is_some(),
            signature matches Some(s) ==> canonical_signature(text@) == Some(s@) && is_signature(
                s@,
            ),
    {
        match print_signature(text) {
            Some(printed) => {
                match print_signature(printed.as_str()) {
                    Some(again) => {
                        if again == printed {
                            Some(Signature { text: printed })
                        } else {
                            None
                        }
                    },
                    None => None,
                }
            },
            None => None,
        }
    }

    /// The signature as text.
    pub fn to_string(&self) -> (text: String)
        ensures
            text@ == self@,
    {
        self.text.clone()
    }
}

} // verus!
