use cfd_daemon::chain::{Address, Descriptor, Signature};

const GENERATOR: &str = "0279be667ef9dcbbac55a06295ce870b07029bfcdb2dce28d959f2815b16f81798";
const DOUBLE: &str = "02c6047f9441ed7d6d3045406e95c07cd85c778e4b8cef3ca7abac09b95c709ee5";

#[test]
fn address_is_kept_as_it_is_printed() {
    let address = Address::parse("bc1qw508d6qejxtdg4y5r3zarvary0c5xw7kv8f3t4").unwrap();
    assert_eq!(
        address.to_string(),
        "bc1qw508d6qejxtdg4y5r3zarvary0c5xw7kv8f3t4"
    );
}

#[test]
fn address_in_upper_case_is_kept_in_lower_case() {
    let address = Address::parse("BC1QW508D6QEJXTDG4Y5R3ZARVARY0C5XW7KV8F3T4").unwrap();
    assert_eq!(
        address.to_string(),
        "bc1qw508d6qejxtdg4y5r3zarvary0c5xw7kv8f3t4"
    );
    assert_eq!(
        Some(address),
        Address::parse("bc1qw508d6qejxtdg4y5r3zarvary0c5xw7kv8f3t4")
    );
}

#[test]
fn legacy_address_parses() {
    let address = Address::parse("1A1zP1eP5QGefi2DMPTfTL5SLmv7DivfNa").unwrap();
    assert_eq!(address.to_string(), "1A1zP1eP5QGefi2DMPTfTL5SLmv7DivfNa");
}

#[test]
fn address_refuses_what_is_none() {
    assert_eq!(Address::parse(""), None);
    assert_eq!(Address::parse("not an address"), None);
    // a wrong checksum
    assert_eq!(
        Address::parse("bc1qw508d6qejxtdg4y5r3zarvary0c5xw7kv8f3t5"),
        None
    );
    // mixed case
    assert_eq!(
        Address::parse("bc1qw508d6qejxtdg4y5r3zarvary0c5xw7kv8f3T4"),
        None
    );
}

#[test]
fn descriptor_is_kept_with_its_checksum() {
    let plain = format!("wpkh({GENERATOR})");
    let descriptor = Descriptor::parse(&plain).unwrap();
    let text = descriptor.to_string();
    assert!(text.starts_with(&plain));
    assert_eq!(text.len(), plain.len() + 9);
    assert_eq!(text.as_bytes()[plain.len()], b'#');
    // the kept text reads back as itself
    assert_eq!(Descriptor::parse(&text), Some(descriptor));
}

#[test]
fn descriptor_of_two_keys_parses() {
    let plain = format!("wsh(multi(2,{GENERATOR},{DOUBLE}))");
    let descriptor = Descriptor::parse(&plain).unwrap();
    assert!(descriptor.to_string().starts_with(&plain));
}

#[test]
fn descriptor_refuses_what_is_none() {
    assert_eq!(Descriptor::parse(""), None);
    assert_eq!(Descriptor::parse("wpkh(00)"), None);
    assert_eq!(Descriptor::parse(&format!("wpkh({GENERATOR}")), None);
    // a wrong checksum
    assert_eq!(
        Descriptor::parse(&format!("wpkh({GENERATOR})#00000000")),
        None
    );
}

#[test]
fn signature_is_kept_in_lower_case() {
    let signature = Signature::parse("300602010A02010B").unwrap();
    assert_eq!(signature.to_string(), "300602010a02010b");
    assert_eq!(Signature::parse("300602010a02010b"), Some(signature));
}

#[test]
fn signature_refuses_what_is_none() {
    assert_eq!(Signature::parse(""), None);
    assert_eq!(Signature::parse("30"), None);
    assert_eq!(Signature::parse("zz"), None);
    assert_eq!(Signature::parse("3006020101"), None);
}
