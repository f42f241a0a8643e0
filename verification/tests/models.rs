use cfd_daemon::model::Script;
use cfd_daemon::models::{InvalidSecretKey, OrderId, SecretKey};

#[test]
fn order_id_text_round_trip() {
    let text = "a1a2a3a4-b1b2-c1c2-d1d2-d3d4d5d6d7d8";
    let id = OrderId::parse(text).unwrap();
    assert_eq!(id, OrderId(0xa1a2a3a4b1b2c1c2d1d2d3d4d5d6d7d8));
    assert_eq!(id.to_string(), text);
    assert_eq!(OrderId::parse(&id.to_string()), Some(id));
}

#[test]
fn order_id_text_is_36_characters_hyphenated() {
    let text = OrderId(1).to_string();
    assert_eq!(text, "00000000-0000-0000-0000-000000000001");
    assert_eq!(text.len(), 36);
    let hyphens: Vec<usize> = text
        .char_indices()
        .filter(|(_, c)| *c == '-')
        .map(|(i, _)| i)
        .collect();
    assert_eq!(hyphens, vec![8, 13, 18, 23]);
}

#[test]
fn order_id_text_is_lower_case() {
    let id = OrderId::parse("ABCDEF01-2345-6789-ABCD-EF0123456789").unwrap();
    assert_eq!(id.to_string(), "abcdef01-2345-6789-abcd-ef0123456789");
}

#[test]
fn order_id_reads_the_other_forms_of_a_uuid() {
    let id = OrderId(0x936da01f9abd4d9d80c702af85c822a8);
    assert_eq!(OrderId::parse("936da01f9abd4d9d80c702af85c822a8"), Some(id));
    assert_eq!(
        OrderId::parse("urn:uuid:936da01f-9abd-4d9d-80c7-02af85c822a8"),
        Some(id)
    );
    assert_eq!(
        OrderId::parse("{936da01f-9abd-4d9d-80c7-02af85c822a8}"),
        Some(id)
    );
}

#[test]
fn order_id_refuses_what_is_no_uuid() {
    assert_eq!(OrderId::parse(""), None);
    assert_eq!(OrderId::parse("not-a-uuid"), None);
    assert_eq!(OrderId::parse("936da01f-9abd-4d9d-80c7-02af85c822a"), None);
    assert_eq!(OrderId::parse("936da01f-9abd-4d9d-80c7-02af85c822ag"), None);
    assert_eq!(OrderId::parse("936da01f_9abd_4d9d_80c7_02af85c822a8"), None);
}

#[test]
fn default_order_id_is_a_random_uuid() {
    let a = OrderId::default();
    let b = OrderId::default();
    assert_ne!(a, b);
    for id in [a, b] {
        // version 4, variant 10
        assert_eq!((id.0 >> 76) & 0xf, 4);
        assert_eq!((id.0 >> 62) & 0x3, 2);
        let text = id.to_string();
        assert_eq!(text.as_bytes()[14], b'4');
        assert_eq!(OrderId::parse(&text), Some(id));
    }
}

#[test]
fn secret_key_text_round_trip() {
    let text = "57f0148f94d13095cfda539d0da0d1541304b678d8b36e243980aab4e1b7cead";
    let key = SecretKey::from_str(text).unwrap();
    assert_eq!(key.to_string(), text);
    assert_eq!(key.secret_bytes()[0], 0x57);
    assert_eq!(key.secret_bytes()[31], 0xad);
    assert_eq!(SecretKey::from_str(&key.to_string()), Ok(key));
}

#[test]
fn secret_key_text_is_lower_case() {
    let key =
        SecretKey::from_str("00000000000000000000000000000000000000000000000000000000000000AB")
            .unwrap();
    assert_eq!(
        key.to_string(),
        "00000000000000000000000000000000000000000000000000000000000000ab"
    );
}

#[test]
fn secret_key_refuses_what_is_no_key() {
    // zero is not a key of the curve
    assert_eq!(
        SecretKey::from_str("0000000000000000000000000000000000000000000000000000000000000000"),
        Err(InvalidSecretKey)
    );
    // nor is the order of the group
    assert_eq!(
        SecretKey::from_str("fffffffffffffffffffffffffffffffebaaedce6af48a03bbfd25e8cd0364141"),
        Err(InvalidSecretKey)
    );
    assert_eq!(SecretKey::from_str(""), Err(InvalidSecretKey));
    assert_eq!(SecretKey::from_str("01"), Err(InvalidSecretKey));
    assert_eq!(
        SecretKey::from_str("zz00000000000000000000000000000000000000000000000000000000000001"),
        Err(InvalidSecretKey)
    );
}

#[test]
fn hex_text_of_bytes() {
    assert_eq!(to_hex_text(&vec![]), "");
    assert_eq!(to_hex_text(&vec![0x00, 0x0f, 0xa0, 0xff]), "000fa0ff");
    assert_eq!(
        to_hex_text(&vec![0x01, 0x23, 0x45, 0x67, 0x89, 0xab, 0xcd, 0xef]),
        "0123456789abcdef"
    );
}

#[test]
fn bytes_of_hex_text() {
    assert_eq!(from_hex_text(""), Some(vec![]));
    assert_eq!(
        from_hex_text("0123456789abcdef"),
        Some(vec![0x01, 0x23, 0x45, 0x67, 0x89, 0xab, 0xcd, 0xef])
    );
    assert_eq!(
        from_hex_text("0123456789ABCDEF"),
        Some(vec![0x01, 0x23, 0x45, 0x67, 0x89, 0xab, 0xcd, 0xef])
    );
    assert_eq!(from_hex_text("0"), None);
    assert_eq!(from_hex_text("0g"), None);
    assert_eq!(from_hex_text("0123456789abcdef0"), None);
    assert_eq!(from_hex_text("«2"), None);
}

#[test]
fn hex_text_round_trip() {
    let bytes: Vec<u8> = (0..=255).collect();
    assert_eq!(from_hex_text(&to_hex_text(&bytes)), Some(bytes));
}

fn to_hex_text(bytes: &Vec<u8>) -> String {
    Script {
        bytes: bytes.clone(),
    }
    .to_hex()
}

fn from_hex_text(text: &str) -> Option<Vec<u8>> {
    Script::from_hex(text).map(|script| script.bytes)
}
