use base64::Engine;
use pqguard::error::PqError;
use pqguard::keyfile::{decode_key, encode_key, load_public_key, load_secret_key};
use pqguard::keygen::{key_file_text, parse_key_text, KeyKind};

#[test]
fn encode_known_values() {
    assert_eq!(encode_key(b""), "");
    assert_eq!(encode_key(b"f"), "Zg==");
    assert_eq!(encode_key(b"fo"), "Zm8=");
    assert_eq!(encode_key(b"foo"), "Zm9v");
    assert_eq!(encode_key(b"hello"), "aGVsbG8=");
    assert_eq!(encode_key(&[0xfb, 0xff]), "+/8=");
    assert_eq!(encode_key(&[0xff]), "/w==");
}

#[test]
fn key_encode_decode_roundtrip() {
    for len in 1..256usize {
        let data: Vec<u8> = (0..len).map(|i| (i * 97 + len) as u8).collect();
        let encoded = encode_key(&data);
        assert_eq!(encoded.len(), 4 * ((len + 2) / 3));
        assert_eq!(decode_key(&encoded).unwrap(), data);
    }
}

#[test]
fn encoded_keys_are_valid_base64() {
    for len in 1..64usize {
        let data = vec![0xa5u8; len];
        let encoded = encode_key(&data);
        assert!(base64::engine::general_purpose::STANDARD.decode(encoded.trim()).is_ok());
    }
}

#[test]
fn decode_trims_white_space() {
    assert_eq!(decode_key("  aGVsbG8=\n").unwrap(), b"hello".to_vec());
    assert_eq!(decode_key("\t\r\nZm9v\u{3000}").unwrap(), b"foo".to_vec());
}

#[test]
fn decode_rejects_invalid() {
    assert_eq!(decode_key("!!!!").err(), Some(PqError::InvalidBase64));
    assert_eq!(decode_key("Zm 9v").err(), Some(PqError::InvalidBase64));
    assert_eq!(decode_key("Zg").err(), Some(PqError::InvalidBase64));
    assert_eq!(decode_key("Zh==").err(), Some(PqError::InvalidBase64));
    assert_eq!(decode_key("Zg=").err(), Some(PqError::InvalidBase64));
    assert_eq!(decode_key("Zg==Zg==").err(), Some(PqError::InvalidBase64));
    assert_eq!(decode_key("").unwrap(), Vec::<u8>::new());
}

#[test]
fn key_file_text_layout() {
    let text = key_file_text(KeyKind::Public, b"hello", "alice");
    assert_eq!(text, "PQGUARD-PUBLIC-KEY\nML-KEM-768\naGVsbG8=\nalice");
    let text = key_file_text(KeyKind::Private, b"foo", "");
    assert_eq!(text, "PQGUARD-PRIVATE-KEY\nML-KEM-768\nZm9v\n");
}

#[test]
fn parse_key_text_fields() {
    let h = parse_key_text("  PQGUARD-PUBLIC-KEY \nML-KEM-768\r\n aGVsbG8= \n  alice  \nextra").unwrap();
    assert_eq!(h.key_type, "PQGUARD-PUBLIC-KEY");
    assert_eq!(h.algorithm, "ML-KEM-768");
    assert_eq!(h.key_data, b"hello".to_vec());
    assert_eq!(h.name, "alice");
    assert!(!h.is_private());
}

#[test]
fn parse_key_text_default_name() {
    let h = parse_key_text("PQGUARD-PRIVATE-KEY\nML-KEM-768\nZm9v\n").unwrap();
    assert_eq!(h.name, "unknown");
    assert!(h.is_private());
}

#[test]
fn parse_key_text_errors() {
    assert_eq!(parse_key_text("").err(), Some(PqError::InvalidKeyFile));
    assert_eq!(parse_key_text("PQGUARD-PUBLIC-KEY\nML-KEM-768\n").err(), Some(PqError::InvalidKeyFile));
    assert_eq!(parse_key_text("OTHER\nx\nZm9v").err(), Some(PqError::NotAKeyFile));
    assert_eq!(parse_key_text("PQGUARD\nx\nZm9v").err(), Some(PqError::NotAKeyFile));
    assert_eq!(parse_key_text("PQGUARD-X\nx\n!!").err(), Some(PqError::InvalidBase64));
}

#[test]
fn load_written_keys() {
    let key: Vec<u8> = (0..100u8).collect();
    let public = key_file_text(KeyKind::Public, &key, "carol");
    let private = key_file_text(KeyKind::Private, &key, "carol");
    assert_eq!(load_public_key(&public).unwrap(), key);
    assert_eq!(load_secret_key(&private).unwrap(), key);
    let weird = key_file_text(KeyKind::Public, &key, "multi\nline\nname");
    assert_eq!(load_public_key(&weird).unwrap(), key);
}

#[test]
fn load_wrong_kind() {
    let key = vec![1u8, 2, 3];
    let public = key_file_text(KeyKind::Public, &key, "d");
    let private = key_file_text(KeyKind::Private, &key, "d");
    assert_eq!(
        load_public_key(&private).err(),
        Some(PqError::ExpectedPublicKey("PQGUARD-PRIVATE-KEY".to_string()))
    );
    assert_eq!(
        load_secret_key(&public).err(),
        Some(PqError::ExpectedPrivateKey("PQGUARD-PUBLIC-KEY".to_string()))
    );
}
