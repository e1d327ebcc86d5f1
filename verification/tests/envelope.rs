use pqguard::crypto::SealedEnvelope;
use pqguard::error::PqError;

fn sample() -> SealedEnvelope {
    SealedEnvelope {
        kem_ciphertext: vec![0xaa, 0xbb, 0xcc],
        symmetric_nonce: [7u8; 12],
        salt: [9u8; 32],
        encrypted_data: vec![1, 2, 3, 4, 5],
    }
}

fn header(kem_len: u32) -> Vec<u8> {
    let mut v = b"PQGR".to_vec();
    v.push(1);
    v.extend_from_slice(&kem_len.to_le_bytes());
    v
}

#[test]
fn to_bytes_layout() {
    let bytes = sample().to_bytes();
    let mut expected = b"PQGR".to_vec();
    expected.push(1);
    expected.extend_from_slice(&[3, 0, 0, 0]);
    expected.extend_from_slice(&[0xaa, 0xbb, 0xcc]);
    expected.extend_from_slice(&[7u8; 12]);
    expected.extend_from_slice(&[9u8; 32]);
    expected.extend_from_slice(&[5, 0, 0, 0, 0, 0, 0, 0]);
    expected.extend_from_slice(&[1, 2, 3, 4, 5]);
    assert_eq!(bytes, expected);
    assert_eq!(bytes.len(), 4 + 1 + 4 + 3 + 12 + 32 + 8 + 5);
}

#[test]
fn envelope_roundtrip() {
    let env = sample();
    let parsed = SealedEnvelope::from_bytes(&env.to_bytes()).unwrap();
    assert_eq!(parsed.kem_ciphertext, env.kem_ciphertext);
    assert_eq!(parsed.symmetric_nonce, env.symmetric_nonce);
    assert_eq!(parsed.salt, env.salt);
    assert_eq!(parsed.encrypted_data, env.encrypted_data);
}

#[test]
fn envelope_roundtrip_empty_parts() {
    let env = SealedEnvelope {
        kem_ciphertext: vec![],
        symmetric_nonce: [0u8; 12],
        salt: [0u8; 32],
        encrypted_data: vec![],
    };
    let bytes = env.to_bytes();
    assert_eq!(bytes.len(), 61);
    let parsed = SealedEnvelope::from_bytes(&bytes).unwrap();
    assert!(parsed.kem_ciphertext.is_empty());
    assert!(parsed.encrypted_data.is_empty());
}

#[test]
fn trailing_bytes_are_ignored() {
    let env = sample();
    let mut bytes = env.to_bytes();
    bytes.extend_from_slice(&[0xff, 0xee]);
    let parsed = SealedEnvelope::from_bytes(&bytes).unwrap();
    assert_eq!(parsed.encrypted_data, env.encrypted_data);
}

#[test]
fn too_small() {
    assert_eq!(SealedEnvelope::from_bytes(&[]).err(), Some(PqError::TooSmall));
    assert_eq!(SealedEnvelope::from_bytes(&[0u8; 60]).err(), Some(PqError::TooSmall));
}

#[test]
fn bad_magic() {
    let mut bytes = sample().to_bytes();
    bytes[0] = b'X';
    assert_eq!(SealedEnvelope::from_bytes(&bytes).err(), Some(PqError::BadMagic));
}

#[test]
fn unsupported_version() {
    let mut bytes = sample().to_bytes();
    bytes[4] = 2;
    assert_eq!(SealedEnvelope::from_bytes(&bytes).err(), Some(PqError::UnsupportedVersion));
}

fn padded(kem_len: u32) -> Vec<u8> {
    let mut v = header(kem_len);
    v.resize(61, 0);
    v
}

#[test]
fn truncated_fields() {
    assert_eq!(SealedEnvelope::from_bytes(&padded(53)).err(), Some(PqError::TruncatedKemCiphertext));
    assert_eq!(SealedEnvelope::from_bytes(&padded(u32::MAX)).err(), Some(PqError::TruncatedKemCiphertext));
    assert_eq!(SealedEnvelope::from_bytes(&padded(52)).err(), Some(PqError::TruncatedNonce));
    assert_eq!(SealedEnvelope::from_bytes(&padded(41)).err(), Some(PqError::TruncatedNonce));
    assert_eq!(SealedEnvelope::from_bytes(&padded(40)).err(), Some(PqError::TruncatedSalt));
    assert_eq!(SealedEnvelope::from_bytes(&padded(9)).err(), Some(PqError::TruncatedSalt));
    assert_eq!(SealedEnvelope::from_bytes(&padded(8)).err(), Some(PqError::TruncatedDataLength));
    assert_eq!(SealedEnvelope::from_bytes(&padded(1)).err(), Some(PqError::TruncatedDataLength));
}

#[test]
fn truncated_encrypted_data() {
    let mut bytes = sample().to_bytes();
    bytes.pop();
    assert_eq!(SealedEnvelope::from_bytes(&bytes).err(), Some(PqError::TruncatedEncryptedData));
}

#[test]
fn huge_declared_length_does_not_panic() {
    let mut v = header(0);
    v.extend_from_slice(&[0u8; 44]);
    v.extend_from_slice(&u64::MAX.to_le_bytes());
    assert_eq!(v.len(), 61);
    assert_eq!(SealedEnvelope::from_bytes(&v).err(), Some(PqError::TruncatedEncryptedData));
}

#[test]
fn arbitrary_inputs_do_not_panic() {
    for len in 0..200usize {
        let data: Vec<u8> = (0..len).map(|i| (i * 37 + len) as u8).collect();
        let _ = SealedEnvelope::from_bytes(&data);
        let mut with_magic = header((len % 80) as u32);
        with_magic.extend_from_slice(&data);
        let _ = SealedEnvelope::from_bytes(&with_magic);
    }
}
