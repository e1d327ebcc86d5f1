use pqguard::crypto::{
    decrypt_bytes, derive_key, encrypt_bytes, generate_kem_keypair, generate_nonce, generate_salt,
    kem_decapsulate, kem_encapsulate, seal_envelope, symmetric_decrypt, symmetric_encrypt,
    SealedEnvelope, KEY_LEN, NONCE_LEN, SALT_LEN,
};
use pqguard::decrypt::decrypt_file_contents;
use pqguard::encrypt::encrypt_file_contents;
use pqguard::error::PqError;
use pqguard::keygen::{key_file_text, KeyKind};

fn hex(s: &str) -> Vec<u8> {
    (0..s.len()).step_by(2).map(|i| u8::from_str_radix(&s[i..i + 2], 16).unwrap()).collect()
}

#[test]
fn keypair_lengths() {
    let (ek, dk) = generate_kem_keypair().unwrap();
    assert_eq!(ek.len(), 1184);
    assert_eq!(dk.len(), 2400);
    assert_eq!(&dk[1152..2336], &ek[..]);
}

#[test]
fn kem_agrees() {
    let (ek, dk) = generate_kem_keypair().unwrap();
    let (ss, ct) = kem_encapsulate(&ek).unwrap();
    assert_eq!(ss.len(), 32);
    assert_eq!(ct.len(), 1088);
    assert_eq!(kem_decapsulate(&dk, &ct).unwrap(), ss);
}

#[test]
fn kem_length_errors() {
    let (ek, dk) = generate_kem_keypair().unwrap();
    assert_eq!(kem_encapsulate(&ek[..1183]).err(), Some(PqError::InvalidEncapsulationKeyLength));
    assert_eq!(kem_encapsulate(&[]).err(), Some(PqError::InvalidEncapsulationKeyLength));
    let (_, ct) = kem_encapsulate(&ek).unwrap();
    assert_eq!(kem_decapsulate(&dk[..10], &ct).err(), Some(PqError::InvalidDecapsulationKeyLength));
    assert_eq!(kem_decapsulate(&dk, &ct[..1087]).err(), Some(PqError::InvalidCiphertextLength));
    assert_eq!(kem_decapsulate(&ek, &ct).err(), Some(PqError::InvalidDecapsulationKeyLength));
}

#[test]
fn decapsulation_is_deterministic() {
    let (_, dk) = generate_kem_keypair().unwrap();
    let ct = vec![0x5au8; 1088];
    let a = kem_decapsulate(&dk, &ct).unwrap();
    let b = kem_decapsulate(&dk, &ct).unwrap();
    assert_eq!(a, b);
    assert_eq!(a.len(), 32);
}

#[test]
fn derive_key_is_deterministic_and_salted() {
    let ss = [1u8; 32];
    let k1 = derive_key(&ss, &[2u8; 32]).unwrap();
    let k2 = derive_key(&ss, &[2u8; 32]).unwrap();
    let k3 = derive_key(&ss, &[3u8; 32]).unwrap();
    assert_eq!(k1, k2);
    assert_ne!(k1, k3);
    assert_eq!(k1.len(), KEY_LEN);
}

#[test]
fn derive_key_accepts_any_lengths() {
    assert!(derive_key(&[], &[]).is_ok());
    assert!(derive_key(&[0u8; 1000], &[0u8; 3]).is_ok());
}

#[test]
fn aes_gcm_known_answers() {
    let key = [0u8; 32];
    let nonce = [0u8; 12];
    let c = symmetric_encrypt(&key, &nonce, &[]).unwrap();
    assert_eq!(c, hex("530f8afbc74536b9a963b4f1c4cb738b"));
    let c = symmetric_encrypt(&key, &nonce, &[0u8; 16]).unwrap();
    assert_eq!(c, hex("cea7403d4d606b6e074ec5d3baf39d18d0d1c8a799996bf0265b98b5d48ab919"));
    assert_eq!(symmetric_decrypt(&key, &nonce, &c).unwrap(), vec![0u8; 16]);
}

#[test]
fn symmetric_roundtrip_and_tamper() {
    let key = [4u8; 32];
    let nonce = [5u8; 12];
    let data = b"attack at dawn".to_vec();
    let mut c = symmetric_encrypt(&key, &nonce, &data).unwrap();
    assert_eq!(c.len(), data.len() + 16);
    assert_eq!(symmetric_decrypt(&key, &nonce, &c).unwrap(), data);
    assert_eq!(symmetric_decrypt(&[6u8; 32], &nonce, &c).err(), Some(PqError::DecryptionFailed));
    c[0] ^= 1;
    assert_eq!(symmetric_decrypt(&key, &nonce, &c).err(), Some(PqError::DecryptionFailed));
    assert_eq!(symmetric_decrypt(&key, &nonce, &[1, 2, 3]).err(), Some(PqError::DecryptionFailed));
    assert_eq!(symmetric_decrypt(&key, &nonce, &[0u8; 44]).err(), Some(PqError::DecryptionFailed));
}

#[test]
fn salts_and_nonces_vary() {
    let s1 = generate_salt();
    let s2 = generate_salt();
    assert_eq!(s1.len(), SALT_LEN);
    assert_ne!(s1, s2);
    let n1 = generate_nonce();
    let n2 = generate_nonce();
    assert_eq!(n1.len(), NONCE_LEN);
    assert_ne!(n1, n2);
}

#[test]
fn seal_envelope_uses_given_parts() {
    let ss = [8u8; 32];
    let env = seal_envelope(&ss, vec![3u8; 1088], [1u8; 32], [2u8; 12], b"abc").unwrap();
    assert_eq!(env.kem_ciphertext, vec![3u8; 1088]);
    assert_eq!(env.salt, [1u8; 32]);
    assert_eq!(env.symmetric_nonce, [2u8; 12]);
    let key = derive_key(&ss, &[1u8; 32]).unwrap();
    assert_eq!(symmetric_decrypt(&key, &[2u8; 12], &env.encrypted_data).unwrap(), b"abc".to_vec());
}

#[test]
fn encrypt_decrypt_roundtrip() {
    let (ek, dk) = generate_kem_keypair().unwrap();
    for len in [0usize, 1, 15, 16, 17, 1000, 8191] {
        let data: Vec<u8> = (0..len).map(|i| (i * 31 + 7) as u8).collect();
        let env = encrypt_bytes(&ek, &data).unwrap();
        assert_eq!(env.kem_ciphertext.len(), 1088);
        assert_eq!(env.encrypted_data.len(), len + 16);
        assert_eq!(decrypt_bytes(&dk, &env).unwrap(), data);
    }
}

#[test]
fn ciphertext_is_randomized() {
    let (ek, dk) = generate_kem_keypair().unwrap();
    let data = b"same message".to_vec();
    let e1 = encrypt_bytes(&ek, &data).unwrap();
    let e2 = encrypt_bytes(&ek, &data).unwrap();
    assert_ne!(e1.kem_ciphertext, e2.kem_ciphertext);
    assert_eq!(decrypt_bytes(&dk, &e1).unwrap(), data);
    assert_eq!(decrypt_bytes(&dk, &e2).unwrap(), data);
}

#[test]
fn wrong_key_fails() {
    let (ek1, _dk1) = generate_kem_keypair().unwrap();
    let (_ek2, dk2) = generate_kem_keypair().unwrap();
    let data = b"for the first key only".to_vec();
    let env = encrypt_bytes(&ek1, &data).unwrap();
    assert_eq!(decrypt_bytes(&dk2, &env).err(), Some(PqError::DecryptionFailed));
}

#[test]
fn encrypt_rejects_bad_key() {
    assert_eq!(encrypt_bytes(&[0u8; 10], b"x").err(), Some(PqError::InvalidEncapsulationKeyLength));
}

#[test]
fn decrypt_rejects_bad_key() {
    let (ek, _) = generate_kem_keypair().unwrap();
    let env = encrypt_bytes(&ek, b"x").unwrap();
    assert_eq!(decrypt_bytes(&[0u8; 5], &env).err(), Some(PqError::InvalidDecapsulationKeyLength));
}

#[test]
fn envelope_serialize_roundtrip() {
    let (ek, dk) = generate_kem_keypair().unwrap();
    let data = vec![0x42u8; 3000];
    let env = encrypt_bytes(&ek, &data).unwrap();
    let parsed = SealedEnvelope::from_bytes(&env.to_bytes()).unwrap();
    assert_eq!(decrypt_bytes(&dk, &parsed).unwrap(), data);
}

#[test]
fn file_contents_roundtrip() {
    let (ek, dk) = generate_kem_keypair().unwrap();
    let public_file = key_file_text(KeyKind::Public, &ek, "bob");
    let private_file = key_file_text(KeyKind::Private, &dk, "bob");
    let data = b"file body".to_vec();
    let env = encrypt_file_contents(&data, &public_file).unwrap();
    let bytes = env.to_bytes();
    assert_eq!(bytes.len(), 1165 + data.len());
    let parsed = SealedEnvelope::from_bytes(&bytes).unwrap();
    assert_eq!(decrypt_file_contents(&parsed, &private_file).unwrap(), data);
}

#[test]
fn file_contents_errors() {
    let (ek, dk) = generate_kem_keypair().unwrap();
    let public_file = key_file_text(KeyKind::Public, &ek, "bob");
    let private_file = key_file_text(KeyKind::Private, &dk, "bob");
    assert_eq!(encrypt_file_contents(&[], &public_file).err(), Some(PqError::EmptyInput));
    assert_eq!(encrypt_file_contents(&[], "garbage").err(), Some(PqError::EmptyInput));
    assert_eq!(
        encrypt_file_contents(b"x", &private_file).err(),
        Some(PqError::ExpectedPublicKey("PQGUARD-PRIVATE-KEY".to_string()))
    );
    assert_eq!(encrypt_file_contents(b"x", "one line").err(), Some(PqError::InvalidKeyFile));
    let env = encrypt_file_contents(b"x", &public_file).unwrap();
    assert_eq!(decrypt_file_contents(&env, "one line").err(), Some(PqError::InvalidKeyFile));
    assert_eq!(
        decrypt_file_contents(&env, &public_file).err(),
        Some(PqError::ExpectedPrivateKey("PQGUARD-PUBLIC-KEY".to_string()))
    );
}
