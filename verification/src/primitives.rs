//! The boundary with the outside cryptographic crates. Every item here is trusted:
//! Verus believes its contract without reading its body. Each contract says only what
//! the crate's source shows of the call, and names (spec functions without a body)
//! stand for results that take pages to state.
use vstd::prelude::*;
use aes_gcm::aead::{Aead, KeyInit, OsRng};
use aes_gcm::{Aes256Gcm, Key, Nonce};
use base64::Engine;
use hkdf::Hkdf;
use ml_kem::kem::{Decapsulate, DecapsulationKey, Encapsulate, EncapsulationKey};
use ml_kem::{Encoded, EncodedSizeUser, KemCore, MlKem768, MlKem768Params};
use rand::RngCore;
use sha2::Sha256;

verus! {

/// The error of `base64`'s decoders.
#[verifier::external_type_specification]
#[verifier::external_body]
pub struct ExDecodeError(base64::DecodeError);

/// The error of `hkdf`'s `expand`.
#[verifier::external_type_specification]
#[verifier::external_body]
pub struct ExInvalidLength(hkdf::InvalidLength);

/// The opaque error of the AEAD ciphers (`aead::Error`, re-exported by `aes_gcm`).
#[verifier::external_type_specification]
#[verifier::external_body]
pub struct ExAeadError(aes_gcm::Error);

/// Length in bytes of an ML-KEM-768 encapsulation (public) key.
pub const MLKEM768_EK_LEN: usize = 1184;
/// Length in bytes of an ML-KEM-768 decapsulation (private) key.
pub const MLKEM768_DK_LEN: usize = 2400;
/// Length in bytes of an ML-KEM-768 ciphertext.
pub const MLKEM768_CT_LEN: usize = 1088;
/// Length in bytes of an ML-KEM shared secret.
pub const MLKEM_SS_LEN: usize = 32;
/// Largest plaintext, in bytes, that AES-GCM accepts (`aes_gcm::P_MAX`).
pub const AES_GCM_P_MAX: u64 = 0x10_0000_0000;
/// Largest ciphertext without its tag, in bytes, that AES-GCM accepts (`aes_gcm::C_MAX`).
pub const AES_GCM_C_MAX: u64 = 0x10_0000_0010;
/// Length in bytes of the AES-GCM authentication tag appended to a ciphertext.
pub const AES_GCM_TAG_LEN: usize = 16;
/// Largest output, in bytes, of HKDF-SHA256's expand step (255 blocks of 32 bytes).
pub const HKDF_SHA256_MAX_OKM: usize = 8160;

/// The character of the standard base64 alphabet (RFC 4648, table 1) for the 6-bit value
/// `v`: `A`-`Z`, `a`-`z`, `0`-`9`, `+`, `/`.
pub open spec fn base64_digit(v: int) -> char {
    if v < 26 {
        (65 + v) as char
    } else if v < 52 {
        (71 + v) as char
    } else if v < 62 {
        (v - 4) as char
    } else if v == 62 {
        '+'
    } else {
        '/'
    }
}

/// The standard base64 encoding with `=` padding (RFC 4648, section 4): each group of
/// three bytes becomes four characters of six bits each; a final group of one or two
/// bytes is filled with zero bits and padded with `=` to four characters.
pub open spec fn base64_encode(data: Seq<u8>) -> Seq<char>
    decreases data.len(),
{
    if data.len() == 0 {
        seq![]
    } else if data.len() == 1 {
        let a = data[0] as int;
        seq![base64_digit(a / 4), base64_digit((a % 4) * 16), '=', '=']
    } else if data.len() == 2 {
        let a = data[0] as int;
        let b = data[1] as int;
        seq![base64_digit(a / 4), base64_digit((a % 4) * 16 + b / 16), base64_digit((b % 16) * 4), '=']
    } else {
        let a = data[0] as int;
        let b = data[1] as int;
        let c = data[2] as int;
        seq![
            base64_digit(a / 4),
            base64_digit((a % 4) * 16 + b / 16),
            base64_digit((b % 16) * 4 + c / 64),
            base64_digit(c % 64),
        ] + base64_encode(data.subrange(3, data.len() as int))
    }
}

/// What the standard base64 engine decodes from `text`: it requires canonical padding and
/// no set trailing bits, so it accepts exactly the standard padded encodings, and gives
/// the bytes whose encoding `text` is (the encoding is injective).
pub open spec fn base64_decode(text: Seq<char>) -> Option<Seq<u8>> {
    if exists|d: Seq<u8>| base64_encode(d) == text {
        Some(choose|d: Seq<u8>| base64_encode(d) == text)
    } else {
        None
    }
}

/// The output key material of HKDF-SHA256 with the given salt, input key material, info
/// and output length.
pub uninterp spec fn hkdf_sha256(salt: Seq<u8>, ikm: Seq<u8>, info: Seq<u8>, len: nat) -> Seq<u8>;

/// The AES-256-GCM ciphertext (with its tag appended) of `plaintext` under `key` and
/// `nonce`, with empty associated data.
pub uninterp spec fn aes256gcm_seal(key: Seq<u8>, nonce: Seq<u8>, plaintext: Seq<u8>) -> Seq<u8>;

/// What AES-256-GCM decryption of `ciphertext` (tag appended) under `key` and `nonce`,
/// with empty associated data, gives: the plaintext, or `None` where it fails.
pub uninterp spec fn aes256gcm_open(key: Seq<u8>, nonce: Seq<u8>, ciphertext: Seq<u8>) -> Option<
    Seq<u8>,
>;

/// The shared secret that ML-KEM-768 decapsulation of `ciphertext` with the decapsulation
/// key `dk` gives (decapsulation is deterministic and, by implicit rejection, total).
pub uninterp spec fn mlkem768_decapsulate(dk: Seq<u8>, ciphertext: Seq<u8>) -> Seq<u8>;

/// The (ciphertext, shared secret) that ML-KEM-768's deterministic encapsulation to the
/// encapsulation key `ek` with the 32-byte message `m` gives (`encapsulate_deterministic`,
/// which randomised encapsulation runs on a random `m`).
pub uninterp spec fn mlkem768_encapsulation(ek: Seq<u8>, m: Seq<u8>) -> (Seq<u8>, Seq<u8>);

/// The decapsulation key, in its byte encoding, that ML-KEM-768's deterministic key
/// generation makes of the seeds `d` and `z` given as `seeds == d + z`, each of 32 bytes
/// (`generate_deterministic(d, z)`, which randomised generation runs on random seeds).
pub uninterp spec fn mlkem768_keygen(seeds: Seq<u8>) -> Seq<u8>;

/// Offset of the encapsulation key inside an ML-KEM-768 decapsulation key.
pub const MLKEM768_EK_OFFSET: usize = 1152;

/// The encapsulation key embedded in an ML-KEM-768 decapsulation key.
pub open spec fn embedded_encapsulation_key(dk: Seq<u8>) -> Seq<u8> {
    dk.subrange(MLKEM768_EK_OFFSET as int, MLKEM768_EK_OFFSET + MLKEM768_EK_LEN)
}

/// Length of the padded standard base64 encoding of `n` bytes.
pub open spec fn base64_encoded_len(n: nat) -> nat {
    4 * ((n + 2) / 3)
}

/// The characters of the standard base64 alphabet and its padding character.
pub open spec fn is_base64_char(c: char) -> bool {
    let u = c as u32;
    ||| 0x41 <= u <= 0x5a
    ||| 0x61 <= u <= 0x7a
    ||| 0x30 <= u <= 0x39
    ||| u == 0x2b
    ||| u == 0x2f
    ||| u == 0x3d
}

/// `base64::engine::general_purpose::STANDARD.encode`. Claims: the result is the standard
/// padded base64 encoding of `data`. It panics only where the encoded length overflows
/// `usize`, which `requires` excludes.
#[verifier::external_body]
pub(crate) fn base64_standard_encode(data: &[u8]) -> (text: String)
    requires
        base64_encoded_len(data@.len()) <= usize::MAX,
    ensures
        text@ == base64_encode(data@),
{
    base64::engine::general_purpose::STANDARD.encode(data)
}

/// `base64::engine::general_purpose::STANDARD.decode`. Claims: it succeeds exactly on the
/// standard padded encodings (the `STANDARD` engine requires canonical padding and
/// rejects set trailing bits), and then returns the bytes whose encoding the text is. It
/// never panics. Which error it reports on other text is not claimed.
#[verifier::external_body]
pub(crate) fn base64_standard_decode(text: &str) -> (res: Result<Vec<u8>, base64::DecodeError>)
    ensures
        res matches Ok(bytes) ==> base64_encode(bytes@) == text@,
        res is Err ==> forall|d: Seq<u8>| base64_encode(d) != text@,
{
    base64::engine::general_purpose::STANDARD.decode(text)
}

/// `Hkdf::<Sha256>::new(Some(salt), ikm)` followed by `expand(info, okm)`. Claims: the
/// length of `okm` is kept; the call fails exactly when more than 255 blocks of 32 bytes
/// are asked for; on success `okm` holds the named output key material.
#[verifier::external_body]
pub(crate) fn hkdf_sha256_expand(salt: &[u8], ikm: &[u8], info: &[u8], okm: &mut [u8]) -> (res:
    Result<(), hkdf::InvalidLength>)
    ensures
        final(okm)@.len() == old(okm)@.len(),
        res is Ok <==> old(okm)@.len() <= HKDF_SHA256_MAX_OKM,
        res is Ok ==> final(okm)@ == hkdf_sha256(salt@, ikm@, info@, old(okm)@.len()),
{
    Hkdf::<Sha256>::new(Some(salt), ikm).expand(info, okm)
}

/// `Aes256Gcm::new(key).encrypt(nonce, plaintext)`. Claims: it fails exactly when the
/// plaintext is longer than `P_MAX`; on success the result is the named ciphertext, 16
/// bytes longer than the plaintext, and decryption under the same key and nonce gives
/// the plaintext back.
#[verifier::external_body]
pub(crate) fn aes256gcm_encrypt(key: &[u8; 32], nonce: &[u8; 12], plaintext: &[u8]) -> (res:
    Result<Vec<u8>, aes_gcm::Error>)
    ensures
        res is Ok <==> plaintext@.len() <= AES_GCM_P_MAX,
        res matches Ok(c) ==> {
            &&& c@ == aes256gcm_seal(key@, nonce@, plaintext@)
            &&& c@.len() == plaintext@.len() + AES_GCM_TAG_LEN
            &&& aes256gcm_open(key@, nonce@, c@) == Some(plaintext@)
        },
{
    Aes256Gcm::new(Key::<Aes256Gcm>::from_slice(key)).encrypt(Nonce::from_slice(nonce), plaintext)
}

/// `Aes256Gcm::new(key).decrypt(nonce, ciphertext)`. Claims: it succeeds exactly where
/// the named decryption is defined, and then returns it; it fails on a ciphertext shorter
/// than the tag, and on one longer than `C_MAX` plus the tag; a plaintext it returns is
/// 16 bytes shorter than the ciphertext, and, where it is short enough to encrypt,
/// encrypts back to that very ciphertext; and the encryption of any plaintext short enough
/// to encrypt decrypts to that plaintext (GCM encryption is deterministic, and decryption
/// succeeds exactly when the tag recomputed over the ciphertext matches).
#[verifier::external_body]
pub(crate) fn aes256gcm_decrypt(key: &[u8; 32], nonce: &[u8; 12], ciphertext: &[u8]) -> (res:
    Result<Vec<u8>, aes_gcm::Error>)
    ensures
        match res {
            Ok(p) => aes256gcm_open(key@, nonce@, ciphertext@) == Some(p@),
            Err(_) => aes256gcm_open(key@, nonce@, ciphertext@) is None,
        },
        ciphertext@.len() < AES_GCM_TAG_LEN ==> res is Err,
        res matches Ok(p) ==> p@.len() + AES_GCM_TAG_LEN == ciphertext@.len(),
        res matches Ok(p) ==> (p@.len() <= AES_GCM_P_MAX ==> aes256gcm_seal(key@, nonce@, p@)
            == ciphertext@),
        ciphertext@.len() > AES_GCM_C_MAX + AES_GCM_TAG_LEN ==> res is Err,
        res is Err ==> forall|m: Seq<u8>|
            m.len() <= AES_GCM_P_MAX ==> aes256gcm_seal(key@, nonce@, m) != ciphertext@,
        res matches Ok(p) ==> forall|m: Seq<u8>|
            m.len() <= AES_GCM_P_MAX && aes256gcm_seal(key@, nonce@, m) == ciphertext@ ==> m
                == p@,
{
    Aes256Gcm::new(Key::<Aes256Gcm>::from_slice(key)).decrypt(Nonce::from_slice(nonce), ciphertext)
}

/// `MlKem768::generate(&mut OsRng)`, the keys taken by `as_bytes`, returned as
/// (encapsulation key, decapsulation key). Claims: the lengths; that the decapsulation
/// key is what deterministic key generation makes of 64 bytes of seeds (`generate` draws
/// `d` and `z` from the random source and runs `generate_deterministic`); and that the
/// encapsulation key is the one embedded in the decapsulation key (its encoding is the
/// decryption key, then the encapsulation key, then two 32-byte values, and `generate`
/// returns the decapsulation key's own encapsulation key). Which seeds were drawn is not
/// claimed. It panics only if the operating system's random source fails.
#[verifier::external_body]
pub(crate) fn mlkem768_generate() -> (keys: (Vec<u8>, Vec<u8>))
    ensures
        keys.0@.len() == MLKEM768_EK_LEN,
        keys.0@ == embedded_encapsulation_key(keys.1@),
        keys.1@.len() == MLKEM768_DK_LEN,
        keys.1@.len() == MLKEM768_DK_LEN ==> exists|seeds: Seq<u8>|
            seeds.len() == 64 && #[trigger] mlkem768_keygen(seeds) == keys.1@,
{
    let (dk, ek) = MlKem768::generate(&mut OsRng);
    (ek.as_bytes().to_vec(), dk.as_bytes().to_vec())
}

/// `EncapsulationKey::from_bytes(ek).encapsulate(&mut OsRng)`, returning (ciphertext,
/// shared secret). Claims: the call succeeds, as its source always returns `Ok`; the
/// lengths; and that the pair is the deterministic encapsulation to `ek` of some 32-byte
/// message (`encapsulate` draws `m` from the random source and runs the deterministic
/// encapsulation). Which message was drawn is not claimed, nor what decapsulation of the
/// ciphertext gives: ML-KEM recovers the shared secret with overwhelming, not certain,
/// probability. It panics only if the operating system's random source fails.
#[verifier::external_body]
#[allow(deprecated)]
pub(crate) fn mlkem768_encapsulate(ek: &[u8]) -> (res: Result<(Vec<u8>, Vec<u8>), ()>)
    requires
        ek@.len() == MLKEM768_EK_LEN,
    ensures
        res is Ok,
        res matches Ok((ct, ss)) ==> ct@.len() == MLKEM768_CT_LEN && ss@.len() == MLKEM_SS_LEN,
        res matches Ok((ct, ss)) ==> exists|m: Seq<u8>|
            m.len() == 32 && #[trigger] mlkem768_encapsulation(ek@, m) == (ct@, ss@),
{
    let key = EncapsulationKey::<MlKem768Params>::from_bytes(
        Encoded::<EncapsulationKey<MlKem768Params>>::from_slice(ek),
    );
    key.encapsulate(&mut OsRng).map(|(ct, ss)| (ct.to_vec(), ss.to_vec()))
}

/// `DecapsulationKey::from_bytes(dk).decapsulate(ciphertext)`. Claims: the call succeeds,
/// as its source always returns `Ok`, and gives the named shared secret of 32 bytes.
#[verifier::external_body]
#[allow(deprecated)]
pub(crate) fn mlkem768_decapsulate_bytes(dk: &[u8], ciphertext: &[u8]) -> (res: Result<
    Vec<u8>,
    (),
>)
    requires
        dk@.len() == MLKEM768_DK_LEN,
        ciphertext@.len() == MLKEM768_CT_LEN,
    ensures
        res is Ok,
        res matches Ok(ss) ==> ss@ == mlkem768_decapsulate(dk@, ciphertext@) && ss@.len()
            == MLKEM_SS_LEN,
{
    let key = DecapsulationKey::<MlKem768Params>::from_bytes(
        Encoded::<DecapsulationKey<MlKem768Params>>::from_slice(dk),
    );
    let ct = ml_kem::Ciphertext::<MlKem768>::from_slice(ciphertext);
    key.decapsulate(ct).map(|ss| ss.to_vec())
}

/// `OsRng.fill_bytes(dest)`: fills `dest` with random bytes from the operating system.
/// Only that the length is kept is claimed. It panics only if the operating system's
/// random source fails.
#[verifier::external_body]
pub(crate) fn os_random_fill(dest: &mut [u8])
    ensures
        final(dest)@.len() == old(dest)@.len(),
{
    OsRng.fill_bytes(dest)
}

} // verus!
