//! The cryptographic layer: ML-KEM-768 to agree on a shared secret, HKDF-SHA256 to
//! turn it into an AES-256 key, AES-256-GCM to encrypt the data, and the composition
//! of the three into sealing and opening an envelope.
use vstd::prelude::*;
use crate::envelope::{
    envelope_bytes, lemma_envelope_bytes_len, lemma_envelope_roundtrip, parse_envelope, EnvelopeView,
};
use crate::error::PqError;
use crate::primitives::{
    aes256gcm_decrypt, aes256gcm_encrypt, aes256gcm_open, aes256gcm_seal,
    embedded_encapsulation_key, hkdf_sha256, hkdf_sha256_expand, mlkem768_decapsulate,
    mlkem768_decapsulate_bytes, mlkem768_encapsulate, mlkem768_encapsulation, mlkem768_generate,
    mlkem768_keygen, os_random_fill,
    AES_GCM_C_MAX, AES_GCM_P_MAX, AES_GCM_TAG_LEN, MLKEM768_CT_LEN, MLKEM768_DK_LEN, MLKEM768_EK_LEN,
    MLKEM_SS_LEN,
};

pub use crate::envelope::SealedEnvelope;

verus! {

/// Name of the key-encapsulation mechanism.
pub const KEM_ALG: &'static str = "ML-KEM-768";
/// Name of the symmetric cipher.
pub const SYMMETRIC_ALG: &'static str = "AES-256-GCM";
/// Length of the key-derivation salt in bytes.
pub const SALT_LEN: usize = 32;
/// Length of the symmetric nonce in bytes.
pub const NONCE_LEN: usize = 12;
/// Length of the symmetric key in bytes.
pub const KEY_LEN: usize = 32;

/// The HKDF `info` string that binds derived keys to this use: `pqguard-aes256gcm`.
pub open spec fn kdf_info() -> Seq<u8> {
    seq![
        0x70u8, 0x71u8, 0x67u8, 0x75u8, 0x61u8, 0x72u8, 0x64u8, 0x2du8, 0x61u8, 0x65u8, 0x73u8,
        0x32u8, 0x35u8, 0x36u8, 0x67u8, 0x63u8, 0x6du8,
    ]
}

fn kdf_info_bytes() -> (info: [u8; 17])
    ensures
        info@ == kdf_info(),
{
    let info: [u8; 17] = [
        0x70u8, 0x71u8, 0x67u8, 0x75u8, 0x61u8, 0x72u8, 0x64u8, 0x2du8, 0x61u8, 0x65u8, 0x73u8,
        0x32u8, 0x35u8, 0x36u8, 0x67u8, 0x63u8, 0x6du8,
    ];
    assert(info@ =~= kdf_info());
    info
}

/// A result that carries bytes, taken by its view.
pub open spec fn bytes_result(r: Result<Vec<u8>, PqError>) -> Result<Seq<u8>, PqError> {
    match r {
        Ok(v) => Ok(v@),
        Err(e) => Err(e),
    }
}

/// The AES-256 key that the shared secret and salt give.
pub open spec fn derived_key(shared_secret: Seq<u8>, salt: Seq<u8>) -> Seq<u8> {
    hkdf_sha256(salt, shared_secret, kdf_info(), KEY_LEN as nat)
}

/// `(ek, dk)` is an ML-KEM-768 key pair as key generation makes it: `dk` is what
/// deterministic key generation makes of some 64 bytes of seeds, and `ek` is the
/// encapsulation key embedded in it.
pub open spec fn is_generated_key_pair(ek: Seq<u8>, dk: Seq<u8>) -> bool {
    &&& ek.len() == MLKEM768_EK_LEN
    &&& dk.len() == MLKEM768_DK_LEN
    &&& ek == embedded_encapsulation_key(dk)
    &&& exists|seeds: Seq<u8>| seeds.len() == 64 && #[trigger] mlkem768_keygen(seeds) == dk
}

/// (`ciphertext`, `shared_secret`) is the ML-KEM-768 encapsulation to `ek` of some
/// 32-byte message.
pub open spec fn is_encapsulation_to(ek: Seq<u8>, ciphertext: Seq<u8>, shared_secret: Seq<u8>) -> bool {
    exists|m: Seq<u8>|
        m.len() == 32 && #[trigger] mlkem768_encapsulation(ek, m) == (ciphertext, shared_secret)
}

/// Generates a fresh ML-KEM-768 key pair, returned as (encapsulation key, decapsulation
/// key), that is (public, private); the private key embeds the public one.
pub fn generate_kem_keypair() -> (res: Result<(Vec<u8>, Vec<u8>), PqError>)
    ensures
        res is Ok,
        res matches Ok((ek, dk)) ==> is_generated_key_pair(ek@, dk@),
{
    let (ek, dk) = mlkem768_generate();
    Ok((ek, dk))
}

/// Encapsulates a fresh shared secret to the given encapsulation key; returns (shared
/// secret, KEM ciphertext), the encapsulation of a fresh random message to the key.
/// Fails exactly when the key does not have the ML-KEM-768 length.
pub fn kem_encapsulate(encapsulation_key: &[u8]) -> (res: Result<(Vec<u8>, Vec<u8>), PqError>)
    ensures
        res is Err <==> encapsulation_key@.len() != MLKEM768_EK_LEN,
        res matches Err(e) ==> e == PqError::InvalidEncapsulationKeyLength,
        res matches Ok((ss, ct)) ==> {
            &&& ss@.len() == MLKEM_SS_LEN
            &&& ct@.len() == MLKEM768_CT_LEN
            &&& is_encapsulation_to(encapsulation_key@, ct@, ss@)
        },
{
    if encapsulation_key.len() != MLKEM768_EK_LEN {
        return Err(PqError::InvalidEncapsulationKeyLength);
    }
    match mlkem768_encapsulate(encapsulation_key) {
        Ok((ct, ss)) => Ok((ss, ct)),
        Err(_) => Err(PqError::EncapsulationFailed),
    }
}

/// What decapsulating `ciphertext` with `dk` gives.
pub open spec fn decapsulation_result(dk: Seq<u8>, ciphertext: Seq<u8>) -> Result<Seq<u8>, PqError> {
    if dk.len() != MLKEM768_DK_LEN {
        Err(PqError::InvalidDecapsulationKeyLength)
    } else if ciphertext.len() != MLKEM768_CT_LEN {
        Err(PqError::InvalidCiphertextLength)
    } else {
        Ok(mlkem768_decapsulate(dk, ciphertext))
    }
}

/// Recovers the shared secret from a KEM ciphertext with a decapsulation key.
pub fn kem_decapsulate(decapsulation_key: &[u8], ciphertext: &[u8]) -> (res: Result<Vec<u8>, PqError>)
    ensures
        bytes_result(res) == decapsulation_result(decapsulation_key@, ciphertext@),
        res matches Ok(ss) ==> ss@.len() == MLKEM_SS_LEN,
{
    if decapsulation_key.len() != MLKEM768_DK_LEN {
        return Err(PqError::InvalidDecapsulationKeyLength);
    }
    if ciphertext.len() != MLKEM768_CT_LEN {
        return Err(PqError::InvalidCiphertextLength);
    }
    match mlkem768_decapsulate_bytes(decapsulation_key, ciphertext) {
        Ok(ss) => Ok(ss),
        Err(_) => Err(PqError::DecapsulationFailed),
    }
}

/// Derives the AES-256 key from a shared secret and a salt with HKDF-SHA256; never
/// fails, whatever the lengths of its inputs.
pub fn derive_key(shared_secret: &[u8], salt: &[u8]) -> (res: Result<[u8; KEY_LEN], PqError>)
    ensures
        res is Ok,
        res matches Ok(key) ==> key@ == derived_key(shared_secret@, salt@),
        res matches Ok(key) ==> key@ == hkdf_sha256(salt@, shared_secret@, kdf_info(), 32),
{
    let info = kdf_info_bytes();
    let mut key = [0u8; KEY_LEN];
    match hkdf_sha256_expand(salt, shared_secret, info.as_slice(), &mut key) {
        Ok(()) => Ok(key),
        Err(_) => Err(PqError::KeyDerivationFailed),
    }
}

/// A fresh random salt.
pub fn generate_salt() -> [u8; SALT_LEN] {
    let mut salt = [0u8; SALT_LEN];
    os_random_fill(&mut salt);
    salt
}

/// A fresh random nonce.
pub fn generate_nonce() -> [u8; NONCE_LEN] {
    let mut nonce = [0u8; NONCE_LEN];
    os_random_fill(&mut nonce);
    nonce
}

/// Encrypts `data` with AES-256-GCM. Fails exactly when `data` is longer than AES-GCM
/// allows.
pub fn symmetric_encrypt(key: &[u8; KEY_LEN], nonce: &[u8; NONCE_LEN], data: &[u8]) -> (res:
    Result<Vec<u8>, PqError>)
    ensures
        res is Ok <==> data@.len() <= AES_GCM_P_MAX,
        res matches Err(e) ==> e == PqError::EncryptionFailed,
        res matches Ok(c) ==> {
            &&& c@ == aes256gcm_seal(key@, nonce@, data@)
            &&& c@.len() == data@.len() + AES_GCM_TAG_LEN
            &&& aes256gcm_open(key@, nonce@, c@) == Some(data@)
        },
{
    match aes256gcm_encrypt(key, nonce, data) {
        Ok(c) => Ok(c),
        Err(_) => Err(PqError::EncryptionFailed),
    }
}

/// What AES-256-GCM decryption of `ciphertext` gives.
pub open spec fn symmetric_decryption_result(key: Seq<u8>, nonce: Seq<u8>, ciphertext: Seq<u8>) -> Result<
    Seq<u8>,
    PqError,
> {
    match aes256gcm_open(key, nonce, ciphertext) {
        Some(p) => Ok(p),
        None => Err(PqError::DecryptionFailed),
    }
}

/// Decrypts and authenticates an AES-256-GCM ciphertext: it gives back every plaintext
/// short enough to encrypt from its ciphertext, and fails on text shorter than the tag or
/// longer than AES-GCM accepts. Never panics, whatever the input.
pub fn symmetric_decrypt(key: &[u8; KEY_LEN], nonce: &[u8; NONCE_LEN], ciphertext: &[u8]) -> (res:
    Result<Vec<u8>, PqError>)
    ensures
        bytes_result(res) == symmetric_decryption_result(key@, nonce@, ciphertext@),
        ciphertext@.len() < AES_GCM_TAG_LEN ==> res is Err,
        ciphertext@.len() > AES_GCM_C_MAX + AES_GCM_TAG_LEN ==> res is Err,
        res matches Ok(p) ==> p@.len() + AES_GCM_TAG_LEN == ciphertext@.len(),
        res matches Ok(p) ==> (p@.len() <= AES_GCM_P_MAX ==> aes256gcm_seal(key@, nonce@, p@)
            == ciphertext@),
        forall|m: Seq<u8>|
            m.len() <= AES_GCM_P_MAX && aes256gcm_seal(key@, nonce@, m) == ciphertext@ ==> (res
                matches Ok(p) && p@ == m),
{
    match aes256gcm_decrypt(key, nonce, ciphertext) {
        Ok(p) => Ok(p),
        Err(_) => Err(PqError::DecryptionFailed),
    }
}

/// `env` seals `plaintext` under `shared_secret`: its nonce and salt have their lengths,
/// its KEM ciphertext has the ML-KEM-768 length, its encrypted data is the AES-256-GCM
/// ciphertext of `plaintext` under the key derived from `shared_secret` and its salt
/// (16 bytes longer than `plaintext`), and decrypting that ciphertext gives `plaintext`.
pub open spec fn sealed_for(env: EnvelopeView, shared_secret: Seq<u8>, plaintext: Seq<u8>) -> bool {
    let key = derived_key(shared_secret, env.salt);
    &&& env.kem_ciphertext.len() == MLKEM768_CT_LEN
    &&& env.symmetric_nonce.len() == NONCE_LEN
    &&& env.salt.len() == SALT_LEN
    &&& env.encrypted_data == aes256gcm_seal(key, env.symmetric_nonce, plaintext)
    &&& env.encrypted_data.len() == plaintext.len() + AES_GCM_TAG_LEN
    &&& aes256gcm_open(key, env.symmetric_nonce, env.encrypted_data) == Some(plaintext)
}

/// Builds the envelope that seals `plaintext` under `shared_secret`, carrying the given
/// KEM ciphertext, salt and nonce. Fails exactly when the plaintext is too long for
/// AES-GCM.
pub fn seal_envelope(
    shared_secret: &[u8],
    kem_ciphertext: Vec<u8>,
    salt: [u8; SALT_LEN],
    nonce: [u8; NONCE_LEN],
    plaintext: &[u8],
) -> (res: Result<SealedEnvelope, PqError>)
    requires
        kem_ciphertext@.len() == MLKEM768_CT_LEN,
    ensures
        res is Ok <==> plaintext@.len() <= AES_GCM_P_MAX,
        res matches Err(e) ==> e == PqError::EncryptionFailed,
        res matches Ok(env) ==> {
            &&& env.kem_ciphertext@ == kem_ciphertext@
            &&& env.salt@ == salt@
            &&& env.symmetric_nonce@ == nonce@
            &&& sealed_for(env@, shared_secret@, plaintext@)
            &&& env.encrypted_data@ == aes256gcm_seal(
                hkdf_sha256(salt@, shared_secret@, kdf_info(), 32),
                nonce@,
                plaintext@,
            )
        },
{
    let key = match derive_key(shared_secret, &salt) {
        Ok(k) => k,
        Err(e) => return Err(e),
    };
    let encrypted_data = match symmetric_encrypt(&key, &nonce, plaintext) {
        Ok(c) => c,
        Err(e) => return Err(e),
    };
    Ok(SealedEnvelope { kem_ciphertext, symmetric_nonce: nonce, salt, encrypted_data })
}

/// What sealing `plaintext` to `encapsulation_key` may give: `InvalidEncapsulationKeyLength`
/// exactly when the key does not have the ML-KEM-768 length; else `EncryptionFailed`
/// exactly when the plaintext is too long for AES-GCM; else an envelope whose KEM
/// ciphertext and some 32-byte shared secret are an encapsulation to the key, and which
/// seals the plaintext under that secret (the encapsulated message is random, and only
/// the holder of the matching decapsulation key recovers the secret).
pub open spec fn encryption_outcome(
    res: Result<SealedEnvelope, PqError>,
    encapsulation_key: Seq<u8>,
    plaintext: Seq<u8>,
) -> bool {
    if encapsulation_key.len() != MLKEM768_EK_LEN {
        res == Err::<SealedEnvelope, PqError>(PqError::InvalidEncapsulationKeyLength)
    } else if plaintext.len() > AES_GCM_P_MAX {
        res == Err::<SealedEnvelope, PqError>(PqError::EncryptionFailed)
    } else {
        res matches Ok(env) && exists|ss: Seq<u8>|
            {
                &&& ss.len() == MLKEM_SS_LEN
                &&& is_encapsulation_to(encapsulation_key, env.kem_ciphertext@, ss)
                &&& #[trigger] sealed_for(env@, ss, plaintext)
            }
    }
}

/// Seals `plaintext` for the holder of the decapsulation key that matches
/// `encapsulation_key`: a fresh salt and nonce, a fresh shared secret encapsulated to
/// the key, the AES-256-GCM encryption under the derived key. Fails when the key does not
/// have the ML-KEM-768 length, or else when the plaintext is too long for AES-GCM; an
/// empty plaintext is sealed like any other.
pub fn encrypt_bytes(encapsulation_key: &[u8], plaintext: &[u8]) -> (res: Result<
    SealedEnvelope,
    PqError,
>)
    ensures
        encryption_outcome(res, encapsulation_key@, plaintext@),
{
    let salt = generate_salt();
    let nonce = generate_nonce();
    let (shared_secret, kem_ciphertext) = match kem_encapsulate(encapsulation_key) {
        Ok(p) => p,
        Err(e) => return Err(e),
    };
    let res = seal_envelope(&shared_secret, kem_ciphertext, salt, nonce, plaintext);
    assert(res matches Ok(env) ==> {
        &&& is_encapsulation_to(encapsulation_key@, env.kem_ciphertext@, shared_secret@)
        &&& sealed_for(env@, shared_secret@, plaintext@)
    });
    res
}

/// What opening `env` with the decapsulation key `dk` gives: the key checks, then
/// decapsulation, key derivation and AES-256-GCM decryption.
pub open spec fn opening_result(dk: Seq<u8>, env: EnvelopeView) -> Result<Seq<u8>, PqError> {
    match decapsulation_result(dk, env.kem_ciphertext) {
        Err(e) => Err(e),
        Ok(ss) => symmetric_decryption_result(
            derived_key(ss, env.salt),
            env.symmetric_nonce,
            env.encrypted_data,
        ),
    }
}

/// Opens an envelope with a decapsulation key: recovers the shared secret, derives the
/// key, decrypts and authenticates the data.
pub fn decrypt_bytes(decapsulation_key: &[u8], envelope: &SealedEnvelope) -> (res: Result<
    Vec<u8>,
    PqError,
>)
    ensures
        bytes_result(res) == opening_result(decapsulation_key@, envelope@),
        decapsulation_key@.len() == MLKEM768_DK_LEN && envelope.kem_ciphertext@.len()
            == MLKEM768_CT_LEN ==> match aes256gcm_open(
            hkdf_sha256(
                envelope.salt@,
                mlkem768_decapsulate(decapsulation_key@, envelope.kem_ciphertext@),
                kdf_info(),
                32,
            ),
            envelope.symmetric_nonce@,
            envelope.encrypted_data@,
        ) {
            Some(p) => res matches Ok(q) && q@ == p,
            None => res matches Err(e) && e == PqError::DecryptionFailed,
        },
{
    let shared_secret = match kem_decapsulate(decapsulation_key, envelope.kem_ciphertext.as_slice()) {
        Ok(ss) => ss,
        Err(e) => return Err(e),
    };
    let key = match derive_key(shared_secret.as_slice(), &envelope.salt) {
        Ok(k) => k,
        Err(e) => return Err(e),
    };
    symmetric_decrypt(&key, &envelope.symmetric_nonce, envelope.encrypted_data.as_slice())
}

/// Opening gives back what was sealed: when `env` seals `plaintext` under a shared
/// secret and decapsulating the envelope's KEM ciphertext with `dk` recovers that same
/// secret, opening `env` with `dk` gives `plaintext`.
pub proof fn lemma_open_sealed(dk: Seq<u8>, env: EnvelopeView, shared_secret: Seq<u8>, plaintext: Seq<u8>)
    requires
        dk.len() == MLKEM768_DK_LEN,
        sealed_for(env, shared_secret, plaintext),
        mlkem768_decapsulate(dk, env.kem_ciphertext) == shared_secret,
    ensures
        opening_result(dk, env) == Ok::<Seq<u8>, PqError>(plaintext),
{
}

/// Symmetric decryption gives back what symmetric encryption encrypted: for a ciphertext
/// of `data` as `symmetric_encrypt` returns it, decryption under the same key and nonce
/// gives `data`.
pub proof fn lemma_symmetric_roundtrip(key: Seq<u8>, nonce: Seq<u8>, data: Seq<u8>, ciphertext: Seq<u8>)
    requires
        ciphertext == aes256gcm_seal(key, nonce, data),
        aes256gcm_open(key, nonce, ciphertext) == Some(data),
    ensures
        symmetric_decryption_result(key, nonce, ciphertext) == Ok::<Seq<u8>, PqError>(data),
{
}

/// Decapsulating `ciphertext` with `dk` gives the shared secret of every encapsulation
/// to `ek` that produces `ciphertext`. This is ML-KEM's correctness for that ciphertext,
/// which holds with overwhelming probability for a generated key pair, but not for every
/// message.
pub open spec fn recovers_encapsulation(dk: Seq<u8>, ek: Seq<u8>, ciphertext: Seq<u8>) -> bool {
    forall|m: Seq<u8>|
        m.len() == 32 && (#[trigger] mlkem768_encapsulation(ek, m)).0 == ciphertext
            ==> mlkem768_decapsulate(dk, ciphertext) == mlkem768_encapsulation(ek, m).1
}

/// Decrypting what was encrypted gives the data back: for an envelope that encrypting
/// `plaintext` to `ek` returned, opening it with `dk` gives `plaintext` when `dk`
/// recovers the secret encapsulated in it; its wire encoding, 1165 bytes longer than the
/// plaintext, parses back to it.
pub proof fn lemma_decrypt_encrypted(
    ek: Seq<u8>,
    dk: Seq<u8>,
    plaintext: Seq<u8>,
    res: Result<SealedEnvelope, PqError>,
)
    requires
        encryption_outcome(res, ek, plaintext),
        res is Ok,
        dk.len() == MLKEM768_DK_LEN,
        res matches Ok(env) ==> recovers_encapsulation(dk, ek, env.kem_ciphertext@),
    ensures
        res matches Ok(env) && {
            &&& opening_result(dk, env@) == Ok::<Seq<u8>, PqError>(plaintext)
            &&& parse_envelope(envelope_bytes(env@)) == Ok::<EnvelopeView, PqError>(env@)
            &&& envelope_bytes(env@).len() == 1165 + plaintext.len()
        },
{
    let env = res->Ok_0;
    assert(ek.len() == MLKEM768_EK_LEN && plaintext.len() <= AES_GCM_P_MAX);
    let ss = choose|ss: Seq<u8>|
        {
            &&& ss.len() == MLKEM_SS_LEN
            &&& is_encapsulation_to(ek, env.kem_ciphertext@, ss)
            &&& #[trigger] sealed_for(env@, ss, plaintext)
        };
    let m = choose|m: Seq<u8>|
        m.len() == 32 && #[trigger] mlkem768_encapsulation(ek, m) == (env.kem_ciphertext@, ss);
    assert(mlkem768_encapsulation(ek, m).0 == env.kem_ciphertext@);
    assert(mlkem768_decapsulate(dk, env.kem_ciphertext@) == ss);
    lemma_open_sealed(dk, env@, ss, plaintext);
    lemma_envelope_roundtrip(env@);
    lemma_envelope_bytes_len(env@);
}

/// The derived key is HKDF-SHA256 with the salt as HKDF salt, the shared secret as input
/// key material, the info string `pqguard-aes256gcm` and 32 bytes of output.
pub proof fn lemma_derived_key_is_hkdf(shared_secret: Seq<u8>, salt: Seq<u8>)
    ensures
        derived_key(shared_secret, salt) == hkdf_sha256(salt, shared_secret, kdf_info(), 32),
        kdf_info() == seq![
            0x70u8, 0x71u8, 0x67u8, 0x75u8, 0x61u8, 0x72u8, 0x64u8, 0x2du8, 0x61u8, 0x65u8, 0x73u8,
            0x32u8, 0x35u8, 0x36u8, 0x67u8, 0x63u8, 0x6du8,
        ],
{
}

/// A sealed envelope's encrypted data is the AES-256-GCM encryption of the plaintext
/// under the envelope's own nonce and the HKDF key of the envelope's own salt and the
/// shared secret, and AES-256-GCM decryption under the same key and nonce opens it.
pub proof fn lemma_sealed_for_is_aes_seal(env: EnvelopeView, shared_secret: Seq<u8>, plaintext: Seq<u8>)
    requires
        sealed_for(env, shared_secret, plaintext),
    ensures
        env.encrypted_data == aes256gcm_seal(
            hkdf_sha256(env.salt, shared_secret, kdf_info(), 32),
            env.symmetric_nonce,
            plaintext,
        ),
        aes256gcm_open(
            hkdf_sha256(env.salt, shared_secret, kdf_info(), 32),
            env.symmetric_nonce,
            env.encrypted_data,
        ) == Some(plaintext),
        env.encrypted_data.len() == plaintext.len() + 16,
{
}

/// Opening an envelope with a key of the right length decapsulates the envelope's own KEM
/// ciphertext, derives the HKDF key from the envelope's own salt, and runs AES-256-GCM
/// decryption under the envelope's own nonce: its result, or `DecryptionFailed`.
pub proof fn lemma_opening_result_is_aes_open(dk: Seq<u8>, env: EnvelopeView)
    requires
        dk.len() == MLKEM768_DK_LEN,
        env.kem_ciphertext.len() == MLKEM768_CT_LEN,
    ensures
        opening_result(dk, env) == match aes256gcm_open(
            hkdf_sha256(env.salt, mlkem768_decapsulate(dk, env.kem_ciphertext), kdf_info(), 32),
            env.symmetric_nonce,
            env.encrypted_data,
        ) {
            Some(p) => Ok::<Seq<u8>, PqError>(p),
            None => Err::<Seq<u8>, PqError>(PqError::DecryptionFailed),
        },
{
}

} // verus!
