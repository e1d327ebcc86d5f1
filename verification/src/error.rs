use vstd::prelude::*;

verus! {

/// Every way in which an operation of the library can fail.
#[derive(Debug, PartialEq, Eq)]
pub enum PqError {
    /// The envelope is shorter than its fixed-size header.
    TooSmall,
    /// The envelope does not start with the `PQGR` magic.
    BadMagic,
    /// The envelope carries a format version other than 1.
    UnsupportedVersion,
    /// The declared KEM ciphertext runs past the end of the input.
    TruncatedKemCiphertext,
    /// The nonce runs past the end of the input.
    TruncatedNonce,
    /// The salt runs past the end of the input.
    TruncatedSalt,
    /// The encrypted-data length field runs past the end of the input.
    TruncatedDataLength,
    /// The declared encrypted data runs past the end of the input.
    TruncatedEncryptedData,
    /// An encapsulation (public) key does not have the ML-KEM-768 length.
    InvalidEncapsulationKeyLength,
    /// A decapsulation (private) key does not have the ML-KEM-768 length.
    InvalidDecapsulationKeyLength,
    /// A KEM ciphertext does not have the ML-KEM-768 length.
    InvalidCiphertextLength,
    /// The KEM reported a failure while encapsulating.
    EncapsulationFailed,
    /// The KEM reported a failure while decapsulating.
    DecapsulationFailed,
    /// HKDF refused the requested output length.
    KeyDerivationFailed,
    /// AES-256-GCM refused to encrypt (the plaintext is too long).
    EncryptionFailed,
    /// AES-256-GCM decryption failed: wrong key, or the data was altered.
    DecryptionFailed,
    /// There is nothing to encrypt.
    EmptyInput,
    /// A key file has fewer than three lines.
    InvalidKeyFile,
    /// A key file does not start with a `PQGUARD-` header.
    NotAKeyFile,
    /// The key data of a key file is not valid base64.
    InvalidBase64,
    /// A public key was expected; the key file's type line is attached.
    ExpectedPublicKey(String),
    /// A private key was expected; the key file's type line is attached.
    ExpectedPrivateKey(String),
}

} // verus!
