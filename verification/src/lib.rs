//! pqguard: hybrid post-quantum file encryption (ML-KEM-768 + HKDF-SHA256 + AES-256-GCM).
//!
//! The library holds the envelope wire format, the key-file text format and the
//! composition of the cryptographic primitives, verified with Verus against their
//! contracts. The few calls into the cryptographic crates are trusted items in
//! `primitives`; the salt and nonce generators return random bytes, of which nothing
//! beyond their length holds.
pub mod error;
pub mod envelope;
pub mod crypto;
pub mod text;
pub mod primitives;
pub mod keygen;
pub mod keyfile;
pub mod encrypt;
pub mod decrypt;
