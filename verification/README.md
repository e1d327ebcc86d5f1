# pqguard

Hybrid post-quantum file encryption: ML-KEM-768 agrees on a shared secret,
HKDF-SHA256 derives an AES-256 key from it and a random salt, AES-256-GCM encrypts
the data. The result is stored as a sealed envelope.

Layout:

- `src/` — the library, verified with Verus.
  - `envelope.rs` — the envelope wire format (`to_bytes`, `from_bytes`) and the proof
    that parsing a serialised envelope gives it back.
  - `crypto.rs` — KEM, key derivation, AES-GCM, and their composition into sealing
    (`encrypt_bytes`) and opening (`decrypt_bytes`), with the proof that opening gives
    back what was sealed.
  - `keygen.rs`, `keyfile.rs` — the key-file text format and base64 key text, with the
    proofs that written keys load back.
  - `encrypt.rs`, `decrypt.rs` — what encrypting and decrypting a file computes.
  - `text.rs` — line splitting, trimming and substring search on characters.
  - `primitives.rs` — the trusted boundary with the `ml-kem`, `hkdf`, `aes-gcm`,
    `base64` and `rand` crates.
- `app/` — file I/O and terminal output around the library.
- `tests/` — tests of the library, run against the real cryptographic crates.
