//! Sealing the contents of a file for a recipient.
use vstd::prelude::*;
use crate::crypto::{encrypt_bytes, encryption_outcome, SealedEnvelope};
use crate::error::PqError;
use crate::keygen::{key_file_header, load_public_key, public_marker};
use crate::text::has_infix;

verus! {

/// What sealing the contents `plaintext` of a file for the recipient whose public key
/// file has the text `public_key_file` may give: `EmptyInput` for an empty input; else the
/// key file's error; else the outcome of encrypting to the loaded key.
pub open spec fn file_encryption_outcome(
    res: Result<SealedEnvelope, PqError>,
    plaintext: Seq<u8>,
    public_key_file: Seq<char>,
) -> bool {
    if plaintext.len() == 0 {
        res == Err::<SealedEnvelope, PqError>(PqError::EmptyInput)
    } else {
        match key_file_header(public_key_file) {
            Err(e) => res == Err::<SealedEnvelope, PqError>(e),
            Ok(h) => if has_infix(h.key_type, public_marker()) {
                encryption_outcome(res, h.key_data, plaintext)
            } else {
                res matches Err(PqError::ExpectedPublicKey(t)) && t@ == h.key_type
            },
        }
    }
}

/// Seals the contents of a file for the recipient whose public key file has the text
/// `public_key_file`: an empty input is refused first, then the key is loaded, then the
/// contents are encrypted.
pub fn encrypt_file_contents(plaintext: &[u8], public_key_file: &str) -> (res: Result<
    SealedEnvelope,
    PqError,
>)
    ensures
        file_encryption_outcome(res, plaintext@, public_key_file@),
{
    if plaintext.len() == 0 {
        return Err(PqError::EmptyInput);
    }
    let recipient_key = match load_public_key(public_key_file) {
        Ok(k) => k,
        Err(e) => return Err(e),
    };
    encrypt_bytes(recipient_key.as_slice(), plaintext)
}

} // verus!
