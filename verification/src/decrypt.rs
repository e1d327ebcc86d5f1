//! Opening an envelope read from an encrypted file.
use vstd::prelude::*;
use crate::crypto::{
    bytes_result, decrypt_bytes, lemma_decrypt_encrypted, opening_result, recovers_encapsulation,
    SealedEnvelope,
};
use crate::encrypt::file_encryption_outcome;
use crate::envelope::{envelope_bytes, parse_envelope, EnvelopeView};
use crate::keygen::{
    key_file_spec, lemma_key_file_roundtrip, lemma_key_type_markers, KeyKind,
};
use crate::primitives::{base64_encode, AES_GCM_P_MAX, MLKEM768_DK_LEN};
use crate::error::PqError;
use crate::keygen::{key_file_header, load_secret_key, private_marker};
use crate::text::has_infix;

verus! {

/// What opening `envelope` with the private key file whose text is `private_key_file`
/// may give: the key file's error, or the outcome of opening with the loaded key.
pub open spec fn file_decryption_outcome(
    res: Result<Vec<u8>, PqError>,
    envelope: EnvelopeView,
    private_key_file: Seq<char>,
) -> bool {
    match key_file_header(private_key_file) {
        Err(e) => res == Err::<Vec<u8>, PqError>(e),
        Ok(h) => if has_infix(h.key_type, private_marker()) {
            bytes_result(res) == opening_result(h.key_data, envelope)
        } else {
            res matches Err(PqError::ExpectedPrivateKey(t)) && t@ == h.key_type
        },
    }
}

/// Opens an envelope parsed from an encrypted file with the private key file whose text
/// is `private_key_file`: the key is loaded, then the envelope is opened.
pub fn decrypt_file_contents(envelope: &SealedEnvelope, private_key_file: &str) -> (res: Result<
    Vec<u8>,
    PqError,
>)
    ensures
        file_decryption_outcome(res, envelope@, private_key_file@),
{
    let secret_key = match load_secret_key(private_key_file) {
        Ok(k) => k,
        Err(e) => return Err(e),
    };
    decrypt_bytes(secret_key.as_slice(), envelope)
}

/// Decrypting an encrypted file gives its contents back: a non-empty input sealed with
/// the public key file of `ek` yields an envelope whose wire encoding parses back to it,
/// and which the private key file of `dk` opens to the input, when `dk` recovers the
/// secret encapsulated in the envelope. The key files may carry any names.
pub proof fn lemma_file_roundtrip(
    ek_text: Seq<char>,
    ek: Seq<u8>,
    dk_text: Seq<char>,
    dk: Seq<u8>,
    public_name: Seq<char>,
    private_name: Seq<char>,
    plaintext: Seq<u8>,
    sealed: Result<SealedEnvelope, PqError>,
    opened: Result<Vec<u8>, PqError>,
)
    requires
        ek_text == base64_encode(ek),
        dk_text == base64_encode(dk),
        dk.len() == MLKEM768_DK_LEN,
        ek.len() == crate::primitives::MLKEM768_EK_LEN,
        0 < plaintext.len() <= AES_GCM_P_MAX,
        file_encryption_outcome(
            sealed,
            plaintext,
            key_file_spec(KeyKind::Public, ek_text, public_name),
        ),
        sealed matches Ok(env) ==> {
            &&& recovers_encapsulation(dk, ek, env.kem_ciphertext@)
            &&& file_decryption_outcome(
                opened,
                env@,
                key_file_spec(KeyKind::Private, dk_text, private_name),
            )
        },
    ensures
        sealed matches Ok(env) && parse_envelope(envelope_bytes(env@)) == Ok::<
            EnvelopeView,
            PqError,
        >(env@),
        opened matches Ok(p) && p@ == plaintext,
{
    lemma_key_file_roundtrip(KeyKind::Public, ek_text, ek, public_name);
    lemma_key_file_roundtrip(KeyKind::Private, dk_text, dk, private_name);
    lemma_key_type_markers();
    lemma_decrypt_encrypted(ek, dk, plaintext, sealed);
}

} // verus!
