use vstd::prelude::*;
use vstd::bytes::{
    spec_u32_from_le_bytes, spec_u32_to_le_bytes, spec_u64_from_le_bytes, spec_u64_to_le_bytes,
    u32_from_le_bytes, u32_to_le_bytes, u64_from_le_bytes, u64_to_le_bytes,
};
use vstd::bytes::{lemma_auto_spec_u32_to_from_le_bytes, lemma_auto_spec_u64_to_from_le_bytes};
use vstd::slice::slice_to_vec;
use crate::crypto::{NONCE_LEN, SALT_LEN};
use crate::error::PqError;

verus! {

/// The four magic bytes `PQGR` that open every envelope.
pub open spec fn magic() -> Seq<u8> {
    seq![0x50u8, 0x51u8, 0x47u8, 0x52u8]
}

/// The only envelope format version.
pub open spec fn format_version() -> u8 {
    1u8
}

/// The contents of an envelope as mathematical byte sequences.
pub struct EnvelopeView {
    pub kem_ciphertext: Seq<u8>,
    pub symmetric_nonce: Seq<u8>,
    pub salt: Seq<u8>,
    pub encrypted_data: Seq<u8>,
}

/// A sealed message: the KEM ciphertext that carries the shared secret, the nonce and
/// salt of the symmetric layer, and the AES-256-GCM ciphertext.
pub struct SealedEnvelope {
    pub kem_ciphertext: Vec<u8>,
    pub symmetric_nonce: [u8; NONCE_LEN],
    pub salt: [u8; SALT_LEN],
    pub encrypted_data: Vec<u8>,
}

impl View for SealedEnvelope {
    type V = EnvelopeView;

    open spec fn view(&self) -> EnvelopeView {
        EnvelopeView {
            kem_ciphertext: self.kem_ciphertext@,
            symmetric_nonce: self.symmetric_nonce@,
            salt: self.salt@,
            encrypted_data: self.encrypted_data@,
        }
    }
}

/// The wire encoding of an envelope: magic, version byte, little-endian `u32` length of
/// the KEM ciphertext, the KEM ciphertext, nonce, salt, little-endian `u64` length of
/// the encrypted data, the encrypted data.
pub open spec fn envelope_bytes(e: EnvelopeView) -> Seq<u8> {
    magic() + seq![format_version()]
        + spec_u32_to_le_bytes(e.kem_ciphertext.len() as u32)
        + e.kem_ciphertext
        + e.symmetric_nonce
        + e.salt
        + spec_u64_to_le_bytes(e.encrypted_data.len() as u64)
        + e.encrypted_data
}

/// Number of bytes of the encoding of an envelope whose variable parts have the given
/// lengths.
pub open spec fn envelope_len(kem_len: nat, data_len: nat) -> int {
    4 + 1 + 4 + kem_len + NONCE_LEN + SALT_LEN + 8 + data_len
}

/// Smallest input that can hold an envelope: magic, version, both length fields, nonce
/// and salt.
pub open spec fn min_envelope_len() -> int {
    4 + 1 + 4 + NONCE_LEN + SALT_LEN + 8
}

/// What parsing `data` gives: the envelope it encodes (bytes after the encrypted data
/// are ignored), or the first check it fails, in the order the fields are read.
pub open spec fn parse_envelope(data: Seq<u8>) -> Result<EnvelopeView, PqError> {
    let n = data.len() as int;
    if n < min_envelope_len() {
        Err(PqError::TooSmall)
    } else if data.subrange(0, 4) != magic() {
        Err(PqError::BadMagic)
    } else if data[4] != format_version() {
        Err(PqError::UnsupportedVersion)
    } else {
        let kem_len = spec_u32_from_le_bytes(data.subrange(5, 9)) as int;
        let nonce_at = 9 + kem_len;
        let salt_at = nonce_at + NONCE_LEN;
        let len_at = salt_at + SALT_LEN;
        let data_at = len_at + 8;
        if nonce_at > n {
            Err(PqError::TruncatedKemCiphertext)
        } else if salt_at > n {
            Err(PqError::TruncatedNonce)
        } else if len_at > n {
            Err(PqError::TruncatedSalt)
        } else if data_at > n {
            Err(PqError::TruncatedDataLength)
        } else {
            let data_len = spec_u64_from_le_bytes(data.subrange(len_at, data_at)) as int;
            if data_at + data_len > n {
                Err(PqError::TruncatedEncryptedData)
            } else {
                Ok(
                    EnvelopeView {
                        kem_ciphertext: data.subrange(9, nonce_at),
                        symmetric_nonce: data.subrange(nonce_at, salt_at),
                        salt: data.subrange(salt_at, len_at),
                        encrypted_data: data.subrange(data_at, data_at + data_len),
                    },
                )
            }
        }
    }
}

/// Copies `N` bytes of `data` starting at `at` into an array.
fn copy_array<const N: usize>(data: &[u8], at: usize) -> (out: [u8; N])
    requires
        at + N <= data@.len(),
    ensures
        out@ == data@.subrange(at as int, at + N),
{
    let mut out = [0u8; N];
    let mut i: usize = 0;
    while i < N
        invariant
            i <= N,
            at + N <= data.len(),
            out@.len() == N,
            forall|j: int| 0 <= j < i ==> out@[j] == data@[at + j],
        decreases N - i,
    {
        out[i] = data[at + i];
        i = i + 1;
    }
    assert(out@ =~= data@.subrange(at as int, at + N));
    out
}

impl SealedEnvelope {
    /// Parses an envelope from its wire encoding; trailing bytes after the encrypted
    /// data are ignored. Never panics, whatever the input.
    pub fn from_bytes(data: &[u8]) -> (res: Result<SealedEnvelope, PqError>)
        ensures
            match (res, parse_envelope(data@)) {
                (Ok(e), Ok(v)) => e@ == v,
                (Err(e), Err(v)) => e == v,
                _ => false,
            },
    {
        let n = data.len();
        if n < 4 + 1 + 4 + NONCE_LEN + SALT_LEN + 8 {
            return Err(PqError::TooSmall);
        }
        if !(data[0] == 0x50u8 && data[1] == 0x51u8 && data[2] == 0x47u8 && data[3] == 0x52u8) {
            assert(data@.subrange(0, 4) != magic()) by {
                if data@.subrange(0, 4) == magic() {
                    assert(data@.subrange(0, 4)[0] == data@[0]);
                    assert(data@.subrange(0, 4)[1] == data@[1]);
                    assert(data@.subrange(0, 4)[2] == data@[2]);
                    assert(data@.subrange(0, 4)[3] == data@[3]);
                }
            }
            return Err(PqError::BadMagic);
        }
        assert(data@.subrange(0, 4) =~= magic());
        if data[4] != 1u8 {
            return Err(PqError::UnsupportedVersion);
        }
        let kem_len: usize = u32_from_le_bytes(&data[5..9]) as usize;
        let mut pos: usize = 9;
        if kem_len > n - pos {
            return Err(PqError::TruncatedKemCiphertext);
        }
        let kem_ciphertext = slice_to_vec(&data[pos..pos + kem_len]);
        pos = pos + kem_len;
        if NONCE_LEN > n - pos {
            return Err(PqError::TruncatedNonce);
        }
        let symmetric_nonce: [u8; NONCE_LEN] = copy_array(data, pos);
        pos = pos + NONCE_LEN;
        if SALT_LEN > n - pos {
            return Err(PqError::TruncatedSalt);
        }
        let salt: [u8; SALT_LEN] = copy_array(data, pos);
        pos = pos + SALT_LEN;
        if 8 > n - pos {
            return Err(PqError::TruncatedDataLength);
        }
        let data_len: u64 = u64_from_le_bytes(&data[pos..pos + 8]);
        pos = pos + 8;
        if data_len > (n - pos) as u64 {
            return Err(PqError::TruncatedEncryptedData);
        }
        let data_len: usize = data_len as usize;
        let encrypted_data = slice_to_vec(&data[pos..pos + data_len]);
        Ok(SealedEnvelope { kem_ciphertext, symmetric_nonce, salt, encrypted_data })
    }

    /// Serialises the envelope into its wire encoding.
    pub fn to_bytes(&self) -> (out: Vec<u8>)
        requires
            envelope_len(self.kem_ciphertext@.len(), self.encrypted_data@.len()) <= usize::MAX,
        ensures
            out@ == envelope_bytes(self@),
    {
        let mut out: Vec<u8> = Vec::with_capacity(512);
        out.push(0x50u8);
        out.push(0x51u8);
        out.push(0x47u8);
        out.push(0x52u8);
        out.push(1u8);
        let kem_len: u32 = self.kem_ciphertext.len() as u32;
        out.extend_from_slice(u32_to_le_bytes(kem_len).as_slice());
        out.extend_from_slice(self.kem_ciphertext.as_slice());
        out.extend_from_slice(self.symmetric_nonce.as_slice());
        out.extend_from_slice(self.salt.as_slice());
        let data_len: u64 = self.encrypted_data.len() as u64;
        out.extend_from_slice(u64_to_le_bytes(data_len).as_slice());
        out.extend_from_slice(self.encrypted_data.as_slice());
        assert(out@ =~= envelope_bytes(self@));
        out
    }
}

/// An envelope whose nonce and salt have their fixed lengths and whose variable parts
/// have lengths that the two length fields can carry.
pub open spec fn envelope_well_formed(e: EnvelopeView) -> bool {
    &&& e.symmetric_nonce.len() == NONCE_LEN
    &&& e.salt.len() == SALT_LEN
    &&& e.kem_ciphertext.len() <= u32::MAX
    &&& e.encrypted_data.len() <= u64::MAX
}

/// Parsing the wire encoding of a well-formed envelope gives that envelope back.
pub proof fn lemma_envelope_roundtrip(e: EnvelopeView)
    requires
        envelope_well_formed(e),
    ensures
        parse_envelope(envelope_bytes(e)) == Ok::<EnvelopeView, PqError>(e),
{
    lemma_auto_spec_u32_to_from_le_bytes();
    lemma_auto_spec_u64_to_from_le_bytes();
    let b = envelope_bytes(e);
    let k = e.kem_ciphertext.len() as int;
    let d = e.encrypted_data.len() as int;
    let kl = spec_u32_to_le_bytes(e.kem_ciphertext.len() as u32);
    let dl = spec_u64_to_le_bytes(e.encrypted_data.len() as u64);
    assert(b.len() == 9 + k + 52 + d);
    assert(b.subrange(0, 4) =~= magic());
    assert(b[4] == format_version());
    assert(b.subrange(5, 9) =~= kl);
    assert(spec_u32_from_le_bytes(kl) as int == k);
    let nonce_at = 9 + k;
    let salt_at = nonce_at + 12;
    let len_at = salt_at + 32;
    let data_at = len_at + 8;
    assert(b.subrange(9, nonce_at) =~= e.kem_ciphertext);
    assert(b.subrange(nonce_at, salt_at) =~= e.symmetric_nonce);
    assert(b.subrange(salt_at, len_at) =~= e.salt);
    assert(b.subrange(len_at, data_at) =~= dl);
    assert(spec_u64_from_le_bytes(dl) as int == d);
    assert(b.subrange(data_at, data_at + d) =~= e.encrypted_data);
}

/// The wire encoding of an envelope is as long as its parts and the fixed header.
pub proof fn lemma_envelope_bytes_len(e: EnvelopeView)
    ensures
        envelope_bytes(e).len() == 4 + 1 + 4 + e.kem_ciphertext.len() + e.symmetric_nonce.len()
            + e.salt.len() + 8 + e.encrypted_data.len(),
{
    lemma_auto_spec_u32_to_from_le_bytes();
    lemma_auto_spec_u64_to_from_le_bytes();
}

/// Parsing the wire encoding of an envelope gives that envelope back, for every envelope
/// whose KEM ciphertext length fits the `u32` length field.
pub proof fn lemma_sealed_envelope_roundtrip(e: SealedEnvelope)
    requires
        e.kem_ciphertext@.len() <= u32::MAX,
    ensures
        parse_envelope(envelope_bytes(e@)) == Ok::<EnvelopeView, PqError>(e@),
{
    assert(e.encrypted_data@.len() == e.encrypted_data.len());
    lemma_envelope_roundtrip(e@);
}

/// The wire encoding is injective: two envelopes whose KEM ciphertext lengths fit the
/// `u32` length field and that encode to the same bytes are the same envelope.
pub proof fn lemma_envelope_bytes_injective(e1: SealedEnvelope, e2: SealedEnvelope)
    requires
        e1.kem_ciphertext@.len() <= u32::MAX,
        e2.kem_ciphertext@.len() <= u32::MAX,
        envelope_bytes(e1@) == envelope_bytes(e2@),
    ensures
        e1@ == e2@,
{
    lemma_sealed_envelope_roundtrip(e1);
    lemma_sealed_envelope_roundtrip(e2);
}

/// The byte layout of the wire encoding: `P`, `Q`, `G`, `R`, the version byte 1, the
/// KEM ciphertext length as a little-endian `u32`, the KEM ciphertext, the nonce, the salt,
/// the encrypted-data length as a little-endian `u64`, the encrypted data.
pub proof fn lemma_envelope_layout(e: EnvelopeView)
    requires
        envelope_well_formed(e),
    ensures
        ({
            let b = envelope_bytes(e);
            let k = e.kem_ciphertext.len() as int;
            let d = e.encrypted_data.len() as int;
            &&& b.len() == 4 + 1 + 4 + k + 12 + 32 + 8 + d
            &&& b.subrange(0, 5) == seq![0x50u8, 0x51u8, 0x47u8, 0x52u8, 0x01u8]
            &&& spec_u32_from_le_bytes(b.subrange(5, 9)) as int == k
            &&& b.subrange(9, 9 + k) == e.kem_ciphertext
            &&& b.subrange(9 + k, 21 + k) == e.symmetric_nonce
            &&& b.subrange(21 + k, 53 + k) == e.salt
            &&& spec_u64_from_le_bytes(b.subrange(53 + k, 61 + k)) as int == d
            &&& b.subrange(61 + k, 61 + k + d) == e.encrypted_data
        }),
{
    lemma_auto_spec_u32_to_from_le_bytes();
    lemma_auto_spec_u64_to_from_le_bytes();
    let b = envelope_bytes(e);
    let k = e.kem_ciphertext.len() as int;
    let d = e.encrypted_data.len() as int;
    assert(b.subrange(0, 5) =~= seq![0x50u8, 0x51u8, 0x47u8, 0x52u8, 0x01u8]);
    assert(b.subrange(5, 9) =~= spec_u32_to_le_bytes(e.kem_ciphertext.len() as u32));
    assert(b.subrange(9, 9 + k) =~= e.kem_ciphertext);
    assert(b.subrange(9 + k, 21 + k) =~= e.symmetric_nonce);
    assert(b.subrange(21 + k, 53 + k) =~= e.salt);
    assert(b.subrange(53 + k, 61 + k) =~= spec_u64_to_le_bytes(e.encrypted_data.len() as u64));
    assert(b.subrange(61 + k, 61 + k + d) =~= e.encrypted_data);
}

/// Input shorter than the fixed part of an envelope (61 bytes) is too small; input of at
/// least 61 bytes that does not start with `PQGR` is not an envelope; and with `PQGR`, a
/// version byte other than 1 is unsupported.
pub proof fn lemma_parse_envelope_header_checks(data: Seq<u8>)
    ensures
        data.len() < 61 ==> parse_envelope(data) == Err::<EnvelopeView, PqError>(PqError::TooSmall),
        data.len() >= 61 && data.subrange(0, 4) != seq![0x50u8, 0x51u8, 0x47u8, 0x52u8]
            ==> parse_envelope(data) == Err::<EnvelopeView, PqError>(PqError::BadMagic),
        data.len() >= 61 && data.subrange(0, 4) == seq![0x50u8, 0x51u8, 0x47u8, 0x52u8] && data[4]
            != 1u8 ==> parse_envelope(data) == Err::<EnvelopeView, PqError>(
            PqError::UnsupportedVersion,
        ),
{
}

} // verus!
