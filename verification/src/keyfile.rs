//! Keys as base64 text, for exchanging them in memory.
use vstd::prelude::*;
use vstd::string::StrSliceExecFns;
use crate::crypto::bytes_result;
use crate::error::PqError;
use crate::keygen::base64_text_of;
use crate::primitives::{
    base64_digit, base64_decode, base64_encode, base64_encoded_len, base64_standard_decode, base64_standard_encode,
    is_base64_char,
};
use crate::text::{
    all_whitespace, chars_of, lemma_trim_surrounded, lemma_trim_unchanged, no_outer_whitespace, trim,
    trim_bounds,
};

pub use crate::keygen::{load_public_key, load_secret_key};

verus! {

/// Encodes raw key bytes as standard base64 text.
pub fn encode_key(data: &[u8]) -> (text: String)
    requires
        base64_encoded_len(data@.len()) <= usize::MAX,
    ensures
        text@ == base64_encode(data@),
        text@.len() == base64_encoded_len(data@.len()),
        base64_text_of(text@, data@),
{
    let text = base64_standard_encode(data);
    proof {
        lemma_base64_encode_shape(data@);
        lemma_base64_decode_encoding(data@);
    }
    text
}

/// What decoding key text gives: the base64 decoding of the text without its surrounding
/// white space, or `InvalidBase64`.
pub open spec fn decoded_key(text: Seq<char>) -> Result<Seq<u8>, PqError> {
    match base64_decode(trim(text)) {
        Some(bytes) => Ok(bytes),
        None => Err(PqError::InvalidBase64),
    }
}

/// Decodes base64 key text, ignoring white space around it.
pub fn decode_key(encoded: &str) -> (res: Result<Vec<u8>, PqError>)
    ensures
        bytes_result(res) == decoded_key(encoded@),
{
    let chars = chars_of(encoded);
    let (lo, hi) = trim_bounds(&chars, 0, chars.len());
    assert(chars@.subrange(0, chars@.len() as int) =~= chars@);
    match base64_standard_decode(encoded.substring_char(lo, hi)) {
        Ok(bytes) => {
            proof {
                lemma_base64_decode_encoding(bytes@);
            }
            Ok(bytes)
        },
        Err(_) => Err(PqError::InvalidBase64),
    }
}

/// Key text decodes back to the key it encodes: the text that `encode_key` returns for
/// `data`, the standard encoding of `data`, decodes to `data` with `decode_key`.
pub proof fn lemma_decode_encoded_key(data: Seq<u8>)
    ensures
        decoded_key(base64_encode(data)) == Ok::<Seq<u8>, PqError>(data),
{
    let text = base64_encode(data);
    lemma_base64_encode_shape(data);
    lemma_base64_decode_encoding(data);
    if text.len() > 0 {
        assert(is_base64_char(text[0]));
        assert(is_base64_char(text.last()));
    }
    lemma_trim_unchanged(text);
}

/// Every character of the standard base64 alphabet is an alphabet character, and none is
/// the padding character `=`.
pub proof fn lemma_base64_digit(v: int)
    requires
        0 <= v < 64,
    ensures
        is_base64_char(base64_digit(v)),
        base64_digit(v) != '=',
{
}

/// Distinct 6-bit values have distinct characters.
pub proof fn lemma_base64_digit_injective(v: int, w: int)
    requires
        0 <= v < 64,
        0 <= w < 64,
        base64_digit(v) == base64_digit(w),
    ensures
        v == w,
{
    assert(base64_digit(v) as u32 == base64_digit(w) as u32);
}

/// The 6-bit values of a group of three bytes give the bytes back.
proof fn lemma_base64_group_values(a: int, b: int, c: int, x: int, y: int, z: int)
    requires
        0 <= a < 256,
        0 <= b < 256,
        0 <= c < 256,
        0 <= x < 256,
        0 <= y < 256,
        0 <= z < 256,
        a / 4 == x / 4,
        (a % 4) * 16 + b / 16 == (x % 4) * 16 + y / 16,
        (b % 16) * 4 + c / 64 == (y % 16) * 4 + z / 64,
        c % 64 == z % 64,
    ensures
        a == x,
        b == y,
        c == z,
{
}

/// The 6-bit values of a final group of two bytes give the bytes back.
proof fn lemma_base64_pair_values(a: int, b: int, x: int, y: int)
    requires
        0 <= a < 256,
        0 <= b < 256,
        0 <= x < 256,
        0 <= y < 256,
        a / 4 == x / 4,
        (a % 4) * 16 + b / 16 == (x % 4) * 16 + y / 16,
        (b % 16) * 4 == (y % 16) * 4,
    ensures
        a == x,
        b == y,
{
}

/// The 6-bit values of a final single byte give the byte back.
proof fn lemma_base64_single_value(a: int, x: int)
    requires
        0 <= a < 256,
        0 <= x < 256,
        a / 4 == x / 4,
        (a % 4) * 16 == (x % 4) * 16,
    ensures
        a == x,
{
}

/// The standard padded base64 encoding of `data` has 4 characters per started group of 3
/// bytes, all of them alphabet or padding characters.
pub proof fn lemma_base64_encode_shape(data: Seq<u8>)
    ensures
        base64_encode(data).len() == base64_encoded_len(data.len()),
        forall|i: int|
            0 <= i < base64_encode(data).len() ==> is_base64_char(#[trigger] base64_encode(data)[i]),
    decreases data.len(),
{
    if data.len() == 0 {
    } else if data.len() == 1 {
        let a = data[0] as int;
        lemma_base64_digit(a / 4);
        lemma_base64_digit((a % 4) * 16);
        assert(is_base64_char('='));
    } else if data.len() == 2 {
        let a = data[0] as int;
        let b = data[1] as int;
        lemma_base64_digit(a / 4);
        lemma_base64_digit((a % 4) * 16 + b / 16);
        lemma_base64_digit((b % 16) * 4);
        assert(is_base64_char('='));
    } else {
        let a = data[0] as int;
        let b = data[1] as int;
        let c = data[2] as int;
        lemma_base64_digit(a / 4);
        lemma_base64_digit((a % 4) * 16 + b / 16);
        lemma_base64_digit((b % 16) * 4 + c / 64);
        lemma_base64_digit(c % 64);
        let rest = data.subrange(3, data.len() as int);
        lemma_base64_encode_shape(rest);
        let head = seq![
            base64_digit(a / 4),
            base64_digit((a % 4) * 16 + b / 16),
            base64_digit((b % 16) * 4 + c / 64),
            base64_digit(c % 64),
        ];
        assert(base64_encode(data) == head + base64_encode(rest));
        assert forall|i: int|
            0 <= i < base64_encode(data).len() implies is_base64_char(
            #[trigger] base64_encode(data)[i],
        ) by {
            if i >= 4 {
                assert(base64_encode(data)[i] == base64_encode(rest)[i - 4]);
            }
        }
    }
}

/// The first four characters of the encoding of non-empty `data`: the 6-bit values of
/// its first group of up to three bytes, padded with `=`.
proof fn lemma_base64_first_group(d: Seq<u8>)
    requires
        d.len() > 0,
    ensures
        base64_encode(d).len() >= 4,
        base64_encode(d)[0] == base64_digit(d[0] as int / 4),
        base64_encode(d)[1] == base64_digit(
            (d[0] as int % 4) * 16 + (if d.len() >= 2 {
                d[1] as int / 16
            } else {
                0
            }),
        ),
        base64_encode(d)[2] == (if d.len() == 1 {
            '='
        } else {
            base64_digit(
                (d[1] as int % 16) * 4 + (if d.len() >= 3 {
                    d[2] as int / 64
                } else {
                    0
                }),
            )
        }),
        base64_encode(d)[3] == (if d.len() <= 2 {
            '='
        } else {
            base64_digit(d[2] as int % 64)
        }),
{
}

/// The standard padded base64 encoding is injective: two byte sequences with the same
/// encoding are equal.
pub proof fn lemma_base64_encode_injective(d1: Seq<u8>, d2: Seq<u8>)
    requires
        base64_encode(d1) == base64_encode(d2),
    ensures
        d1 == d2,
    decreases d1.len(),
{
    lemma_base64_encode_shape(d1);
    lemma_base64_encode_shape(d2);
    let e = base64_encode(d1);
    if d1.len() == 0 || d2.len() == 0 {
        assert(d1.len() == 0 && d2.len() == 0);
        assert(d1 =~= d2);
        return;
    }
    lemma_base64_first_group(d1);
    lemma_base64_first_group(d2);
    let a = d1[0] as int;
    let x = d2[0] as int;
    let b = if d1.len() >= 2 { d1[1] as int } else { 0 };
    let y = if d2.len() >= 2 { d2[1] as int } else { 0 };
    let c = if d1.len() >= 3 { d1[2] as int } else { 0 };
    let z = if d2.len() >= 3 { d2[2] as int } else { 0 };
    // The padding tells how many bytes the first group holds.
    lemma_base64_digit((b % 16) * 4 + c / 64);
    lemma_base64_digit((y % 16) * 4 + z / 64);
    lemma_base64_digit(c % 64);
    lemma_base64_digit(z % 64);
    assert(d1.len() == 1 <==> d2.len() == 1);
    assert(d1.len() <= 2 <==> d2.len() <= 2);
    lemma_base64_digit_injective(a / 4, x / 4);
    lemma_base64_digit_injective((a % 4) * 16 + b / 16, (x % 4) * 16 + y / 16);
    if d1.len() == 1 {
        lemma_base64_single_value(a, x);
        assert(d1 =~= d2);
    } else if d1.len() == 2 {
        lemma_base64_digit_injective((b % 16) * 4, (y % 16) * 4);
        lemma_base64_pair_values(a, b, x, y);
        assert(d1 =~= d2);
    } else {
        lemma_base64_digit_injective((b % 16) * 4 + c / 64, (y % 16) * 4 + z / 64);
        lemma_base64_digit_injective(c % 64, z % 64);
        lemma_base64_group_values(a, b, c, x, y, z);
        let r1 = d1.subrange(3, d1.len() as int);
        let r2 = d2.subrange(3, d2.len() as int);
        assert(base64_encode(r1) =~= e.subrange(4, e.len() as int));
        assert(base64_encode(r2) =~= e.subrange(4, e.len() as int));
        lemma_base64_encode_injective(r1, r2);
        assert(d1 =~= d2) by {
            assert forall|i: int| 0 <= i < d1.len() implies d1[i] == d2[i] by {
                if i >= 3 {
                    assert(d1[i] == r1[i - 3]);
                    assert(d2[i] == r2[i - 3]);
                }
            }
        }
    }
}

/// Decoding the encoding of `data` gives `data`.
pub proof fn lemma_base64_decode_encoding(data: Seq<u8>)
    ensures
        base64_decode(base64_encode(data)) == Some(data),
{
    let text = base64_encode(data);
    assert(exists|d: Seq<u8>| base64_encode(d) == text);
    let d = choose|d: Seq<u8>| base64_encode(d) == text;
    lemma_base64_encode_injective(d, data);
}

/// Decoding key text ignores any run of white space on either side: text `s` whose ends
/// are not white space, surrounded by white space `u` and `v`, decodes as `s` does with
/// the base64 decoding.
pub proof fn lemma_decode_key_ignores_whitespace(u: Seq<char>, s: Seq<char>, v: Seq<char>)
    requires
        all_whitespace(u),
        all_whitespace(v),
        no_outer_whitespace(s),
    ensures
        decoded_key(u + s + v) == match base64_decode(s) {
            Some(bytes) => Ok::<Seq<u8>, PqError>(bytes),
            None => Err::<Seq<u8>, PqError>(PqError::InvalidBase64),
        },
{
    lemma_trim_surrounded(u, s, v);
}

/// The encoding of `data`, with any white space around it (a line ending, indentation),
/// decodes to `data`.
pub proof fn lemma_decode_padded_encoding(u: Seq<char>, data: Seq<u8>, v: Seq<char>)
    requires
        all_whitespace(u),
        all_whitespace(v),
    ensures
        decoded_key(u + base64_encode(data) + v) == Ok::<Seq<u8>, PqError>(data),
{
    let text = base64_encode(data);
    lemma_base64_encode_shape(data);
    lemma_base64_decode_encoding(data);
    if text.len() > 0 {
        assert(is_base64_char(text[0]));
        assert(is_base64_char(text.last()));
    }
    lemma_decode_key_ignores_whitespace(u, text, v);
}

} // verus!
