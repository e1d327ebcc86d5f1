//! The key-file text format:
//! line 1 `PQGUARD-PUBLIC-KEY` or `PQGUARD-PRIVATE-KEY`, line 2 the algorithm, line 3 the
//! base64-encoded key, line 4 (optional) the key's name.
use vstd::prelude::*;
use vstd::string::{StrSliceExecFns, StringExecFns};
use crate::error::PqError;
use crate::crypto::KEM_ALG;
use crate::keyfile::{lemma_base64_decode_encoding, lemma_base64_encode_shape};
use crate::primitives::{
    base64_decode, base64_encode, base64_encoded_len, base64_standard_decode, base64_standard_encode,
    is_base64_char,
};
use crate::text::{
    all_whitespace, is_whitespace, lemma_trim_append_whitespace, lemma_trim_surrounded,
    no_outer_whitespace,
    chars_of, contains_infix, has_infix, lemma_split_first_line, lemma_split_single,
    lemma_trim_unchanged, line_bounds, matches_at, newline, no_newline, split_lines, trim,
    trim_bounds,
};

verus! {

/// `PQGUARD-`, the start of every key file.
pub open spec fn key_file_prefix() -> Seq<char> {
    seq!['P', 'Q', 'G', 'U', 'A', 'R', 'D', '-']
}

/// `PUBLIC`, the marker of a public key file's type line.
pub open spec fn public_marker() -> Seq<char> {
    seq!['P', 'U', 'B', 'L', 'I', 'C']
}

/// `PRIVATE`, the marker of a private key file's type line.
pub open spec fn private_marker() -> Seq<char> {
    seq!['P', 'R', 'I', 'V', 'A', 'T', 'E']
}

/// `unknown`, the name of a key whose file has no name line.
pub open spec fn unknown_name() -> Seq<char> {
    seq!['u', 'n', 'k', 'n', 'o', 'w', 'n']
}

/// The header of a key file, as text and bytes.
pub struct KeyHeaderView {
    pub key_type: Seq<char>,
    pub algorithm: Seq<char>,
    pub key_data: Seq<u8>,
    pub name: Seq<char>,
}

/// The parsed header of a key file.
pub struct KeyHeader {
    pub key_type: String,
    pub algorithm: String,
    pub key_data: Vec<u8>,
    pub name: String,
}

impl View for KeyHeader {
    type V = KeyHeaderView;

    open spec fn view(&self) -> KeyHeaderView {
        KeyHeaderView {
            key_type: self.key_type@,
            algorithm: self.algorithm@,
            key_data: self.key_data@,
            name: self.name@,
        }
    }
}

/// What parsing the text of a key file gives: fewer than three lines is an invalid file;
/// the trimmed first line is the key type and must start with `PQGUARD-`; the trimmed
/// second line is the algorithm; the trimmed third line must be base64 and decodes to the
/// key; the trimmed fourth line, if any, is the name, else `unknown`.
pub open spec fn key_file_header(content: Seq<char>) -> Result<KeyHeaderView, PqError> {
    let lines = split_lines(content);
    if lines.len() < 3 {
        Err(PqError::InvalidKeyFile)
    } else if !key_file_prefix().is_prefix_of(trim(lines[0])) {
        Err(PqError::NotAKeyFile)
    } else {
        match base64_decode(trim(lines[2])) {
            None => Err(PqError::InvalidBase64),
            Some(key_data) => Ok(
                KeyHeaderView {
                    key_type: trim(lines[0]),
                    algorithm: trim(lines[1]),
                    key_data,
                    name: if lines.len() > 3 {
                        trim(lines[3])
                    } else {
                        unknown_name()
                    },
                },
            ),
        }
    }
}

fn prefix_chars() -> (v: Vec<char>)
    ensures
        v@ == key_file_prefix(),
{
    let v = vec!['P', 'Q', 'G', 'U', 'A', 'R', 'D', '-'];
    assert(v@ =~= key_file_prefix());
    v
}

/// Parses the text of a key file.
pub fn parse_key_text(content: &str) -> (res: Result<KeyHeader, PqError>)
    ensures
        match (res, key_file_header(content@)) {
            (Ok(h), Ok(v)) => h@ == v,
            (Err(e), Err(v)) => e == v,
            _ => false,
        },
{
    let chars = chars_of(content);
    let lines = line_bounds(&chars);
    let ghost ls = split_lines(content@);
    assert(ls.len() == lines@.len());
    if lines.len() < 3 {
        return Err(PqError::InvalidKeyFile);
    }
    assert(ls[0] == chars@.subrange(lines@[0].0 as int, lines@[0].1 as int));
    assert(ls[1] == chars@.subrange(lines@[1].0 as int, lines@[1].1 as int));
    assert(ls[2] == chars@.subrange(lines@[2].0 as int, lines@[2].1 as int));
    let (t0, t1) = trim_bounds(&chars, lines[0].0, lines[0].1);
    let prefix = prefix_chars();
    let is_key_file = t1 - t0 >= prefix.len() && matches_at(&chars, t0, &prefix);
    assert(is_key_file == key_file_prefix().is_prefix_of(trim(ls[0]))) by {
        let tt = chars@.subrange(t0 as int, t1 as int);
        if t1 - t0 >= prefix@.len() {
            assert(tt.subrange(0, prefix@.len() as int) =~= chars@.subrange(
                t0 as int,
                t0 + prefix@.len(),
            ));
            if key_file_prefix().is_prefix_of(tt) {
                assert(tt.subrange(0, prefix@.len() as int) =~= prefix@);
            }
            if is_key_file {
                assert forall|k: int| 0 <= k < prefix@.len() implies prefix@[k] == tt[k] by {
                    assert(chars@.subrange(t0 as int, t0 + prefix@.len())[k] == tt[k]);
                }
            }
        }
    }
    if !is_key_file {
        return Err(PqError::NotAKeyFile);
    }
    let key_type = String::from_str(content.substring_char(t0, t1));
    let (a0, a1) = trim_bounds(&chars, lines[1].0, lines[1].1);
    let algorithm = String::from_str(content.substring_char(a0, a1));
    let (k0, k1) = trim_bounds(&chars, lines[2].0, lines[2].1);
    let key_data = match base64_standard_decode(content.substring_char(k0, k1)) {
        Ok(bytes) => {
            proof {
                lemma_base64_decode_encoding(bytes@);
            }
            bytes
        },
        Err(_) => return Err(PqError::InvalidBase64),
    };
    let name = if lines.len() > 3 {
        assert(ls[3] == chars@.subrange(lines@[3].0 as int, lines@[3].1 as int));
        let (n0, n1) = trim_bounds(&chars, lines[3].0, lines[3].1);
        String::from_str(content.substring_char(n0, n1))
    } else {
        let unknown = String::from_str("unknown");
        proof {
            reveal_strlit("unknown");
        }
        assert(unknown@ =~= unknown_name());
        unknown
    };
    Ok(KeyHeader { key_type, algorithm, key_data, name })
}

/// What loading a key of the kind that `marker` names from a key file gives: the key data
/// when the file's type line contains the marker; otherwise the error that carries the
/// type line (`ExpectedPublicKey` for the public marker, `ExpectedPrivateKey` for the
/// private one); or the file's own parse error.
pub open spec fn key_load_matches(
    res: Result<Vec<u8>, PqError>,
    content: Seq<char>,
    marker: Seq<char>,
    public: bool,
) -> bool {
    match key_file_header(content) {
        Err(e) => res == Err::<Vec<u8>, PqError>(e),
        Ok(h) => if has_infix(h.key_type, marker) {
            res matches Ok(k) && k@ == h.key_data
        } else if public {
            res matches Err(PqError::ExpectedPublicKey(t)) && t@ == h.key_type
        } else {
            res matches Err(PqError::ExpectedPrivateKey(t)) && t@ == h.key_type
        },
    }
}

/// Loads a public key from the text of a key file.
pub fn load_public_key(content: &str) -> (res: Result<Vec<u8>, PqError>)
    ensures
        key_load_matches(res, content@, public_marker(), true),
{
    let header = match parse_key_text(content) {
        Ok(h) => h,
        Err(e) => return Err(e),
    };
    let marker = vec!['P', 'U', 'B', 'L', 'I', 'C'];
    assert(marker@ =~= public_marker());
    if !contains_infix(&chars_of(header.key_type.as_str()), &marker) {
        return Err(PqError::ExpectedPublicKey(header.key_type));
    }
    Ok(header.key_data)
}

/// Loads a private key from the text of a key file.
pub fn load_secret_key(content: &str) -> (res: Result<Vec<u8>, PqError>)
    ensures
        key_load_matches(res, content@, private_marker(), false),
{
    let header = match parse_key_text(content) {
        Ok(h) => h,
        Err(e) => return Err(e),
    };
    let marker = vec!['P', 'R', 'I', 'V', 'A', 'T', 'E'];
    assert(marker@ =~= private_marker());
    if !contains_infix(&chars_of(header.key_type.as_str()), &marker) {
        return Err(PqError::ExpectedPrivateKey(header.key_type));
    }
    Ok(header.key_data)
}

impl KeyHeader {
    /// Whether the key file is a private key file (its type line contains `PRIVATE`).
    pub fn is_private(&self) -> (b: bool)
        ensures
            b == has_infix(self.key_type@, private_marker()),
    {
        let marker = vec!['P', 'R', 'I', 'V', 'A', 'T', 'E'];
        assert(marker@ =~= private_marker());
        contains_infix(&chars_of(self.key_type.as_str()), &marker)
    }
}

/// The two kinds of key file.
pub enum KeyKind {
    Public,
    Private,
}

/// The type line of a key file of the given kind.
pub open spec fn key_type_line(kind: KeyKind) -> Seq<char> {
    match kind {
        KeyKind::Public => seq![
            'P', 'Q', 'G', 'U', 'A', 'R', 'D', '-', 'P', 'U', 'B', 'L', 'I', 'C', '-', 'K', 'E', 'Y',
        ],
        KeyKind::Private => seq![
            'P', 'Q', 'G', 'U', 'A', 'R', 'D', '-', 'P', 'R', 'I', 'V', 'A', 'T', 'E', '-', 'K', 'E',
            'Y',
        ],
    }
}

/// `ML-KEM-768`, the algorithm line of every key file.
pub open spec fn kem_alg_line() -> Seq<char> {
    seq!['M', 'L', '-', 'K', 'E', 'M', '-', '7', '6', '8']
}

/// The text of a key file: type line, algorithm line, the base64 text of the key, and
/// the name, separated by line feeds.
pub open spec fn key_file_spec(kind: KeyKind, b64: Seq<char>, name: Seq<char>) -> Seq<char> {
    key_type_line(kind) + seq![newline()] + kem_alg_line() + seq![newline()] + b64 + seq![
        newline(),
    ] + name
}

/// `b64` is a base64 text of `key`: made of alphabet and padding characters only, and
/// decoding to `key`.
pub open spec fn base64_text_of(b64: Seq<char>, key: Seq<u8>) -> bool {
    &&& base64_decode(b64) == Some(key)
    &&& forall|i: int| 0 <= i < b64.len() ==> is_base64_char(#[trigger] b64[i])
}

/// Formats the text of a key file of the given kind for `key` and `name`.
pub fn key_file_text(kind: KeyKind, key: &[u8], name: &str) -> (text: String)
    requires
        base64_encoded_len(key@.len()) <= usize::MAX,
    ensures
        text@ == key_file_spec(kind, base64_encode(key@), name@),
        base64_text_of(base64_encode(key@), key@),
{
    let mut text = match kind {
        KeyKind::Public => {
            let t = String::from_str("PQGUARD-PUBLIC-KEY");
            proof {
                reveal_strlit("PQGUARD-PUBLIC-KEY");
            }
            assert(t@ =~= key_type_line(KeyKind::Public));
            t
        },
        KeyKind::Private => {
            let t = String::from_str("PQGUARD-PRIVATE-KEY");
            proof {
                reveal_strlit("PQGUARD-PRIVATE-KEY");
            }
            assert(t@ =~= key_type_line(KeyKind::Private));
            t
        },
    };
    proof {
        reveal_strlit("\n");
        reveal_strlit("ML-KEM-768");
    }
    assert("\n"@ =~= seq![newline()]);
    assert(KEM_ALG@ =~= kem_alg_line());
    text.append("\n");
    text.append(KEM_ALG);
    text.append("\n");
    let b64 = base64_standard_encode(key);
    proof {
        lemma_base64_encode_shape(key@);
        lemma_base64_decode_encoding(key@);
    }
    text.append(b64.as_str());
    text.append("\n");
    text.append(name);
    assert(text@ =~= key_file_spec(kind, base64_encode(key@), name@));
    text
}

/// Parsing a key file's text gives back its type line, algorithm line and key; its name
/// is the trimmed name when that is a single non-empty line, and `unknown` when the name
/// is empty.
pub proof fn lemma_key_file_roundtrip(kind: KeyKind, b64: Seq<char>, key: Seq<u8>, name: Seq<char>)
    requires
        b64 == base64_encode(key),
    ensures
        key_file_header(key_file_spec(kind, b64, name)) matches Ok(h) && {
            &&& h.key_type == key_type_line(kind)
            &&& h.algorithm == kem_alg_line()
            &&& h.key_data == key
            &&& name.len() == 0 ==> h.name == unknown_name()
            &&& name.len() > 0 && no_newline(name) ==> h.name == trim(name)
        },
{
    lemma_base64_encode_shape(key);
    lemma_base64_decode_encoding(key);
    let t = key_type_line(kind);
    let a = kem_alg_line();
    let nl = seq![newline()];
    assert(no_newline(t));
    assert(no_newline(a));
    assert(no_newline(b64)) by {
        assert forall|k: int| 0 <= k < b64.len() implies #[trigger] b64[k] != newline() by {
            assert(is_base64_char(b64[k]));
        }
    }
    let text = key_file_spec(kind, b64, name);
    let rest2 = b64 + nl + name;
    let rest1 = a + nl + rest2;
    assert(text =~= t + nl + rest1);
    lemma_split_first_line(t, rest1);
    lemma_split_first_line(a, rest2);
    lemma_split_first_line(b64, name);
    let lines = split_lines(text);
    assert(lines =~= seq![t, a, b64] + split_lines(name));
    lemma_trim_unchanged(t);
    lemma_trim_unchanged(a);
    assert(trim(b64) == b64) by {
        if b64.len() > 0 {
            assert(is_base64_char(b64[0]));
            assert(is_base64_char(b64.last()));
        }
        lemma_trim_unchanged(b64);
    }
    assert(key_file_prefix().is_prefix_of(t));
    if no_newline(name) {
        lemma_split_single(name);
    }
    if name.len() == 0 {
        assert(name =~= Seq::<char>::empty());
        lemma_split_single(name);
    }
}

/// A public key file's type line contains `PUBLIC`; a private key file's contains
/// `PRIVATE`.
pub proof fn lemma_key_type_markers()
    ensures
        has_infix(key_type_line(KeyKind::Public), public_marker()),
        has_infix(key_type_line(KeyKind::Private), private_marker()),
{
    assert(key_type_line(KeyKind::Public).subrange(8, 8int + public_marker().len()) =~= public_marker());
    assert(key_type_line(KeyKind::Private).subrange(8, 8int + private_marker().len())
        =~= private_marker());
}

/// A key written with `key_file_text` is loaded back: loading a public key from a public
/// key file, or a private key from a private key file, gives the key, whatever the name.
pub proof fn lemma_load_written_key(
    kind: KeyKind,
    b64: Seq<char>,
    key: Seq<u8>,
    name: Seq<char>,
    res: Result<Vec<u8>, PqError>,
)
    requires
        b64 == base64_encode(key),
        key_load_matches(
            res,
            key_file_spec(kind, b64, name),
            if kind is Public {
                public_marker()
            } else {
                private_marker()
            },
            kind is Public,
        ),
    ensures
        res matches Ok(k) && k@ == key,
{
    lemma_key_file_roundtrip(kind, b64, key, name);
    lemma_key_type_markers();
}

/// `needle` does not occur in `s` when no occurrence of its first character is followed
/// by its second one.
proof fn lemma_no_infix_by_first_two(s: Seq<char>, needle: Seq<char>)
    requires
        needle.len() >= 2,
        forall|i: int|
            0 <= i < s.len() - 1 && #[trigger] s[i] == needle[0] ==> s[i + 1] != needle[1],
    ensures
        !has_infix(s, needle),
{
    assert forall|i: int|
        0 <= i && i + needle.len() <= s.len() implies #[trigger] s.subrange(i, i + needle.len())
        != needle by {
        let w = s.subrange(i, i + needle.len());
        assert(w[0] == s[i]);
        assert(w[1] == s[i + 1]);
    }
}

/// A private key file's type line does not contain `PUBLIC`, and a public key file's does
/// not contain `PRIVATE`.
pub proof fn lemma_key_type_markers_exclusive()
    ensures
        !has_infix(key_type_line(KeyKind::Private), public_marker()),
        !has_infix(key_type_line(KeyKind::Public), private_marker()),
{
    let s = key_type_line(KeyKind::Private);
    assert forall|i: int| 0 <= i < s.len() - 1 && #[trigger] s[i] == 'P' implies s[i + 1] != 'U' by {
        assert(i == 0 || i == 8);
    }
    lemma_no_infix_by_first_two(s, public_marker());
    let t = key_type_line(KeyKind::Public);
    assert forall|i: int| 0 <= i < t.len() - 1 && #[trigger] t[i] == 'P' implies t[i + 1] != 'R' by {
        assert(i == 0 || i == 8);
    }
    lemma_no_infix_by_first_two(t, private_marker());
}

/// Loading a key of the other kind fails: a public key from a private key file gives
/// `ExpectedPublicKey`, a private key from a public key file gives `ExpectedPrivateKey`,
/// each with the file's type line.
pub proof fn lemma_load_wrong_kind(
    kind: KeyKind,
    b64: Seq<char>,
    key: Seq<u8>,
    name: Seq<char>,
    res: Result<Vec<u8>, PqError>,
)
    requires
        b64 == base64_encode(key),
        key_load_matches(
            res,
            key_file_spec(kind, b64, name),
            if kind is Public {
                private_marker()
            } else {
                public_marker()
            },
            kind is Private,
        ),
    ensures
        kind is Private ==> (res matches Err(PqError::ExpectedPublicKey(t)) && t@
            == key_type_line(kind)),
        kind is Public ==> (res matches Err(PqError::ExpectedPrivateKey(t)) && t@
            == key_type_line(kind)),
{
    lemma_key_file_roundtrip(kind, b64, key, name);
    lemma_key_type_markers_exclusive();
}

/// Four lines of a key file joined by line feeds.
pub open spec fn lf_lines(l0: Seq<char>, l1: Seq<char>, l2: Seq<char>, l3: Seq<char>) -> Seq<char> {
    l0 + seq!['\n'] + l1 + seq!['\n'] + l2 + seq!['\n'] + l3
}

/// Four lines of a key file joined by carriage return and line feed.
pub open spec fn crlf_lines(l0: Seq<char>, l1: Seq<char>, l2: Seq<char>, l3: Seq<char>) -> Seq<char> {
    l0 + seq!['\r', '\n'] + l1 + seq!['\r', '\n'] + l2 + seq!['\r', '\n'] + l3
}

/// A key file parses the same with CRLF line endings as with LF line endings.
pub proof fn lemma_key_file_crlf(l0: Seq<char>, l1: Seq<char>, l2: Seq<char>, l3: Seq<char>)
    requires
        no_newline(l0),
        no_newline(l1),
        no_newline(l2),
    ensures
        key_file_header(crlf_lines(l0, l1, l2, l3)) == key_file_header(lf_lines(l0, l1, l2, l3)),
{
    let nl = seq![newline()];
    let r = seq!['\r'];
    let lf = lf_lines(l0, l1, l2, l3);
    assert(lf =~= l0 + nl + (l1 + nl + (l2 + nl + l3)));
    lemma_split_first_line(l0, l1 + nl + (l2 + nl + l3));
    lemma_split_first_line(l1, l2 + nl + l3);
    lemma_split_first_line(l2, l3);
    assert(split_lines(lf) =~= seq![l0, l1, l2] + split_lines(l3));
    let crlf = crlf_lines(l0, l1, l2, l3);
    let c0 = l0 + r;
    let c1 = l1 + r;
    let c2 = l2 + r;
    assert(crlf =~= c0 + nl + (c1 + nl + (c2 + nl + l3)));
    assert(no_newline(c0)) by {
        assert forall|k: int| 0 <= k < c0.len() implies #[trigger] c0[k] != newline() by {
            if k < l0.len() {
                assert(c0[k] == l0[k]);
            }
        }
    }
    assert(no_newline(c1)) by {
        assert forall|k: int| 0 <= k < c1.len() implies #[trigger] c1[k] != newline() by {
            if k < l1.len() {
                assert(c1[k] == l1[k]);
            }
        }
    }
    assert(no_newline(c2)) by {
        assert forall|k: int| 0 <= k < c2.len() implies #[trigger] c2[k] != newline() by {
            if k < l2.len() {
                assert(c2[k] == l2[k]);
            }
        }
    }
    lemma_split_first_line(c0, c1 + nl + (c2 + nl + l3));
    lemma_split_first_line(c1, c2 + nl + l3);
    lemma_split_first_line(c2, l3);
    assert(split_lines(crlf) =~= seq![c0, c1, c2] + split_lines(l3));
    assert(is_whitespace('\r'));
    lemma_trim_append_whitespace(l0, '\r');
    lemma_trim_append_whitespace(l1, '\r');
    lemma_trim_append_whitespace(l2, '\r');
}

/// The key of a key file is the base64 decoding of its third line without the white space
/// around it: with the third line `u + k + v` (`u`, `v` white space, `k` not starting or
/// ending with white space) and a valid type line, parsing fails with `InvalidBase64`
/// exactly when `k` does not decode, and otherwise gives `k`'s decoding as the key.
pub proof fn lemma_key_file_key_line(
    l0: Seq<char>,
    l1: Seq<char>,
    u: Seq<char>,
    k: Seq<char>,
    v: Seq<char>,
    l3: Seq<char>,
)
    requires
        no_newline(l0),
        no_newline(l1),
        no_newline(u + k + v),
        all_whitespace(u),
        all_whitespace(v),
        no_outer_whitespace(k),
        key_file_prefix().is_prefix_of(trim(l0)),
    ensures
        base64_decode(k) is None ==> key_file_header(lf_lines(l0, l1, u + k + v, l3))
            == Err::<KeyHeaderView, PqError>(PqError::InvalidBase64),
        base64_decode(k) matches Some(d) ==> (key_file_header(lf_lines(l0, l1, u + k + v, l3))
            matches Ok(h) && h.key_data == d),
{
    let nl = seq![newline()];
    let l2 = u + k + v;
    let lf = lf_lines(l0, l1, l2, l3);
    assert(lf =~= l0 + nl + (l1 + nl + (l2 + nl + l3)));
    lemma_split_first_line(l0, l1 + nl + (l2 + nl + l3));
    lemma_split_first_line(l1, l2 + nl + l3);
    lemma_split_first_line(l2, l3);
    assert(split_lines(lf) =~= seq![l0, l1, l2] + split_lines(l3));
    lemma_trim_surrounded(u, k, v);
}

/// The words of the key-file format: a public key file starts
/// `PQGUARD-PUBLIC-KEY\nML-KEM-768\n`, a private one `PQGUARD-PRIVATE-KEY\nML-KEM-768\n`;
/// the key's base64 text and the name follow on their own lines.
pub proof fn lemma_key_file_format_words(b64: Seq<char>, name: Seq<char>)
    ensures
        key_file_spec(KeyKind::Public, b64, name) == seq![
            'P', 'Q', 'G', 'U', 'A', 'R', 'D', '-', 'P', 'U', 'B', 'L', 'I', 'C', '-', 'K', 'E', 'Y',
            '\n', 'M', 'L', '-', 'K', 'E', 'M', '-', '7', '6', '8', '\n',
        ] + b64 + seq!['\n'] + name,
        key_file_spec(KeyKind::Private, b64, name) == seq![
            'P', 'Q', 'G', 'U', 'A', 'R', 'D', '-', 'P', 'R', 'I', 'V', 'A', 'T', 'E', '-', 'K', 'E',
            'Y', '\n', 'M', 'L', '-', 'K', 'E', 'M', '-', '7', '6', '8', '\n',
        ] + b64 + seq!['\n'] + name,
{
    assert(key_file_spec(KeyKind::Public, b64, name) =~= seq![
        'P', 'Q', 'G', 'U', 'A', 'R', 'D', '-', 'P', 'U', 'B', 'L', 'I', 'C', '-', 'K', 'E', 'Y',
        '\n', 'M', 'L', '-', 'K', 'E', 'M', '-', '7', '6', '8', '\n',
    ] + b64 + seq!['\n'] + name);
    assert(key_file_spec(KeyKind::Private, b64, name) =~= seq![
        'P', 'Q', 'G', 'U', 'A', 'R', 'D', '-', 'P', 'R', 'I', 'V', 'A', 'T', 'E', '-', 'K', 'E',
        'Y', '\n', 'M', 'L', '-', 'K', 'E', 'M', '-', '7', '6', '8', '\n',
    ] + b64 + seq!['\n'] + name);
}

} // verus!
