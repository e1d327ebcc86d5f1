use vstd::prelude::*;

verus! {

broadcast use vstd::string::group_string_axioms;

/// The characters of `s`, in order.
pub fn chars_of(s: &str) -> (out: Vec<char>)
    ensures
        out@ == s@,
{
    let mut out: Vec<char> = Vec::new();
    for c in it: s.chars()
        invariant
            out@ == it.seq().take(it.index() as int),
    {
        out.push(c);
    }
    assert(out@ =~= s@);
    out
}

/// Unicode `White_Space` characters, the set that `char::is_whitespace` and `str::trim`
/// use.
pub open spec fn is_whitespace(c: char) -> bool {
    let u = c as u32;
    ||| 0x09 <= u <= 0x0d
    ||| u == 0x20
    ||| u == 0x85
    ||| u == 0xa0
    ||| u == 0x1680
    ||| 0x2000 <= u <= 0x200a
    ||| u == 0x2028
    ||| u == 0x2029
    ||| u == 0x202f
    ||| u == 0x205f
    ||| u == 0x3000
}

/// Whether `c` is a Unicode white-space character.
pub fn char_is_whitespace(c: char) -> (b: bool)
    ensures
        b == is_whitespace(c),
{
    let u = c as u32;
    (0x09 <= u && u <= 0x0d) || u == 0x20 || u == 0x85 || u == 0xa0 || u == 0x1680 || (0x2000
        <= u && u <= 0x200a) || u == 0x2028 || u == 0x2029 || u == 0x202f || u == 0x205f || u
        == 0x3000
}

/// `s` without its leading white space.
pub open spec fn trim_start(s: Seq<char>) -> Seq<char>
    decreases s.len(),
{
    if s.len() > 0 && is_whitespace(s[0]) {
        trim_start(s.drop_first())
    } else {
        s
    }
}

/// `s` without its trailing white space.
pub open spec fn trim_end(s: Seq<char>) -> Seq<char>
    decreases s.len(),
{
    if s.len() > 0 && is_whitespace(s.last()) {
        trim_end(s.drop_last())
    } else {
        s
    }
}

/// `s` without leading and trailing white space, as `str::trim` gives it.
pub open spec fn trim(s: Seq<char>) -> Seq<char> {
    trim_end(trim_start(s))
}

/// The bounds of `trim(v[start..end])` within `v`.
pub fn trim_bounds(v: &Vec<char>, start: usize, end: usize) -> (r: (usize, usize))
    requires
        start <= end <= v@.len(),
    ensures
        start <= r.0 <= r.1 <= end,
        v@.subrange(r.0 as int, r.1 as int) == trim(v@.subrange(start as int, end as int)),
{
    let mut lo = start;
    while lo < end && char_is_whitespace(v[lo])
        invariant
            start <= lo <= end <= v@.len(),
            trim_start(v@.subrange(start as int, end as int)) == trim_start(
                v@.subrange(lo as int, end as int),
            ),
        decreases end - lo,
    {
        assert(v@.subrange(lo as int, end as int).drop_first() =~= v@.subrange(
            lo + 1,
            end as int,
        ));
        lo = lo + 1;
    }
    assert(trim_start(v@.subrange(lo as int, end as int)) == v@.subrange(lo as int, end as int));
    let mut hi = end;
    while hi > lo && char_is_whitespace(v[hi - 1])
        invariant
            start <= lo <= hi <= end <= v@.len(),
            trim_end(v@.subrange(lo as int, end as int)) == trim_end(
                v@.subrange(lo as int, hi as int),
            ),
        decreases hi - lo,
    {
        assert(v@.subrange(lo as int, hi as int).drop_last() =~= v@.subrange(
            lo as int,
            hi - 1,
        ));
        hi = hi - 1;
    }
    (lo, hi)
}

/// The line feed that separates lines.
pub open spec fn newline() -> char {
    '\n'
}

/// The lines of `s[start..]` when the line being read began at `start` and `s[start..i]`
/// holds no line feed: each line is the text between two line feeds, and a last line
/// without a line feed counts only when it is not empty.
pub open spec fn lines_from(s: Seq<char>, i: int, start: int) -> Seq<Seq<char>>
    decreases s.len() - i,
{
    if i >= s.len() {
        if start < s.len() {
            seq![s.subrange(start, s.len() as int)]
        } else {
            seq![]
        }
    } else if s[i] == newline() {
        seq![s.subrange(start, i)] + lines_from(s, i + 1, i + 1)
    } else {
        lines_from(s, i + 1, start)
    }
}

/// The lines of `s`, split at line feeds as `str::lines` splits them (a carriage return
/// before a line feed stays part of its line; every caller trims the lines it reads).
pub open spec fn split_lines(s: Seq<char>) -> Seq<Seq<char>> {
    lines_from(s, 0, 0)
}

/// The text that a list of bounds picks out of `v`.
pub open spec fn pick(v: Seq<char>, bounds: Seq<(usize, usize)>) -> Seq<Seq<char>> {
    bounds.map_values(|b: (usize, usize)| v.subrange(b.0 as int, b.1 as int))
}

/// Bounds that lie within a sequence of length `len`.
pub open spec fn bounds_within(bounds: Seq<(usize, usize)>, len: nat) -> bool {
    forall|k: int| 0 <= k < bounds.len() ==> #[trigger] bounds[k].0 <= bounds[k].1 <= len
}

/// The bounds of the lines of `v`.
pub fn line_bounds(v: &Vec<char>) -> (r: Vec<(usize, usize)>)
    ensures
        bounds_within(r@, v@.len()),
        pick(v@, r@) == split_lines(v@),
{
    let mut r: Vec<(usize, usize)> = Vec::new();
    let mut start: usize = 0;
    let mut i: usize = 0;
    while i < v.len()
        invariant
            start <= i <= v@.len(),
            bounds_within(r@, v@.len()),
            pick(v@, r@) + lines_from(v@, i as int, start as int) == split_lines(v@),
        decreases v@.len() - i,
    {
        if v[i] == '\n' {
            let ghost old_r = r@;
            r.push((start, i));
            assert(pick(v@, r@) =~= pick(v@, old_r).push(v@.subrange(start as int, i as int)));
            assert(pick(v@, old_r) + lines_from(v@, i as int, start as int) =~= pick(v@, r@)
                + lines_from(v@, i + 1, i + 1));
            start = i + 1;
        }
        i = i + 1;
    }
    if start < v.len() {
        let ghost old_r = r@;
        r.push((start, v.len()));
        assert(pick(v@, r@) =~= pick(v@, old_r).push(v@.subrange(start as int, v@.len() as int)));
    }
    assert(pick(v@, r@) =~= split_lines(v@));
    r
}

/// Whether `p` occurs in `s` as a run of consecutive characters.
pub open spec fn has_infix(s: Seq<char>, p: Seq<char>) -> bool {
    exists|i: int| 0 <= i && i + p.len() <= s.len() && #[trigger] s.subrange(i, i + p.len()) == p
}

/// Whether `v[at..at + p.len()]` equals `p`.
pub fn matches_at(v: &Vec<char>, at: usize, p: &Vec<char>) -> (b: bool)
    requires
        at + p@.len() <= v@.len(),
    ensures
        b == (v@.subrange(at as int, at + p@.len()) == p@),
{
    let mut j: usize = 0;
    while j < p.len()
        invariant
            j <= p@.len(),
            at + p.len() <= v.len(),
            forall|k: int| 0 <= k < j ==> v@[at + k] == p@[k],
        decreases p@.len() - j,
    {
        if v[at + j] != p[j] {
            assert(v@.subrange(at as int, at + p@.len())[j as int] != p@[j as int]);
            return false;
        }
        j = j + 1;
    }
    assert(v@.subrange(at as int, at + p@.len()) =~= p@);
    true
}

/// Whether `p` occurs in `v`.
pub fn contains_infix(v: &Vec<char>, p: &Vec<char>) -> (b: bool)
    ensures
        b == has_infix(v@, p@),
{
    if p.len() > v.len() {
        return false;
    }
    if p.len() == 0 {
        assert(v@.subrange(0, 0int + p@.len()) =~= p@);
        return true;
    }
    let mut i: usize = 0;
    while i <= v.len() - p.len()
        invariant
            1 <= p@.len() <= v@.len(),
            i <= v@.len() - p@.len() + 1,
            forall|k: int| 0 <= k < i ==> #[trigger] v@.subrange(k, k + p@.len()) != p@,
        decreases v@.len() - p@.len() + 1 - i,
    {
        if matches_at(v, i, p) {
            assert(v@.subrange(i as int, i + p@.len()) == p@);
            return true;
        }
        i = i + 1;
    }
    false
}

/// Whether `v` begins with `p`.
pub fn starts_with(v: &Vec<char>, p: &Vec<char>) -> (b: bool)
    ensures
        b == p@.is_prefix_of(v@),
{
    if p.len() > v.len() {
        return false;
    }
    let b = matches_at(v, 0, p);
    assert(b == p@.is_prefix_of(v@)) by {
        if b {
            assert forall|k: int| 0 <= k < p@.len() implies p@[k] == v@[k] by {
                assert(v@.subrange(0, p@.len() as int)[k] == v@[k]);
            }
        }
        if p@.is_prefix_of(v@) {
            assert(v@.subrange(0, p@.len() as int) =~= p@);
        }
    }
    b
}

/// `s` holds no line feed.
pub open spec fn no_newline(s: Seq<char>) -> bool {
    forall|k: int| 0 <= k < s.len() ==> #[trigger] s[k] != newline()
}

/// Reading past characters that are not line feeds does not change the lines.
pub proof fn lemma_lines_from_skip(s: Seq<char>, i: int, j: int, start: int)
    requires
        0 <= start <= i <= j <= s.len(),
        forall|k: int| i <= k < j ==> #[trigger] s[k] != newline(),
    ensures
        lines_from(s, i, start) == lines_from(s, j, start),
    decreases j - i,
{
    if i < j {
        lemma_lines_from_skip(s, i + 1, j, start);
    }
}

/// The lines read from `p + b` past the end of `p` are the lines of `b`.
pub proof fn lemma_lines_from_shift(p: Seq<char>, b: Seq<char>, i: int, start: int)
    requires
        p.len() <= start <= i <= p.len() + b.len(),
    ensures
        lines_from(p + b, i, start) == lines_from(b, i - p.len(), start - p.len()),
    decreases p.len() + b.len() - i,
{
    let s = p + b;
    let n = p.len() as int;
    if i < s.len() {
        assert(s[i] == b[i - n]);
        if s[i] == newline() {
            lemma_lines_from_shift(p, b, i + 1, i + 1);
            assert(s.subrange(start, i) =~= b.subrange(start - n, i - n));
        } else {
            lemma_lines_from_shift(p, b, i + 1, start);
        }
    } else if start < s.len() {
        assert(s.subrange(start, s.len() as int) =~= b.subrange(start - n, b.len() as int));
    }
}

/// A line without line feeds, a line feed, then more text: the first line is that line.
pub proof fn lemma_split_first_line(a: Seq<char>, b: Seq<char>)
    requires
        no_newline(a),
    ensures
        split_lines(a + seq![newline()] + b) == seq![a] + split_lines(b),
{
    let p = a + seq![newline()];
    let s = p + b;
    assert(a + seq![newline()] + b == s);
    assert forall|k: int| 0 <= k < a.len() implies #[trigger] s[k] != newline() by {
        assert(s[k] == a[k]);
    }
    lemma_lines_from_skip(s, 0, a.len() as int, 0);
    assert(s[a.len() as int] == newline());
    assert(s.subrange(0, a.len() as int) =~= a);
    lemma_lines_from_shift(p, b, p.len() as int, p.len() as int);
}

/// Text without line feeds is a single line, or no line when it is empty.
pub proof fn lemma_split_single(a: Seq<char>)
    requires
        no_newline(a),
    ensures
        split_lines(a) == (if a.len() > 0 {
            seq![a]
        } else {
            Seq::<Seq<char>>::empty()
        }),
{
    lemma_lines_from_skip(a, 0, a.len() as int, 0);
    assert(a.subrange(0, a.len() as int) =~= a);
}

/// Text that neither starts nor ends with white space is its own trim.
pub proof fn lemma_trim_unchanged(s: Seq<char>)
    requires
        s.len() > 0 ==> !is_whitespace(s[0]) && !is_whitespace(s.last()),
    ensures
        trim(s) == s,
{
}

/// Every character of `s` is white space.
pub open spec fn all_whitespace(s: Seq<char>) -> bool {
    forall|i: int| 0 <= i < s.len() ==> is_whitespace(#[trigger] s[i])
}

/// Neither the first nor the last character of `s` is white space.
pub open spec fn no_outer_whitespace(s: Seq<char>) -> bool {
    s.len() > 0 ==> !is_whitespace(s[0]) && !is_whitespace(s.last())
}

/// Leading white space before `t` is dropped by `trim_start`.
pub proof fn lemma_trim_start_skips(u: Seq<char>, t: Seq<char>)
    requires
        all_whitespace(u),
    ensures
        trim_start(u + t) == trim_start(t),
    decreases u.len(),
{
    if u.len() > 0 {
        assert((u + t)[0] == u[0]);
        assert((u + t).drop_first() =~= u.drop_first() + t);
        lemma_trim_start_skips(u.drop_first(), t);
    } else {
        assert(u + t =~= t);
    }
}

/// Trailing white space after `t` is dropped by `trim_end`.
pub proof fn lemma_trim_end_skips(t: Seq<char>, v: Seq<char>)
    requires
        all_whitespace(v),
    ensures
        trim_end(t + v) == trim_end(t),
    decreases v.len(),
{
    if v.len() > 0 {
        assert((t + v).last() == v.last());
        assert((t + v).drop_last() =~= t + v.drop_last());
        lemma_trim_end_skips(t, v.drop_last());
    } else {
        assert(t + v =~= t);
    }
}

/// Text that starts with a non-white-space character keeps whatever follows it under
/// `trim_start`.
proof fn lemma_trim_start_keeps(t: Seq<char>)
    requires
        t.len() > 0,
        !is_whitespace(t[0]),
    ensures
        trim_start(t) == t,
{
}

/// Trimming removes exactly the white space around a text whose ends are not white
/// space: `trim(u + s + v) == s` for white-space runs `u` and `v`.
pub proof fn lemma_trim_surrounded(u: Seq<char>, s: Seq<char>, v: Seq<char>)
    requires
        all_whitespace(u),
        all_whitespace(v),
        no_outer_whitespace(s),
    ensures
        trim(u + s + v) == s,
{
    assert(u + s + v =~= u + (s + v));
    lemma_trim_start_skips(u, s + v);
    if s.len() > 0 {
        assert((s + v)[0] == s[0]);
        lemma_trim_start_keeps(s + v);
        lemma_trim_end_skips(s, v);
    } else {
        assert(s + v =~= v);
        assert(v =~= Seq::<char>::empty() + v);
        lemma_trim_start_skips(v, Seq::<char>::empty());
    }
}

/// Appending one white-space character does not change the trim.
pub proof fn lemma_trim_append_whitespace(s: Seq<char>, w: char)
    requires
        is_whitespace(w),
    ensures
        trim(s + seq![w]) == trim(s),
    decreases s.len(),
{
    if trim_start(s).len() > 0 {
        lemma_trim_start_prefix(s, seq![w]);
        lemma_trim_end_skips(trim_start(s), seq![w]);
    } else {
        lemma_trim_start_empty(s, seq![w]);
        assert(seq![w] =~= seq![w] + Seq::<char>::empty());
        lemma_trim_start_skips(seq![w], Seq::<char>::empty());
    }
}

/// When `s` holds a non-white-space character, `trim_start` of `s + t` is that of `s`
/// followed by `t`.
proof fn lemma_trim_start_prefix(s: Seq<char>, t: Seq<char>)
    requires
        trim_start(s).len() > 0,
    ensures
        trim_start(s + t) == trim_start(s) + t,
    decreases s.len(),
{
    assert(s.len() > 0);
    assert((s + t)[0] == s[0]);
    if is_whitespace(s[0]) {
        assert((s + t).drop_first() =~= s.drop_first() + t);
        lemma_trim_start_prefix(s.drop_first(), t);
    }
}

/// When `s` is all white space under `trim_start`, `trim_start` of `s + t` is that of `t`.
proof fn lemma_trim_start_empty(s: Seq<char>, t: Seq<char>)
    requires
        trim_start(s).len() == 0,
    ensures
        trim_start(s + t) == trim_start(t),
    decreases s.len(),
{
    if s.len() > 0 {
        assert((s + t)[0] == s[0]);
        assert((s + t).drop_first() =~= s.drop_first() + t);
        lemma_trim_start_empty(s.drop_first(), t);
    } else {
        assert(s + t =~= t);
    }
}

} // verus!
