use vstd::prelude::*;

verus! {

use vstd::string::StringSliceAdditionalSpecFns;
use vstd::utf8::{
    decode_first_scalar, decode_utf8, encode_utf8_decode_utf8, encode_utf8_valid_utf8,
    is_char_boundary,
    is_char_boundary_iff_not_is_continuation_byte, is_char_boundary_start_end_of_seq,
    is_continuation_byte, length_of_first_scalar, pop_first_scalar,
    valid_first_scalar, valid_utf8, valid_utf8_split,
};

/// The UTF-8 encoding of a string slice is always a valid UTF-8 byte sequence.
pub proof fn lemma_input_valid_utf8(s: &str)
    ensures
        valid_utf8(s.spec_bytes()),
{
    encode_utf8_valid_utf8(s@);
}

/// A string slice is exactly the decoding of its UTF-8 encoding.
pub proof fn lemma_str_view_decode(s: &str)
    ensures
        s@ == decode_utf8(s.spec_bytes()),
{
    encode_utf8_decode_utf8(s@);
}

/// True when the codepoint is one the Unicode `White_Space` property covers.
pub open spec fn is_whitespace_scalar(v: u32) -> bool {
    ||| (0x09 <= v && v <= 0x0D)
    ||| v == 0x20
    ||| v == 0x85
    ||| v == 0xA0
    ||| v == 0x1680
    ||| (0x2000 <= v && v <= 0x200A)
    ||| v == 0x2028
    ||| v == 0x2029
    ||| v == 0x202F
    ||| v == 0x205F
    ||| v == 0x3000
}

/// True when the character has the Unicode `White_Space` property, the class
/// `char::is_whitespace` tests.
pub open spec fn is_whitespace_char(c: char) -> bool {
    is_whitespace_scalar(c as u32)
}

/// Decides the `White_Space` property of a character.
pub(crate) fn char_is_whitespace(c: char) -> (b: bool)
    ensures
        b == is_whitespace_char(c),
{
    let v = c as u32;
    (0x09 <= v && v <= 0x0D) || v == 0x20 || v == 0x85 || v == 0xA0 || v == 0x1680 || (0x2000 <= v
        && v <= 0x200A) || v == 0x2028 || v == 0x2029 || v == 0x202F || v == 0x205F || v == 0x3000
}

/// The length of `s` in bytes. Unlike `str::len`, its contract also shows
/// that the byte sequence of `s` fits in a `usize`-indexed buffer.
pub(crate) fn str_byte_len(s: &str) -> (n: usize)
    ensures
        n == s.spec_bytes().len(),
{
    broadcast use vstd::slice::axiom_spec_len;

    s.as_bytes().len()
}

/// The sub-slice of `s` between byte offsets `a` and `b`, both of which must
/// sit on codepoint boundaries.
pub(crate) fn substr_range<'s>(s: &'s str, a: usize, b: usize) -> (r: &'s str)
    requires
        a <= b,
        b <= s.spec_bytes().len(),
        is_char_boundary(s.spec_bytes(), a as int),
        is_char_boundary(s.spec_bytes(), b as int),
    ensures
        r.spec_bytes() == s.spec_bytes().subrange(a as int, b as int),
        r@ == decode_utf8(s.spec_bytes().subrange(a as int, b as int)),
{
    proof {
        lemma_input_valid_utf8(s);
    }
    let (_, tail) = s.split_at(a);
    proof {
        let bytes = s.spec_bytes();
        let n = bytes.len() as int;
        valid_utf8_split(bytes, a as int);
        assert(tail.spec_bytes() =~= bytes.subrange(a as int, n));
        if b == a {
        } else if b as int == n {
            is_char_boundary_start_end_of_seq(tail.spec_bytes());
        } else {
            is_char_boundary_iff_not_is_continuation_byte(bytes, b as int);
            assert(tail.spec_bytes()[b - a] == bytes[b as int]);
            is_char_boundary_iff_not_is_continuation_byte(tail.spec_bytes(), b as int - a as int);
        }
    }
    let (mid, _) = tail.split_at(b - a);
    proof {
        assert(mid.spec_bytes() =~= s.spec_bytes().subrange(a as int, b as int));
        encode_utf8_decode_utf8(mid@);
    }
    mid
}

/// Whether two byte slices hold the same bytes.
pub(crate) fn bytes_eq(a: &[u8], b: &[u8]) -> (r: bool)
    ensures
        r == (a@ == b@),
{
    broadcast use vstd::slice::axiom_spec_len;

    if a.len() != b.len() {
        return false;
    }
    let n = a.len();
    let mut i: usize = 0;
    while i < n
        invariant
            n == a@.len(),
            a@.len() == b@.len(),
            0 <= i <= n,
            forall|j: int| 0 <= j < i ==> a@[j] == b@[j],
        decreases n - i,
    {
        if *vstd::slice::slice_index_get(a, i) != *vstd::slice::slice_index_get(b, i) {
            return false;
        }
        i = i + 1;
    }
    proof {
        assert(a@ =~= b@);
    }
    true
}

/// Every position of a valid UTF-8 sequence has a codepoint boundary at most
/// three bytes ahead of it (a scalar's encoding is at most four bytes long).
pub proof fn lemma_boundary_within_4(bytes: Seq<u8>, p: int)
    requires
        valid_utf8(bytes),
        0 <= p <= bytes.len(),
    ensures
        exists|b: int|
            p <= b <= bytes.len() && b <= p + 3 && #[trigger] is_char_boundary(bytes, b),
{
    is_char_boundary_start_end_of_seq(bytes);
    lemma_walk_boundary(bytes, 0, p);
}

/// Walks boundary to boundary from `j` up to the first boundary at or after
/// `p`, which can overshoot `p` by at most three bytes.
proof fn lemma_walk_boundary(bytes: Seq<u8>, j: int, p: int)
    requires
        valid_utf8(bytes),
        is_char_boundary(bytes, j),
        0 <= j <= p <= bytes.len(),
    ensures
        exists|b: int|
            p <= b <= bytes.len() && b <= p + 3 && #[trigger] is_char_boundary(bytes, b),
    decreases p - j,
{
    if j == p {
        assert(p <= p <= bytes.len() && p <= p + 3 && is_char_boundary(bytes, p));
    } else {
        lemma_first_scalar_at(bytes, j);
        let w = length_of_first_scalar(bytes.subrange(j, bytes.len() as int));
        if j + w > p {
            assert(p <= j + w <= bytes.len() && j + w <= p + 3 && is_char_boundary(bytes, j + w));
        } else {
            lemma_walk_boundary(bytes, j + w, p);
        }
    }
}

/// The width in bytes of the scalar that starts at boundary offset `pos` of
/// `s`, read off the leading byte alone.
pub(crate) fn scalar_width_at(s: &str, pos: usize) -> (w: usize)
    requires
        pos < s.spec_bytes().len(),
        is_char_boundary(s.spec_bytes(), pos as int),
    ensures
        ({
            let bytes = s.spec_bytes();
            let rest = bytes.subrange(pos as int, bytes.len() as int);
            &&& w == length_of_first_scalar(rest)
            &&& 1 <= w <= 4
            &&& pos + w <= bytes.len()
            &&& is_char_boundary(bytes, pos + w)
            &&& forall|j: int| pos < j < pos + w ==> !is_char_boundary(bytes, j)
        }),
{
    broadcast use vstd::slice::axiom_spec_len;

    proof {
        lemma_input_valid_utf8(s);
        lemma_first_scalar_at(s.spec_bytes(), pos as int);
    }
    let b = s.as_bytes();
    let lead = *vstd::slice::slice_index_get(b, pos);
    if lead < 0x80 {
        1
    } else if lead < 0xE0 {
        2
    } else if lead < 0xF0 {
        3
    } else {
        4
    }
}

/// A boundary offset short of the end of a valid UTF-8 sequence starts a
/// whole scalar: the scalar fits in the buffer, the next boundary comes
/// exactly one scalar later, and no boundary falls inside the scalar.
pub proof fn lemma_first_scalar_at(bytes: Seq<u8>, i: int)
    requires
        valid_utf8(bytes),
        is_char_boundary(bytes, i),
        0 <= i < bytes.len(),
    ensures
        ({
            let rest = bytes.subrange(i, bytes.len() as int);
            let w = length_of_first_scalar(rest);
            &&& valid_first_scalar(rest)
            &&& 1 <= w <= 4
            &&& i + w <= bytes.len()
            &&& is_char_boundary(bytes, i + w)
            &&& forall|j: int| i < j < i + w ==> !is_char_boundary(bytes, j)
        }),
{
    let n = bytes.len() as int;
    let rest = bytes.subrange(i, n);
    valid_utf8_split(bytes, i);
    assert(valid_utf8(rest));
    assert(rest.len() > 0);
    assert(valid_first_scalar(rest));
    let w = length_of_first_scalar(rest);
    assert(1 <= w <= 4 && w <= rest.len());
    assert(forall|k: int| 1 <= k < w ==> is_continuation_byte(#[trigger] rest[k]));
    assert forall|j: int| i < j < i + w implies !is_char_boundary(bytes, j) by {
        assert(bytes[j] == rest[j - i]);
        is_char_boundary_iff_not_is_continuation_byte(bytes, j);
    }
    if i + w == n {
        is_char_boundary_start_end_of_seq(bytes);
    } else {
        let popped = pop_first_scalar(rest);
        assert(valid_utf8(popped));
        assert(popped.len() > 0);
        assert(valid_first_scalar(popped));
        assert(popped[0] == rest[w] == bytes[i + w]);
        assert(!is_continuation_byte(bytes[i + w]));
        is_char_boundary_iff_not_is_continuation_byte(bytes, i + w);
    }
}

/// A boundary of the whole sequence is a boundary of the suffix that starts
/// at an earlier boundary, and the other way round.
pub proof fn lemma_boundary_in_suffix(bytes: Seq<u8>, a: int, x: int)
    requires
        valid_utf8(bytes),
        is_char_boundary(bytes, a),
        0 <= a <= x <= bytes.len(),
    ensures
        is_char_boundary(bytes, x) <==> is_char_boundary(
            bytes.subrange(a, bytes.len() as int),
            x - a,
        ),
{
    let n = bytes.len() as int;
    let suffix = bytes.subrange(a, n);
    valid_utf8_split(bytes, a);
    if x == n {
        is_char_boundary_start_end_of_seq(bytes);
        is_char_boundary_start_end_of_seq(suffix);
    } else {
        assert(suffix[x - a] == bytes[x]);
        is_char_boundary_iff_not_is_continuation_byte(bytes, x);
        is_char_boundary_iff_not_is_continuation_byte(suffix, x - a);
    }
}

/// At a boundary offset `i`, the bytes of the first upcoming scalar decode to
/// exactly the first upcoming character, and the bytes after it decode to the
/// remaining characters.
pub proof fn lemma_first_char_decode(bytes: Seq<u8>, i: int)
    requires
        valid_utf8(bytes),
        is_char_boundary(bytes, i),
        0 <= i < bytes.len(),
    ensures
        ({
            let n = bytes.len() as int;
            let rest = bytes.subrange(i, n);
            let w = length_of_first_scalar(rest);
            &&& decode_utf8(rest).len() > 0
            &&& decode_utf8(bytes.subrange(i, i + w)) == seq![decode_utf8(rest)[0]]
            &&& decode_utf8(bytes.subrange(i + w, n)) == decode_utf8(rest).drop_first()
        }),
{
    let n = bytes.len() as int;
    let rest = bytes.subrange(i, n);
    lemma_first_scalar_at(bytes, i);
    let w = length_of_first_scalar(rest);
    valid_utf8_split(bytes, i);
    assert(valid_utf8(rest));
    let take = bytes.subrange(i, i + w);
    assert(take =~= rest.subrange(0, w));
    assert(forall|k: int| 0 <= k < w ==> take[k] == rest[k]);
    assert(valid_first_scalar(take));
    assert(length_of_first_scalar(take) == w);
    assert(decode_first_scalar(take) == decode_first_scalar(rest));
    assert(pop_first_scalar(take) =~= Seq::<u8>::empty());
    assert(valid_utf8(Seq::<u8>::empty()));
    assert(valid_utf8(take));
    assert(decode_utf8(Seq::<u8>::empty()) =~= Seq::<char>::empty());
    assert(decode_utf8(take) =~= seq![decode_first_scalar(rest) as char]);
    assert(pop_first_scalar(rest) =~= bytes.subrange(i + w, n));
    assert(decode_utf8(rest) =~= seq![decode_first_scalar(rest) as char] + decode_utf8(
        bytes.subrange(i + w, n),
    ));
    assert(decode_utf8(bytes.subrange(i + w, n)) =~= decode_utf8(rest).drop_first());
}

/// Extending a consumed span `[a, p)` by the one scalar that starts at `p`
/// appends exactly one character to its decoding.
pub proof fn lemma_decode_span_extend(bytes: Seq<u8>, a: int, p: int)
    requires
        valid_utf8(bytes),
        is_char_boundary(bytes, a),
        is_char_boundary(bytes, p),
        0 <= a <= p < bytes.len(),
    ensures
        ({
            let n = bytes.len() as int;
            let w = length_of_first_scalar(bytes.subrange(p, n));
            decode_utf8(bytes.subrange(a, p + w)) == decode_utf8(bytes.subrange(a, p)) + seq![
                decode_utf8(bytes.subrange(p, n))[0],
            ]
        }),
{
    let n = bytes.len() as int;
    let w = length_of_first_scalar(bytes.subrange(p, n));
    lemma_first_scalar_at(bytes, p);
    lemma_first_char_decode(bytes, p);
    let suffix = bytes.subrange(a, n);
    valid_utf8_split(bytes, a);
    lemma_boundary_in_suffix(bytes, a, p + w);
    valid_utf8_split(suffix, p + w - a);
    let big = bytes.subrange(a, p + w);
    assert(big =~= suffix.subrange(0, p + w - a));
    assert(valid_utf8(big));
    lemma_boundary_in_suffix(bytes, a, p);
    if p - a < big.len() {
        assert(big[p - a] == suffix[p - a]);
        is_char_boundary_iff_not_is_continuation_byte(suffix, p - a);
        is_char_boundary_iff_not_is_continuation_byte(big, p - a);
    }
    vstd::utf8::decode_utf8_split(big, p - a);
    assert(big.subrange(0, p - a) =~= bytes.subrange(a, p));
    assert(big.subrange(p - a, big.len() as int) =~= bytes.subrange(p, p + w));
    assert(decode_utf8(bytes.subrange(a, p + w)) =~= decode_utf8(bytes.subrange(a, p)) + seq![
        decode_utf8(bytes.subrange(p, n))[0],
    ]);
}

/// Decoding a span between boundaries splits at any inner boundary.
pub proof fn lemma_decode_split3(bytes: Seq<u8>, a: int, m: int, b: int)
    requires
        valid_utf8(bytes),
        is_char_boundary(bytes, a),
        is_char_boundary(bytes, m),
        is_char_boundary(bytes, b),
        0 <= a <= m <= b <= bytes.len(),
    ensures
        decode_utf8(bytes.subrange(a, b)) == decode_utf8(bytes.subrange(a, m)) + decode_utf8(
            bytes.subrange(m, b),
        ),
{
    let n = bytes.len() as int;
    let suffix = bytes.subrange(a, n);
    valid_utf8_split(bytes, a);
    lemma_boundary_in_suffix(bytes, a, b);
    valid_utf8_split(suffix, b - a);
    let big = bytes.subrange(a, b);
    assert(big =~= suffix.subrange(0, b - a));
    assert(valid_utf8(big));
    lemma_boundary_in_suffix(bytes, a, m);
    if m - a == big.len() {
        is_char_boundary_start_end_of_seq(big);
    } else {
        assert(big[m - a] == suffix[m - a]);
        is_char_boundary_iff_not_is_continuation_byte(suffix, m - a);
        is_char_boundary_iff_not_is_continuation_byte(big, m - a);
    }
    vstd::utf8::decode_utf8_split(big, m - a);
    assert(big.subrange(0, m - a) =~= bytes.subrange(a, m));
    assert(big.subrange(m - a, big.len() as int) =~= bytes.subrange(m, b));
}

/// When a valid UTF-8 needle matches the input bytes starting at a boundary,
/// the position just past the match is again a boundary: the match consumes a
/// whole number of scalars.
pub proof fn lemma_prefix_match_boundary(bytes: Seq<u8>, i: int, needle: Seq<u8>)
    requires
        valid_utf8(bytes),
        valid_utf8(needle),
        is_char_boundary(bytes, i),
        0 <= i,
        i + needle.len() <= bytes.len(),
        bytes.subrange(i, i + needle.len()) == needle,
    ensures
        is_char_boundary(bytes, i + needle.len()),
    decreases needle.len(),
{
    if needle.len() > 0 {
        let n = bytes.len() as int;
        lemma_first_scalar_at(bytes, i);
        let rest = bytes.subrange(i, n);
        let w = length_of_first_scalar(rest);
        assert(needle[0] == rest[0]);
        assert(valid_first_scalar(needle));
        assert(length_of_first_scalar(needle) == w);
        assert(w <= needle.len());
        let popped = pop_first_scalar(needle);
        assert(valid_utf8(popped));
        assert(bytes.subrange(i + w, i + needle.len()) =~= popped);
        lemma_prefix_match_boundary(bytes, i + w, popped);
    }
}

} // verus!
