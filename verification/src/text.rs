//! Byte-level facts about source text: common prefixes, equality and the
//! lexicographic order of strings by their UTF-8 bytes.

use vstd::prelude::*;
use vstd::string::StringSliceAdditionalSpecFns;
use vstd::utf8::*;

verus! {

/// `a` and `b` hold the same bytes at every index below `k`.
pub open spec fn agree_upto(a: Seq<u8>, b: Seq<u8>, k: int) -> bool {
    &&& 0 <= k <= a.len()
    &&& k <= b.len()
    &&& forall|j: int| 0 <= j < k ==> a[j] == b[j]
}

/// `k` is the length of the longest common prefix of `a` and `b`: they agree
/// below `k`, and at `k` one of them ends or they differ.
pub open spec fn is_common_prefix_len(a: Seq<u8>, b: Seq<u8>, k: int) -> bool {
    &&& agree_upto(a, b, k)
    &&& k < a.len() && k < b.len() ==> a[k] != b[k]
}

/// At index `k`, `a` has ended and `b` has not, or `a` holds the smaller byte.
pub open spec fn bytes_part_at(a: Seq<u8>, b: Seq<u8>, k: int) -> bool {
    ||| k == a.len() && k < b.len()
    ||| 0 <= k < a.len() && k < b.len() && a[k] < b[k]
}

/// Lexicographic order on byte sequences: `a` comes before `b` when, where
/// the two first part ways, `a` has ended or holds the smaller byte.
pub open spec fn bytes_less(a: Seq<u8>, b: Seq<u8>) -> bool {
    exists|k: int| #[trigger] agree_upto(a, b, k) && bytes_part_at(a, b, k)
}

/// Order on texts: the lexicographic order of their UTF-8 encodings.
pub open spec fn text_less(a: Seq<char>, b: Seq<char>) -> bool {
    bytes_less(encode_utf8(a), encode_utf8(b))
}

/// The length of the longest common prefix of two byte slices.
pub fn common_prefix_len(a: &[u8], b: &[u8]) -> (k: usize)
    ensures
        is_common_prefix_len(a@, b@, k as int),
{
    let mut i: usize = 0;
    while i < a.len() && i < b.len() && a[i] == b[i]
        invariant
            agree_upto(a@, b@, i as int),
        decreases a.len() - i,
    {
        i += 1;
    }
    i
}

/// Any two byte sequences have a longest common prefix.
pub proof fn lemma_common_prefix_exists(a: Seq<u8>, b: Seq<u8>) -> (k: int)
    ensures
        is_common_prefix_len(a, b, k),
{
    common_prefix_from(a, b, 0)
}

proof fn common_prefix_from(a: Seq<u8>, b: Seq<u8>, i: int) -> (k: int)
    requires
        agree_upto(a, b, i),
    ensures
        is_common_prefix_len(a, b, k),
    decreases a.len() - i,
{
    if i < a.len() && i < b.len() && a[i] == b[i] {
        common_prefix_from(a, b, i + 1)
    } else {
        i
    }
}

/// No byte sequence comes before itself.
pub proof fn lemma_bytes_less_irreflexive(a: Seq<u8>)
    ensures
        !bytes_less(a, a),
{
}

/// If `a` comes before `b`, then `b` does not come before `a`.
pub proof fn lemma_bytes_less_asymmetric(a: Seq<u8>, b: Seq<u8>)
    requires
        bytes_less(a, b),
    ensures
        !bytes_less(b, a),
{
    let k = choose|k: int| agree_upto(a, b, k) && bytes_part_at(a, b, k);
    assert forall|m: int| agree_upto(b, a, m) implies !bytes_part_at(b, a, m) by {
        if m < k {
            assert(a[m] == b[m]);
        } else if k < m {
            assert(b[k] == a[k]);
        }
    }
}

/// If `a` comes before `b` and `b` before `c`, then `a` comes before `c`.
pub proof fn lemma_bytes_less_transitive(a: Seq<u8>, b: Seq<u8>, c: Seq<u8>)
    requires
        bytes_less(a, b),
        bytes_less(b, c),
    ensures
        bytes_less(a, c),
{
    let i = choose|k: int| agree_upto(a, b, k) && bytes_part_at(a, b, k);
    let j = choose|k: int| agree_upto(b, c, k) && bytes_part_at(b, c, k);
    let k = if i <= j { i } else { j };
    assert(agree_upto(a, c, k)) by {
        assert forall|m: int| 0 <= m < k implies a[m] == c[m] by {
            assert(a[m] == b[m]);
            assert(b[m] == c[m]);
        }
    }
    if i < j {
        assert(b[i] == c[i]);
    } else if j < i {
        assert(a[j] == b[j]);
    }
    assert(bytes_part_at(a, c, k));
}

/// Of two different byte sequences, one comes before the other.
pub proof fn lemma_bytes_less_connected(a: Seq<u8>, b: Seq<u8>)
    requires
        a != b,
    ensures
        bytes_less(a, b) || bytes_less(b, a),
{
    let k = lemma_common_prefix_exists(a, b);
    assert(agree_upto(b, a, k));
    if k == a.len() && k == b.len() {
        assert(a =~= b);
    } else if bytes_part_at(a, b, k) {
    } else {
        assert(bytes_part_at(b, a, k));
    }
}

/// Two texts are the same exactly when their UTF-8 encodings are.
pub proof fn lemma_same_bytes_same_text(a: Seq<char>, b: Seq<char>)
    ensures
        encode_utf8(a) == encode_utf8(b) <==> a == b,
{
    encode_utf8_decode_utf8(a);
    encode_utf8_decode_utf8(b);
}

/// Whether two strings hold the same text.
pub fn same_text(a: &str, b: &str) -> (same: bool)
    ensures
        same == (a@ == b@),
{
    let x = a.as_bytes();
    let y = b.as_bytes();
    let same = x.len() == y.len() && common_prefix_len(x, y) == x.len();
    proof {
        lemma_same_bytes_same_text(a@, b@);
        if same {
            assert(x@ =~= y@);
        }
    }
    same
}

/// The byte range from `start` to `end` lies within `bytes` and both of its
/// ends fall between two characters (or at an end of the text).
pub open spec fn is_text_range(bytes: Seq<u8>, start: int, end: int) -> bool {
    &&& 0 <= start <= end <= bytes.len()
    &&& is_char_boundary(bytes, start)
    &&& is_char_boundary(bytes, end)
}

/// A character boundary of a text is still one after the text in front of an
/// earlier boundary has been cut off.
pub proof fn lemma_boundary_after_cut(bytes: Seq<u8>, start: int, end: int)
    requires
        valid_utf8(bytes),
        is_text_range(bytes, start, end),
    ensures
        valid_utf8(bytes.subrange(start, bytes.len() as int)),
        is_char_boundary(bytes.subrange(start, bytes.len() as int), end - start),
{
    let tail = bytes.subrange(start, bytes.len() as int);
    valid_utf8_split(bytes, start);
    if end == bytes.len() {
        is_char_boundary_start_end_of_seq(tail);
    } else if start < end {
        is_char_boundary_iff_not_is_continuation_byte(bytes, end);
        is_char_boundary_iff_not_is_continuation_byte(tail, end - start);
    }
}

/// A text range of a valid text is itself valid, and is the encoding of
/// the text that it decodes to.
pub proof fn lemma_text_range_valid(bytes: Seq<u8>, start: int, end: int)
    requires
        valid_utf8(bytes),
        is_text_range(bytes, start, end),
    ensures
        valid_utf8(bytes.subrange(start, end)),
        encode_utf8(decode_utf8(bytes.subrange(start, end))) == bytes.subrange(start, end),
{
    let tail = bytes.subrange(start, bytes.len() as int);
    lemma_boundary_after_cut(bytes, start, end);
    valid_utf8_split(tail, end - start);
    assert(tail.subrange(0, end - start) =~= bytes.subrange(start, end));
    decode_utf8_encode_utf8(bytes.subrange(start, end));
}

/// Whether `length` bytes from byte `offset` on are a text range of `src`.
pub fn is_byte_range(src: &str, offset: usize, length: usize) -> (ok: bool)
    ensures
        ok == is_text_range(src.spec_bytes(), offset as int, offset + length),
{
    let len = src.as_bytes().len();
    if offset > len || length > len - offset {
        return false;
    }
    src.is_char_boundary(offset) && src.is_char_boundary(offset + length)
}

/// The part of `src` that starts at byte `offset` and is `length` bytes long.
pub fn byte_range<'a>(src: &'a str, offset: usize, length: usize) -> (part: &'a str)
    requires
        is_text_range(src.spec_bytes(), offset as int, offset + length),
    ensures
        part.spec_bytes() == src.spec_bytes().subrange(offset as int, offset + length),
        part@ == decode_utf8(src.spec_bytes().subrange(offset as int, offset + length)),
{
    let ghost bytes = src.spec_bytes();
    proof {
        encode_utf8_valid_utf8(src@);
        lemma_boundary_after_cut(bytes, offset as int, offset + length);
    }
    let (_, tail) = src.split_at(offset);
    let (part, _) = tail.split_at(length);
    proof {
        assert(part.spec_bytes() =~= bytes.subrange(offset as int, offset + length));
        encode_utf8_decode_utf8(part@);
    }
    part
}

} // verus!
