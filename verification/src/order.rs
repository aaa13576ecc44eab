//! The order of names: by column, then length, line, offset, path and
//! source buffer, in that order; texts by their UTF-8 bytes.
//!
//! The order serves to sort and deduplicate names in a fixed way. It says
//! nothing of what a name means.

use crate::name::Name;
use crate::span::Span;
use crate::text::{
    common_prefix_len, lemma_bytes_less_asymmetric, lemma_bytes_less_connected,
    lemma_bytes_less_irreflexive, lemma_bytes_less_transitive, lemma_same_bytes_same_text,
    text_less,
};
use core::cmp::Ordering;
use vstd::prelude::*;
use vstd::std_specs::cmp::PartialOrdSpecImpl;
use vstd::utf8::*;

verus! {

/// How text `a` stands to text `b`.
pub open spec fn text_ordering(a: Seq<char>, b: Seq<char>) -> Ordering {
    if a == b {
        Ordering::Equal
    } else if text_less(a, b) {
        Ordering::Less
    } else {
        Ordering::Greater
    }
}

/// Span `a` comes before span `b`: the first field in which they differ is
/// smaller in `a`.
pub open spec fn span_less(a: Span, b: Span) -> bool {
    if a.column != b.column {
        a.column < b.column
    } else if a.length != b.length {
        a.length < b.length
    } else if a.line != b.line {
        a.line < b.line
    } else if a.offset != b.offset {
        a.offset < b.offset
    } else if a.path != b.path {
        text_less(a.path, b.path)
    } else {
        text_less(a.src, b.src)
    }
}

/// How span `a` stands to span `b`.
pub open spec fn span_ordering(a: Span, b: Span) -> Ordering {
    if a == b {
        Ordering::Equal
    } else if span_less(a, b) {
        Ordering::Less
    } else {
        Ordering::Greater
    }
}

/// Compares two strings by their UTF-8 bytes.
pub fn text_order(a: &str, b: &str) -> (order: Ordering)
    ensures
        order == text_ordering(a@, b@),
{
    let x = a.as_bytes();
    let y = b.as_bytes();
    let k = common_prefix_len(x, y);
    proof {
        lemma_same_bytes_same_text(a@, b@);
    }
    if k == x.len() {
        if k == y.len() {
            assert(x@ =~= y@);
            Ordering::Equal
        } else {
            Ordering::Less
        }
    } else if k < y.len() && x[k] < y[k] {
        Ordering::Less
    } else {
        Ordering::Greater
    }
}

/// How two unsigned numbers stand to each other.
fn number_order(a: usize, b: usize) -> (order: Ordering)
    ensures
        order == (if a == b {
            Ordering::Equal
        } else if a < b {
            Ordering::Less
        } else {
            Ordering::Greater
        }),
{
    if a == b {
        Ordering::Equal
    } else if a < b {
        Ordering::Less
    } else {
        Ordering::Greater
    }
}

impl<'src> PartialOrd for Name<'src> {
    /// Compares field by field and stops at the first that differs.
    fn partial_cmp(&self, other: &Self) -> (order: Option<Ordering>) {
        let mut order = number_order(self.column, other.column);
        if matches!(order, Ordering::Equal) {
            order = number_order(self.length, other.length);
        }
        if matches!(order, Ordering::Equal) {
            order = number_order(self.line, other.line);
        }
        if matches!(order, Ordering::Equal) {
            order = number_order(self.offset, other.offset);
        }
        if matches!(order, Ordering::Equal) {
            order = text_order(self.path, other.path);
        }
        if matches!(order, Ordering::Equal) {
            order = text_order(self.src, other.src);
        }
        Some(order)
    }
}

impl<'src> PartialOrdSpecImpl for Name<'src> {
    open spec fn obeys_partial_cmp_spec() -> bool {
        true
    }

    open spec fn partial_cmp_spec(&self, other: &Self) -> Option<Ordering> {
        Some(span_ordering(self@, other@))
    }
}

/// No span comes before itself.
pub proof fn lemma_span_less_irreflexive(a: Span)
    ensures
        !span_less(a, a),
{
    lemma_bytes_less_irreflexive(encode_utf8(a.src));
}

/// If `a` comes before `b`, then `b` does not come before `a`.
pub proof fn lemma_span_less_asymmetric(a: Span, b: Span)
    ensures
        span_less(a, b) ==> !span_less(b, a),
{
    if text_less(a.path, b.path) {
        lemma_bytes_less_asymmetric(encode_utf8(a.path), encode_utf8(b.path));
    }
    if text_less(a.src, b.src) {
        lemma_bytes_less_asymmetric(encode_utf8(a.src), encode_utf8(b.src));
    }
}

/// If `a` comes before `b` and `b` before `c`, then `a` comes before `c`.
pub proof fn lemma_span_less_transitive(a: Span, b: Span, c: Span)
    requires
        span_less(a, b),
        span_less(b, c),
    ensures
        span_less(a, c),
{
    let (pa, pb, pc) = (encode_utf8(a.path), encode_utf8(b.path), encode_utf8(c.path));
    let (sa, sb, sc) = (encode_utf8(a.src), encode_utf8(b.src), encode_utf8(c.src));
    if a.column == b.column && b.column == c.column && a.length == b.length && b.length == c.length
        && a.line == b.line && b.line == c.line && a.offset == b.offset && b.offset == c.offset {
        if a.path != b.path && b.path != c.path {
            lemma_bytes_less_transitive(pa, pb, pc);
            lemma_bytes_less_irreflexive(pa);
        } else if a.path == b.path && b.path == c.path {
            lemma_bytes_less_transitive(sa, sb, sc);
        }
    }
}

/// Of two different spans, one comes before the other.
pub proof fn lemma_span_less_connected(a: Span, b: Span)
    requires
        a != b,
    ensures
        span_less(a, b) || span_less(b, a),
{
    lemma_same_bytes_same_text(a.path, b.path);
    lemma_same_bytes_same_text(a.src, b.src);
    if a.path != b.path {
        lemma_bytes_less_connected(encode_utf8(a.path), encode_utf8(b.path));
    } else if a.src != b.src {
        lemma_bytes_less_connected(encode_utf8(a.src), encode_utf8(b.src));
    }
}

} // verus!
