//! What holds of every name: how names and tokens turn into each other,
//! when two names are equal, and that names are totally ordered.

use crate::name::Name;
use crate::order::{
    lemma_span_less_asymmetric, lemma_span_less_connected, lemma_span_less_irreflexive,
    lemma_span_less_transitive, span_less,
};
use crate::token::{Token, TokenKind};
use core::cmp::Ordering;
use vstd::prelude::*;
use vstd::std_specs::cmp::{PartialEqSpec, PartialOrdSpec};

verus! {

/// A name made of an identifier token gives that token back, field by field.
pub proof fn lemma_token_round_trip<'src>(token: Token<'src>)
    requires
        token.kind == TokenKind::Identifier,
    ensures
        Name::from_identifier(token).token() == token,
{
}

/// The token of a name gives that name back, field by field.
pub proof fn lemma_name_round_trip<'src>(name: Name<'src>)
    ensures
        Name::from_identifier(name.token()) == name,
{
}

/// Two names are equal exactly when they agree in all six fields: to change
/// any one of them makes another name.
pub proof fn lemma_eq_structural<'src>(a: Name<'src>, b: Name<'src>)
    ensures
        a.eq_spec(&b) <==> {
            &&& a.column == b.column
            &&& a.length == b.length
            &&& a.line == b.line
            &&& a.offset == b.offset
            &&& a.path@ == b.path@
            &&& a.src@ == b.src@
        },
{
}

/// The order of names is a strict total order: no name comes before itself,
/// no two names come before each other, what comes before an earlier name
/// comes before every later one, and of two names that are not equal one
/// comes before the other.
pub proof fn lemma_order_strict_total<'src>(a: Name<'src>, b: Name<'src>, c: Name<'src>)
    ensures
        a.partial_cmp_spec(&a) != Some(Ordering::Less),
        a.partial_cmp_spec(&b) == Some(Ordering::Less) ==> b.partial_cmp_spec(&a) != Some(
            Ordering::Less,
        ),
        a.partial_cmp_spec(&b) == Some(Ordering::Less) && b.partial_cmp_spec(&c) == Some(
            Ordering::Less,
        ) ==> a.partial_cmp_spec(&c) == Some(Ordering::Less),
        a.eq_spec(&b) || a.partial_cmp_spec(&b) == Some(Ordering::Less) || b.partial_cmp_spec(&a)
            == Some(Ordering::Less),
{
    lemma_span_less_irreflexive(a@);
    lemma_span_less_asymmetric(a@, b@);
    if a@ != b@ {
        lemma_span_less_connected(a@, b@);
    }
    if span_less(a@, b@) && span_less(b@, c@) {
        lemma_span_less_transitive(a@, b@, c@);
    }
}

/// The three outcomes of a comparison fit together: two names compare as
/// equal exactly when they are equal, and one is greater exactly when the
/// other is less.
pub proof fn lemma_order_agrees_with_eq<'src>(a: Name<'src>, b: Name<'src>)
    ensures
        a.partial_cmp_spec(&b) == Some(Ordering::Equal) <==> a.eq_spec(&b),
        a.partial_cmp_spec(&b) == Some(Ordering::Greater) <==> b.partial_cmp_spec(&a) == Some(
            Ordering::Less,
        ),
{
    lemma_span_less_irreflexive(a@);
    lemma_span_less_asymmetric(a@, b@);
    lemma_span_less_asymmetric(b@, a@);
    if a@ != b@ {
        lemma_span_less_connected(a@, b@);
    }
}

} // verus!
