//! Diagnostics anchored at a place in the source.

use crate::token::Token;
use vstd::prelude::*;

verus! {

/// A diagnostic: what went wrong, and the token at which it did.
///
/// The token gives a renderer the file, the line and the column to report
/// and the bytes to underline. What kinds of error there are, and how one is
/// worded, is for the caller to say: `K` is the caller's own type.
#[derive(Debug)]
pub struct CompileError<'src, K> {
    pub token: Token<'src>,
    pub kind: K,
}

} // verus!
