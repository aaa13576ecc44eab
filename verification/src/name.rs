//! Names: identifier tokens under a type of their own.

use crate::error::CompileError;
use crate::span::Span;
use crate::text::same_text;
use crate::token::{Token, TokenKind};
use vstd::prelude::*;
use vstd::std_specs::cmp::PartialEqSpecImpl;
use vstd::string::StringSliceAdditionalSpecFns;

verus! {

/// A name: a token that is known to be an identifier. It has the fields of a
/// token but for the category, which is `Identifier` by construction.
///
/// Two names are equal when all their fields are, not when they spell the
/// same word: the same identifier at two places gives two different names.
/// Compare `lexeme()` with `lexeme()` to compare spellings.
#[derive(Debug, Clone, Copy, Eq, Ord)]
pub struct Name<'src> {
    pub column: usize,
    pub length: usize,
    pub line: usize,
    pub offset: usize,
    pub path: &'src str,
    pub src: &'src str,
}

impl<'src> View for Name<'src> {
    type V = Span;

    open spec fn view(&self) -> Span {
        self.span()
    }
}

impl<'src> Name<'src> {
    /// Where the name lies.
    pub open spec fn span(&self) -> Span {
        Span {
            column: self.column as nat,
            length: self.length as nat,
            line: self.line as nat,
            offset: self.offset as nat,
            path: self.path@,
            src: self.src@,
        }
    }

    /// The token that a name stands for.
    pub open spec fn spec_token(&self) -> Token<'src> {
        Token {
            column: self.column,
            kind: TokenKind::Identifier,
            length: self.length,
            line: self.line,
            offset: self.offset,
            path: self.path,
            src: self.src,
        }
    }

    /// The name that an identifier token gives.
    pub open spec fn spec_from_identifier(token: Token<'src>) -> Name<'src> {
        Name {
            column: token.column,
            length: token.length,
            line: token.line,
            offset: token.offset,
            path: token.path,
            src: token.src,
        }
    }

    /// The text of the name. Nothing is copied.
    pub fn lexeme(&self) -> (text: &'src str)
        requires
            self.span().wf(),
        ensures
            text@ == self.span().lexeme(),
            text.spec_bytes() == self.span().lexeme_bytes(),
    {
        self.token().lexeme()
    }

    /// Turns the name back into a token, of category `Identifier`.
    #[verifier::when_used_as_spec(spec_token)]
    pub fn token(&self) -> (token: Token<'src>)
        ensures
            token == self.spec_token(),
            token.kind == TokenKind::Identifier,
            token.span() == self.span(),
    {
        Token {
            column: self.column,
            kind: TokenKind::Identifier,
            length: self.length,
            line: self.line,
            offset: self.offset,
            path: self.path,
            src: self.src,
        }
    }

    /// Makes a name of an identifier token, keeping every field of its
    /// location. A token of another category is no name: to hand one in is a
    /// fault of the caller, never of the source text being compiled.
    #[verifier::when_used_as_spec(spec_from_identifier)]
    pub fn from_identifier(token: Token<'src>) -> (name: Name<'src>)
        requires
            token.kind == TokenKind::Identifier,
        ensures
            name == Self::spec_from_identifier(token),
            name.span() == token.span(),
    {
        Name {
            column: token.column,
            length: token.length,
            line: token.line,
            offset: token.offset,
            path: token.path,
            src: token.src,
        }
    }

    /// A diagnostic of the given kind, anchored at this name's token.
    pub fn error<K>(&self, kind: K) -> (error: CompileError<'src, K>)
        ensures
            error.token == self.token(),
            error.kind == kind,
    {
        self.token().error(kind)
    }

    /// The name as it is shown to a reader: its lexeme and nothing else.
    pub fn to_string(&self) -> (shown: String)
        requires
            self.span().wf(),
        ensures
            shown@ == self.span().lexeme(),
    {
        self.lexeme().to_owned()
    }

    /// The name as it is written to structured output: one text value, its
    /// lexeme. Nothing of its location is written.
    pub fn serialize(&self) -> (written: &'src str)
        requires
            self.span().wf(),
        ensures
            written@ == self.span().lexeme(),
            written.spec_bytes() == self.span().lexeme_bytes(),
    {
        self.lexeme()
    }
}

impl<'src> PartialEq for Name<'src> {
    /// Compares the locations, field by field; paths and buffers by their
    /// text.
    fn eq(&self, other: &Self) -> (same: bool) {
        self.column == other.column && self.length == other.length && self.line == other.line
            && self.offset == other.offset && same_text(self.path, other.path) && same_text(
            self.src,
            other.src,
        )
    }
}

impl<'src> PartialEqSpecImpl for Name<'src> {
    open spec fn obeys_eq_spec() -> bool {
        true
    }

    open spec fn eq_spec(&self, other: &Self) -> bool {
        self@ == other@
    }
}

} // verus!
