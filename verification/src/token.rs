//! Tokens: the categorized spans that lexical analysis produces.

use crate::error::CompileError;
use crate::span::Span;
use crate::text::{byte_range, is_byte_range, same_text};
use vstd::prelude::*;
use vstd::std_specs::cmp::PartialEqSpecImpl;
use vstd::string::StringSliceAdditionalSpecFns;

verus! {

/// The lexical category of a token. Only `Identifier` matters here: it is
/// the one category from which a name can be made.
#[derive(Debug, Clone, Copy, PartialEq, Eq, Structural)]
pub enum TokenKind {
    Comment,
    Eof,
    Eol,
    Identifier,
    Keyword,
    Number,
    Punctuation,
    StringLiteral,
    Whitespace,
}

/// A lexical unit: a range of bytes of a source buffer, the position of its
/// first byte, the path of the file, and a category.
///
/// `offset` counts bytes from 0. `line` and `column` count from 1: the first
/// byte of a buffer is at line 1, column 1. The lexer counts them; a token
/// only carries them to whoever reports an error.
///
/// A token borrows the buffer and the path and owns nothing. It is made once
/// and never changed; to move or extend one, make another.
#[derive(Debug, Clone, Copy)]
pub struct Token<'src> {
    pub column: usize,
    pub kind: TokenKind,
    pub length: usize,
    pub line: usize,
    pub offset: usize,
    pub path: &'src str,
    pub src: &'src str,
}

/// A token as contracts see it: its category and where it lies.
pub struct TokenView {
    pub kind: TokenKind,
    pub span: Span,
}

impl<'src> View for Token<'src> {
    type V = TokenView;

    open spec fn view(&self) -> TokenView {
        TokenView { kind: self.kind, span: self.span() }
    }
}

impl<'src> Token<'src> {
    /// Where the token lies.
    pub open spec fn span(&self) -> Span {
        Span {
            column: self.column as nat,
            length: self.length as nat,
            line: self.line as nat,
            offset: self.offset as nat,
            path: self.path@,
            src: self.src@,
        }
    }

    /// Whether the token denotes a piece of text of its buffer: it ends
    /// within the buffer, and neither end cuts through a character.
    pub fn is_valid(&self) -> (ok: bool)
        ensures
            ok == self.span().wf(),
    {
        is_byte_range(self.src, self.offset, self.length)
    }

    /// The text of the token: the bytes of the buffer from `offset` on,
    /// `length` of them. Nothing is copied.
    pub fn lexeme(&self) -> (text: &'src str)
        requires
            self.span().wf(),
        ensures
            text@ == self.span().lexeme(),
            text.spec_bytes() == self.span().lexeme_bytes(),
    {
        byte_range(self.src, self.offset, self.length)
    }

    /// A diagnostic of the given kind, anchored at this token.
    pub fn error<K>(&self, kind: K) -> (error: CompileError<'src, K>)
        ensures
            error.token == *self,
            error.kind == kind,
    {
        CompileError { token: *self, kind }
    }
}

impl<'src> PartialEq for Token<'src> {
    /// Compares category and location, field by field; paths and buffers
    /// by their text.
    fn eq(&self, other: &Self) -> (same: bool) {
        self.column == other.column && self.kind == other.kind && self.length == other.length
            && self.line == other.line && self.offset == other.offset && same_text(
            self.path,
            other.path,
        ) && same_text(self.src, other.src)
    }
}

impl<'src> PartialEqSpecImpl for Token<'src> {
    open spec fn obeys_eq_spec() -> bool {
        true
    }

    open spec fn eq_spec(&self, other: &Self) -> bool {
        self@ == other@
    }
}

} // verus!
