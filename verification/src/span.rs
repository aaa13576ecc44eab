//! The mathematical model of a source location.

use crate::text::{lemma_boundary_after_cut, lemma_text_range_valid};
use vstd::prelude::*;
use vstd::utf8::*;

verus! {

/// Where a piece of source text lies: a range of bytes of a source buffer,
/// the position of the first of them, and the file that the buffer was read
/// from. Tokens and names are viewed as spans; contracts speak of these.
///
/// `line` and `column` are the position of the byte at `offset`, both
/// counted from 1. Whoever makes a span counts them; nothing here recomputes
/// them from `src`, and `wf` does not speak of them.
pub struct Span {
    /// Column of the first byte.
    pub column: nat,
    /// Number of bytes.
    pub length: nat,
    /// Line of the first byte.
    pub line: nat,
    /// Index of the first byte in the buffer's UTF-8 encoding, from 0.
    pub offset: nat,
    /// Path of the file.
    pub path: Seq<char>,
    /// The whole source buffer.
    pub src: Seq<char>,
}

impl Span {
    /// The UTF-8 encoding of the source buffer, which offsets index.
    pub open spec fn src_bytes(self) -> Seq<u8> {
        encode_utf8(self.src)
    }

    /// The index one past the last byte of the span.
    pub open spec fn end(self) -> nat {
        self.offset + self.length
    }

    /// The span does not reach beyond the end of the buffer.
    pub open spec fn in_bounds(self) -> bool {
        self.end() <= self.src_bytes().len()
    }

    /// Neither end of the span cuts through the encoding of a character.
    pub open spec fn on_char_boundaries(self) -> bool {
        &&& is_char_boundary(self.src_bytes(), self.offset as int)
        &&& is_char_boundary(self.src_bytes(), self.end() as int)
    }

    /// The span denotes a piece of text of its buffer.
    pub open spec fn wf(self) -> bool {
        &&& self.in_bounds()
        &&& self.on_char_boundaries()
    }

    /// The bytes that the span covers.
    pub open spec fn lexeme_bytes(self) -> Seq<u8> {
        self.src_bytes().subrange(self.offset as int, self.end() as int)
    }

    /// The text that the span denotes.
    pub open spec fn lexeme(self) -> Seq<char> {
        decode_utf8(self.lexeme_bytes())
    }

    /// The lexeme of a well-formed span is encoded by exactly the bytes that
    /// the span covers, and the source text is the text in front of the
    /// span, then the lexeme, then the text behind the span.
    pub proof fn lemma_lexeme_in_source(self)
        requires
            self.wf(),
        ensures
            encode_utf8(self.lexeme()) == self.lexeme_bytes(),
            self.src == decode_utf8(self.src_bytes().subrange(0, self.offset as int))
                + self.lexeme() + decode_utf8(
                self.src_bytes().subrange(self.end() as int, self.src_bytes().len() as int),
            ),
    {
        let bytes = self.src_bytes();
        let start = self.offset as int;
        let end = self.end() as int;
        let tail = bytes.subrange(start, bytes.len() as int);
        encode_utf8_valid_utf8(self.src);
        encode_utf8_decode_utf8(self.src);
        lemma_text_range_valid(bytes, start, end);
        lemma_boundary_after_cut(bytes, start, end);
        decode_utf8_split(bytes, start);
        decode_utf8_split(tail, end - start);
        assert(tail.subrange(0, end - start) =~= bytes.subrange(start, end));
        assert(tail.subrange(end - start, tail.len() as int) =~= bytes.subrange(
            end,
            bytes.len() as int,
        ));
    }

    /// In a buffer of ASCII text bytes and characters are the same thing:
    /// a span within the buffer is well formed, and its lexeme is the
    /// characters from `offset` to `end()`.
    pub proof fn lemma_ascii_lexeme(self)
        requires
            is_ascii_chars(self.src),
            self.end() <= self.src.len(),
        ensures
            self.wf(),
            self.lexeme() == self.src.subrange(self.offset as int, self.end() as int),
    {
        let bytes = self.src_bytes();
        let start = self.offset as int;
        let end = self.end() as int;
        let part = self.src.subrange(start, end);
        encode_utf8_valid_utf8(self.src);
        is_ascii_chars_encode_utf8(self.src);
        is_char_boundary_start_end_of_seq(bytes);
        if start < bytes.len() {
            is_char_boundary_iff_not_is_continuation_byte(bytes, start);
        }
        if end < bytes.len() {
            is_char_boundary_iff_not_is_continuation_byte(bytes, end);
        }
        is_ascii_chars_encode_utf8(part);
        assert(encode_utf8(part) =~= self.lexeme_bytes());
        encode_utf8_decode_utf8(part);
    }
}

} // verus!
