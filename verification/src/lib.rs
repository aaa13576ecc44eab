//! Source locations for a compiler front end: tokens, the names refined
//! from identifier tokens, and the diagnostics anchored at either.
//!
//! Every value here is a snapshot into a borrowed source buffer. Offsets and
//! lengths count bytes of the buffer's UTF-8 encoding; nothing is copied.

pub mod error;
pub mod laws;
pub mod name;
pub mod order;
pub mod span;
pub mod text;
pub mod token;

pub use error::CompileError;
pub use name::Name;
pub use span::Span;
pub use token::{Token, TokenKind, TokenView};
