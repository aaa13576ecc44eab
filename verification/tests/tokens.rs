use source_name::{Token, TokenKind};

fn token<'a>(src: &'a str, offset: usize, length: usize) -> Token<'a> {
    Token {
        column: offset + 1,
        kind: TokenKind::Identifier,
        length,
        line: 1,
        offset,
        path: "test.txt",
        src,
    }
}

#[test]
fn lexeme_is_the_bytes_from_offset_on() {
    let src = "foo bar";
    for offset in 0..=src.len() {
        for length in 0..=src.len() - offset {
            let t = token(src, offset, length);
            assert!(t.is_valid());
            assert_eq!(t.lexeme(), &src[offset..offset + length]);
            assert_eq!(t.lexeme().as_bytes(), &src.as_bytes()[offset..offset + length]);
        }
    }
}

#[test]
fn lexeme_of_an_empty_span_is_empty() {
    let src = "foo bar";
    assert_eq!(token(src, 0, 0).lexeme(), "");
    assert_eq!(token(src, 3, 0).lexeme(), "");
    assert_eq!(token(src, 7, 0).lexeme(), "");
    assert_eq!(token("", 0, 0).lexeme(), "");
}

#[test]
fn lexeme_of_the_whole_buffer_is_the_buffer() {
    let src = "recipe:\n  echo hi\n";
    assert_eq!(token(src, 0, src.len()).lexeme(), src);
}

#[test]
fn lexeme_borrows_from_the_buffer() {
    let src = String::from("foo bar");
    let text = token(&src, 4, 3).lexeme();
    assert_eq!(text.as_ptr(), src[4..].as_ptr());
    assert_eq!(text.len(), 3);
}

#[test]
fn lexeme_counts_bytes_not_characters() {
    // 'é' and 'ö' take two bytes each, '→' takes three.
    let src = "héllo wörld → x";
    let t = token(src, 0, 6);
    assert!(t.is_valid());
    assert_eq!(t.lexeme(), "héllo");
    let t = token(src, 7, 6);
    assert!(t.is_valid());
    assert_eq!(t.lexeme(), "wörld");
    let t = token(src, 14, 3);
    assert!(t.is_valid());
    assert_eq!(t.lexeme(), "→");
    let t = token(src, 18, 1);
    assert!(t.is_valid());
    assert_eq!(t.lexeme(), "x");
}

#[test]
fn span_past_the_end_is_not_valid() {
    let src = "foo bar";
    assert!(!token(src, 0, 8).is_valid());
    assert!(!token(src, 7, 1).is_valid());
    assert!(!token(src, 8, 0).is_valid());
    assert!(!token(src, 5, 3).is_valid());
    assert!(!token("", 0, 1).is_valid());
}

#[test]
fn span_whose_end_would_overflow_is_not_valid() {
    let src = "foo bar";
    let t = Token {
        column: 1,
        kind: TokenKind::Identifier,
        length: usize::MAX,
        line: 1,
        offset: 4,
        path: "test.txt",
        src,
    };
    assert!(!t.is_valid());
    let t = Token {
        column: 1,
        kind: TokenKind::Identifier,
        length: 1,
        line: 1,
        offset: usize::MAX,
        path: "test.txt",
        src,
    };
    assert!(!t.is_valid());
}

#[test]
fn span_that_cuts_a_character_is_not_valid() {
    let src = "é";
    assert!(token(src, 0, 2).is_valid());
    assert!(token(src, 0, 0).is_valid());
    assert!(token(src, 2, 0).is_valid());
    assert!(!token(src, 0, 1).is_valid());
    assert!(!token(src, 1, 1).is_valid());
    assert!(!token(src, 1, 0).is_valid());
}

#[test]
fn is_valid_agrees_with_checked_slicing() {
    let src = "a→b é";
    for offset in 0..=src.len() + 1 {
        for length in 0..=src.len() + 1 {
            let t = token(src, offset, length);
            assert_eq!(t.is_valid(), src.get(offset..offset + length).is_some());
            if t.is_valid() {
                assert_eq!(Some(t.lexeme()), src.get(offset..offset + length));
            }
        }
    }
}

#[test]
fn token_equality_compares_every_field() {
    let src = "foo bar";
    let t = token(src, 4, 3);
    assert!(t == t);
    assert!(t == token(src, 4, 3));
    assert!(t != Token { column: 6, ..t });
    assert!(t != Token { kind: TokenKind::Keyword, ..t });
    assert!(t != Token { length: 2, ..t });
    assert!(t != Token { line: 2, ..t });
    assert!(t != Token { offset: 3, ..t });
    assert!(t != Token { path: "other.txt", ..t });
    assert!(t != Token { src: "foo baz", ..t });
}

#[test]
fn token_equality_is_by_text_not_by_address() {
    let one = String::from("foo bar");
    let two = String::from("foo bar");
    let path_one = String::from("test.txt");
    let path_two = String::from("test.txt");
    let a = Token { path: &path_one, ..token(&one, 4, 3) };
    let b = Token { path: &path_two, ..token(&two, 4, 3) };
    assert!(a == b);
}

#[test]
fn token_error_is_anchored_at_the_token() {
    let src = "foo bar";
    let t = Token { kind: TokenKind::Keyword, ..token(src, 4, 3) };
    let error = t.error("unexpected token");
    assert!(error.token == t);
    assert_eq!(error.kind, "unexpected token");
    assert_eq!(error.token.path, "test.txt");
    assert_eq!(error.token.line, 1);
    assert_eq!(error.token.column, 5);
    assert_eq!(error.token.lexeme(), "bar");
}

#[test]
fn token_error_carries_any_kind() {
    #[derive(Debug, PartialEq)]
    enum Kind {
        UnknownStartOfToken,
        Expected { found: usize },
    }
    let t = token("foo bar", 0, 3);
    assert_eq!(t.error(Kind::UnknownStartOfToken).kind, Kind::UnknownStartOfToken);
    assert_eq!(t.error(Kind::Expected { found: 3 }).kind, Kind::Expected { found: 3 });
    assert_eq!(t.error(17u32).kind, 17);
}
