use nemet::lexer::{take_directive, Lexer};
use nemet::token::{LexErrorKind, Token, TokenKind};

fn lex_all(src: &[u8]) -> Vec<Token> {
    let mut lexer = Lexer::new(src.to_vec());
    let mut out = Vec::new();
    loop {
        let t = lexer.next_token().expect("lex error");
        let done = t.kind == TokenKind::Eof;
        out.push(t);
        if done {
            return out;
        }
    }
}

fn first_err(src: &[u8]) -> nemet::token::LexError {
    let mut lexer = Lexer::new(src.to_vec());
    loop {
        match lexer.next_token() {
            Ok(t) => {
                assert!(t.kind != TokenKind::Eof, "no lex error in input");
            }
            Err(e) => return e,
        }
    }
}

#[test]
fn string_literal_round_trips_source_slice() {
    let toks = lex_all(b"\"facts\"");
    assert_eq!(toks[0].kind, TokenKind::StrLit);
    assert_eq!(toks[0].literal, b"facts".to_vec());
    assert_eq!((toks[0].line, toks[0].col), (1, 1));
}

#[test]
fn char_literal_round_trips_source_byte() {
    let toks = lex_all(b"'x'");
    assert_eq!(toks[0].kind, TokenKind::CharLit);
    assert_eq!(toks[0].literal, vec![b'x']);
}

#[test]
fn string_escapes_become_literal_bytes() {
    let toks = lex_all(b"\"a\\nb\"");
    assert_eq!(toks[0].kind, TokenKind::StrLit);
    assert_eq!(toks[0].literal, vec![b'a', b'\n', b'b']);
}

#[test]
fn char_escape_tab_is_one_byte() {
    let toks = lex_all(b"'\\t'");
    assert_eq!(toks[0].kind, TokenKind::CharLit);
    assert_eq!(toks[0].literal, vec![9u8]);
}

#[test]
fn all_escapes_in_strings() {
    let toks = lex_all(b"\"\\n\\t\\r\\\\\\'\\\"\"");
    assert_eq!(toks[0].literal, vec![10u8, 9, 13, 92, 39, 34]);
}

#[test]
fn unescaped_interior_delimiter_ends_literal() {
    // "a"b" — the literal ends at the first unescaped quote
    let mut lexer = Lexer::new(b"\"a\"b\"".to_vec());
    let t = lexer.next_token().unwrap();
    assert_eq!(t.kind, TokenKind::StrLit);
    assert_eq!(t.literal, vec![b'a']);
    let t2 = lexer.next_token().unwrap();
    assert_eq!(t2.kind, TokenKind::Ident);
    assert_eq!(t2.literal, vec![b'b']);
    // the final quote opens a string that never closes
    let e = lexer.next_token().unwrap_err();
    assert_eq!(e.kind, LexErrorKind::UnterminatedString);
}

#[test]
fn eof_is_idempotent() {
    let mut lexer = Lexer::new(b"x".to_vec());
    assert_eq!(lexer.next_token().unwrap().kind, TokenKind::Ident);
    for _ in 0..5 {
        let t = lexer.next_token().unwrap();
        assert_eq!(t.kind, TokenKind::Eof);
    }
}

#[test]
fn eof_is_idempotent_on_empty_input() {
    let mut lexer = Lexer::new(Vec::new());
    for _ in 0..3 {
        assert_eq!(lexer.next_token().unwrap().kind, TokenKind::Eof);
    }
}

#[test]
fn line_comments_are_skipped() {
    let toks = lex_all(b"// greeting\nx");
    assert_eq!(toks[0].kind, TokenKind::Ident);
    assert_eq!(toks[0].literal, vec![b'x']);
    assert_eq!((toks[0].line, toks[0].col), (2, 1));
}

#[test]
fn comment_at_end_without_newline() {
    let toks = lex_all(b"x // trailing");
    assert_eq!(toks[0].kind, TokenKind::Ident);
    assert_eq!(toks[1].kind, TokenKind::Eof);
}

#[test]
fn single_slash_is_a_token() {
    let toks = lex_all(b"a / b");
    assert_eq!(toks[1].kind, TokenKind::Slash);
}

#[test]
fn locations_are_one_indexed() {
    let toks = lex_all(b"ab cd\n  ef");
    assert_eq!((toks[0].line, toks[0].col), (1, 1));
    assert_eq!((toks[1].line, toks[1].col), (1, 4));
    assert_eq!((toks[2].line, toks[2].col), (2, 3));
}

#[test]
fn keywords_resolve_exactly() {
    let toks = lex_all(b"if else for while loop break continue return to in enum struct fun");
    let kinds: Vec<TokenKind> = toks.iter().map(|t| t.kind).collect();
    assert_eq!(
        kinds,
        vec![
            TokenKind::KwIf,
            TokenKind::KwElse,
            TokenKind::KwFor,
            TokenKind::KwWhile,
            TokenKind::KwLoop,
            TokenKind::KwBreak,
            TokenKind::KwContinue,
            TokenKind::KwReturn,
            TokenKind::KwTo,
            TokenKind::KwIn,
            TokenKind::KwEnum,
            TokenKind::KwStruct,
            TokenKind::KwFun,
            TokenKind::Eof,
        ]
    );
}

#[test]
fn file_inclusion_keyword_resolves() {
    let word: Vec<u8> = vec![105, 110, 99, 108, 117, 100, 101];
    let toks = lex_all(&word);
    assert_eq!(toks[0].kind, TokenKind::KwIncl);
}

#[test]
fn near_keywords_are_identifiers() {
    let toks = lex_all(b"iff fo funn");
    assert!(toks[..3].iter().all(|t| t.kind == TokenKind::Ident));
}

#[test]
fn identifiers_take_underscores_and_trailing_digits() {
    let toks = lex_all(b"a_b u32");
    assert_eq!(toks[0].kind, TokenKind::Ident);
    assert_eq!(toks[0].literal, b"a_b".to_vec());
    assert_eq!(toks[1].kind, TokenKind::Ident);
    assert_eq!(toks[1].literal, b"u32".to_vec());
}

#[test]
fn digit_still_opens_a_number() {
    let toks = lex_all(b"1a");
    assert_eq!(toks[0].kind, TokenKind::Number);
    assert_eq!(toks[0].literal, b"1".to_vec());
    assert_eq!(toks[1].kind, TokenKind::Ident);
    assert_eq!(toks[1].literal, b"a".to_vec());
}

#[test]
fn numbers_are_maximal_digit_runs() {
    let toks = lex_all(b"12345 6");
    assert_eq!(toks[0].kind, TokenKind::Number);
    assert_eq!(toks[0].literal, b"12345".to_vec());
    assert_eq!(toks[1].literal, b"6".to_vec());
}

#[test]
fn punctuation_kinds() {
    let toks = lex_all(b"( ) { } [ ] , : ; = + - * % & | ^ ! @ < >");
    let kinds: Vec<TokenKind> = toks.iter().map(|t| t.kind).collect();
    assert_eq!(
        kinds,
        vec![
            TokenKind::LParen,
            TokenKind::RParen,
            TokenKind::LBrace,
            TokenKind::RBrace,
            TokenKind::LBracket,
            TokenKind::RBracket,
            TokenKind::Comma,
            TokenKind::Colon,
            TokenKind::Semicolon,
            TokenKind::Equals,
            TokenKind::Plus,
            TokenKind::Minus,
            TokenKind::Star,
            TokenKind::Percent,
            TokenKind::Amp,
            TokenKind::Pipe,
            TokenKind::Caret,
            TokenKind::Bang,
            TokenKind::At,
            TokenKind::Less,
            TokenKind::Greater,
            TokenKind::Eof,
        ]
    );
}

#[test]
fn shift_operators_are_two_byte_tokens() {
    let toks = lex_all(b"<< >> < <");
    assert_eq!(toks[0].kind, TokenKind::Shl);
    assert_eq!(toks[0].literal, b"<<".to_vec());
    assert_eq!(toks[1].kind, TokenKind::Shr);
    assert_eq!(toks[2].kind, TokenKind::Less);
    assert_eq!(toks[3].kind, TokenKind::Less);
}

#[test]
fn double_colon_is_two_colon_tokens() {
    let toks = lex_all(b"::");
    assert_eq!(toks[0].kind, TokenKind::Colon);
    assert_eq!(toks[1].kind, TokenKind::Colon);
}

#[test]
fn unterminated_string_is_an_error() {
    let e = first_err(b"\"abc");
    assert_eq!(e.kind, LexErrorKind::UnterminatedString);
    assert_eq!((e.line, e.col), (1, 1));
}

#[test]
fn raw_line_feed_in_string_is_an_error() {
    let e = first_err(b"\"ab\ncd\"");
    assert_eq!(e.kind, LexErrorKind::UnterminatedString);
}

#[test]
fn unterminated_char_is_an_error() {
    let e = first_err(b"'ab'");
    assert_eq!(e.kind, LexErrorKind::UnterminatedChar);
}

#[test]
fn empty_char_literal_is_an_error() {
    let e = first_err(b"''");
    assert_eq!(e.kind, LexErrorKind::EmptyCharLiteral);
}

#[test]
fn unsupported_escape_names_the_byte() {
    let e = first_err(b"\"a\\qb\"");
    assert_eq!(e.kind, LexErrorKind::UnsupportedEscape(b'q'));
}

#[test]
fn unsupported_char_escape_names_the_byte() {
    let e = first_err(b"'\\z'");
    assert_eq!(e.kind, LexErrorKind::UnsupportedEscape(b'z'));
}

#[test]
fn unrecognized_byte_names_the_byte() {
    let e = first_err(b"a $");
    assert_eq!(e.kind, LexErrorKind::UnrecognizedByte(b'$'));
    assert_eq!((e.line, e.col), (1, 3));
}

#[test]
fn lex_error_location_points_at_token_start() {
    let e = first_err(b"x\n  \"oops");
    assert_eq!(e.kind, LexErrorKind::UnterminatedString);
    assert_eq!((e.line, e.col), (2, 3));
}

#[test]
fn directive_text_is_extracted() {
    assert_eq!(take_directive(&b"#!v1 strict\nx;".to_vec()), b"v1 strict".to_vec());
    assert_eq!(take_directive(&b"x;".to_vec()), Vec::<u8>::new());
    assert_eq!(take_directive(&b"#!only".to_vec()), b"only".to_vec());
}
