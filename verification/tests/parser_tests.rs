use nemet::ast::{
    CompileError, Expr, Node, Op, ParseError, TypeName, UnaryOp, VariableDecl,
};
use nemet::parser::{
    parse_expression, parse_function_source, parse_program, parse_var_decl_source,
};
use nemet::token::TokenKind;

fn decl(src: &[u8]) -> VariableDecl {
    parse_var_decl_source(src.to_vec()).expect("declaration should parse")
}

fn decl_tuple(src: &[u8]) -> (bool, bool, Vec<u8>, Option<Vec<u8>>, Option<Expr>) {
    let d = decl(src);
    (
        d.is_const,
        d.is_static,
        d.ident,
        d.kind.map(|t| t.name),
        d.init_value,
    )
}

fn str_init(s: &[u8]) -> Option<Expr> {
    Some(Expr::Str(s.to_vec()))
}

#[test]
fn form_explicit_type_no_init() {
    assert_eq!(
        decl_tuple(b"hello u32;"),
        (false, false, b"hello".to_vec(), Some(b"u32".to_vec()), None)
    );
}

#[test]
fn form_inferred_no_init() {
    assert_eq!(decl_tuple(b"hello;"), (false, false, b"hello".to_vec(), None, None));
}

#[test]
fn form_inferred_init() {
    assert_eq!(
        decl_tuple(b"hello = \"facts\";"),
        (false, false, b"hello".to_vec(), None, str_init(b"facts"))
    );
}

#[test]
fn form_explicit_type_init() {
    assert_eq!(
        decl_tuple(b"hello u32 = \"facts\";"),
        (false, false, b"hello".to_vec(), Some(b"u32".to_vec()), str_init(b"facts"))
    );
}

#[test]
fn form_inferred_const() {
    assert_eq!(
        decl_tuple(b"hello : \"facts\";"),
        (true, false, b"hello".to_vec(), None, str_init(b"facts"))
    );
}

#[test]
fn form_explicit_type_const() {
    assert_eq!(
        decl_tuple(b"hello u32 : \"facts\";"),
        (true, false, b"hello".to_vec(), Some(b"u32".to_vec()), str_init(b"facts"))
    );
}

#[test]
fn form_explicit_type_const_static() {
    assert_eq!(
        decl_tuple(b"hello u32 :: \"facts\";"),
        (true, true, b"hello".to_vec(), Some(b"u32".to_vec()), str_init(b"facts"))
    );
}

#[test]
fn form_inferred_const_static() {
    assert_eq!(
        decl_tuple(b"hello :: \"facts\";"),
        (true, true, b"hello".to_vec(), None, str_init(b"facts"))
    );
}

#[test]
fn initializer_kinds() {
    assert_eq!(decl(b"a = 7;").init_value, Some(Expr::Int(7)));
    assert_eq!(decl(b"a = 'z';").init_value, Some(Expr::Ch(b'z')));
    assert_eq!(decl(b"a = other;").init_value, Some(Expr::Ident(b"other".to_vec())));
}

#[test]
fn static_is_never_without_const() {
    for src in [
        &b"a;"[..],
        b"a u32;",
        b"a = 1;",
        b"a u32 = 1;",
        b"a : 1;",
        b"a u32 : 1;",
        b"a :: 1;",
        b"a u32 :: 1;",
    ] {
        let d = decl(src);
        assert!(!d.is_static || d.is_const);
    }
}

#[test]
fn missing_semicolon_at_eof_names_semicolon() {
    let e = parse_var_decl_source(b"hello u32 = 1".to_vec()).unwrap_err();
    match e {
        CompileError::Parse(ParseError::UnexpectedEof { expected, line, col }) => {
            assert_eq!(expected, vec![TokenKind::Semicolon]);
            assert_eq!((line, col), (1, 14));
        }
        other => panic!("expected UnexpectedEof, got {:?}", other),
    }
}

#[test]
fn bad_decision_token_names_the_expected_set() {
    let e = parse_var_decl_source(b"hello u32 + 1;".to_vec()).unwrap_err();
    match e {
        CompileError::Parse(ParseError::UnexpectedToken { expected, found, line, col }) => {
            assert_eq!(
                expected,
                vec![TokenKind::Colon, TokenKind::Equals, TokenKind::Semicolon]
            );
            assert_eq!(found, TokenKind::Plus);
            assert_eq!((line, col), (1, 11));
        }
        other => panic!("expected UnexpectedToken, got {:?}", other),
    }
}

#[test]
fn bad_initializer_token_names_the_expected_set() {
    let e = parse_var_decl_source(b"hello = ;".to_vec()).unwrap_err();
    match e {
        CompileError::Parse(ParseError::UnexpectedToken { expected, found, .. }) => {
            assert_eq!(
                expected,
                vec![
                    TokenKind::Number,
                    TokenKind::StrLit,
                    TokenKind::CharLit,
                    TokenKind::Ident
                ]
            );
            assert_eq!(found, TokenKind::Semicolon);
        }
        other => panic!("expected UnexpectedToken, got {:?}", other),
    }
}

fn num(v: u64) -> Box<Expr> {
    Box::new(Expr::Int(v))
}

fn ident(s: &[u8]) -> Box<Expr> {
    Box::new(Expr::Ident(s.to_vec()))
}

fn bin(lhs: Box<Expr>, op: Op, rhs: Box<Expr>) -> Box<Expr> {
    Box::new(Expr::Binary { lhs, op, rhs })
}

#[test]
fn precedence_binds_as_specified() {
    // 5 + 1 * 3 / a + 2  ==  ((5 + ((1 * 3) / a)) + 2)
    let e = parse_expression(b"5 + 1 * 3 / a + 2".to_vec()).unwrap();
    let expected = bin(
        bin(
            num(5),
            Op::Add,
            bin(bin(num(1), Op::Multi, num(3)), Op::Divide, ident(b"a")),
        ),
        Op::Add,
        num(2),
    );
    assert_eq!(e, *expected);
}

#[test]
fn binary_operators_are_left_associative() {
    let e = parse_expression(b"1 - 2 - 3".to_vec()).unwrap();
    assert_eq!(e, *bin(bin(num(1), Op::Sub, num(2)), Op::Sub, num(3)));
}

#[test]
fn shifts_bind_looser_than_additive() {
    let e = parse_expression(b"1 << 2 + 3".to_vec()).unwrap();
    assert_eq!(e, *bin(num(1), Op::Lsh, bin(num(2), Op::Add, num(3))));
}

#[test]
fn bitwise_tiers_or_xor_and() {
    let e = parse_expression(b"1 | 2 ^ 3 & 4".to_vec()).unwrap();
    assert_eq!(
        e,
        *bin(num(1), Op::Or, bin(num(2), Op::Xor, bin(num(3), Op::And, num(4))))
    );
}

#[test]
fn parentheses_override_precedence() {
    let e = parse_expression(b"(1 + 2) * 3".to_vec()).unwrap();
    assert_eq!(e, *bin(bin(num(1), Op::Add, num(2)), Op::Multi, num(3)));
}

#[test]
fn unary_binds_tighter_than_binary() {
    let e = parse_expression(b"-5 + !a".to_vec()).unwrap();
    assert_eq!(
        e,
        *bin(
            Box::new(Expr::Unary(UnaryOp::Neg, num(5))),
            Op::Add,
            Box::new(Expr::Unary(UnaryOp::Not, ident(b"a"))),
        )
    );
}

#[test]
fn identifier_before_lparen_stays_bare() {
    // a call form is reserved: the identifier must parse bare, the `(`
    // left in the stream
    let e = parse_expression(b"f(1)".to_vec()).unwrap_err();
    match e {
        CompileError::Parse(ParseError::UnexpectedToken { expected, found, .. }) => {
            assert_eq!(expected, vec![TokenKind::Eof]);
            assert_eq!(found, TokenKind::LParen);
        }
        other => panic!("expected UnexpectedToken, got {:?}", other),
    }
}

#[test]
fn number_value_wraps_modulo_two_to_the_sixty_four() {
    assert_eq!(parse_expression(b"42".to_vec()).unwrap(), Expr::Int(42));
    assert_eq!(
        parse_expression(b"18446744073709551615".to_vec()).unwrap(),
        Expr::Int(u64::MAX)
    );
    assert_eq!(parse_expression(b"18446744073709551616".to_vec()).unwrap(), Expr::Int(0));
}

#[test]
fn function_skeleton_parses() {
    // dispatch of the leading keyword has already been consumed
    let f = parse_function_source(b"main(a b, c d) u32 {}".to_vec()).unwrap();
    assert_eq!(f.ident, b"main".to_vec());
    assert_eq!(f.args.len(), 2);
    assert_eq!(f.args[0].ident, b"a".to_vec());
    assert_eq!(f.args[0].kind, TypeName { name: b"b".to_vec() });
    assert_eq!(f.args[1].ident, b"c".to_vec());
    assert_eq!(f.args[1].kind, TypeName { name: b"d".to_vec() });
    assert_eq!(f.return_type, TypeName { name: b"u32".to_vec() });
    assert!(f.body.is_empty());
}

#[test]
fn function_with_no_args() {
    let f = parse_function_source(b"m () u32 {}".to_vec()).unwrap();
    assert_eq!(f.ident, b"m".to_vec());
    assert!(f.args.is_empty());
}

#[test]
fn dangling_comma_in_args_is_tolerated() {
    let f = parse_function_source(b"f(a b,) u32 {}".to_vec()).unwrap();
    assert_eq!(f.args.len(), 1);
}

#[test]
fn nonempty_function_body_is_rejected() {
    let e = parse_function_source(b"f() u32 { x; }".to_vec()).unwrap_err();
    match e {
        CompileError::Parse(ParseError::UnexpectedToken { expected, found, .. }) => {
            assert_eq!(expected, vec![TokenKind::RBrace]);
            assert_eq!(found, TokenKind::Ident);
        }
        other => panic!("expected UnexpectedToken, got {:?}", other),
    }
}

#[test]
fn program_keeps_declaration_order() {
    let src = b"x u32 = 5;\ny : 'c';\nfun main() u32 {}\nz;".to_vec();
    let p = parse_program(src, "unit.nmt".to_string()).unwrap();
    assert_eq!(p.file_path, "unit.nmt".to_string());
    assert!(p.leading_directive.is_empty());
    assert_eq!(p.body.len(), 4);
    match &p.body[0] {
        Node::Variable(v) => assert_eq!(v.ident, b"x".to_vec()),
        other => panic!("expected a variable, got {:?}", other),
    }
    match &p.body[1] {
        Node::Variable(v) => {
            assert!(v.is_const);
            assert_eq!(v.init_value, Some(Expr::Ch(b'c')));
        }
        other => panic!("expected a variable, got {:?}", other),
    }
    match &p.body[2] {
        Node::Function(f) => assert_eq!(f.ident, b"main".to_vec()),
        other => panic!("expected a function, got {:?}", other),
    }
    match &p.body[3] {
        Node::Variable(v) => assert_eq!(v.ident, b"z".to_vec()),
        other => panic!("expected a variable, got {:?}", other),
    }
}

#[test]
fn program_with_leading_directive() {
    let p = parse_program(b"#!nemet v1\nx;".to_vec(), "d.nmt".to_string()).unwrap();
    assert_eq!(p.leading_directive, b"nemet v1".to_vec());
    assert_eq!(p.body.len(), 1);
}

#[test]
fn empty_program_parses() {
    let p = parse_program(b"  // nothing here\n".to_vec(), "e.nmt".to_string()).unwrap();
    assert!(p.body.is_empty());
}

#[test]
fn bad_top_level_token_names_the_expected_set() {
    let e = parse_program(b"+".to_vec(), "b.nmt".to_string()).unwrap_err();
    match e {
        CompileError::Parse(ParseError::UnexpectedToken { expected, found, line, col }) => {
            assert_eq!(expected, vec![TokenKind::KwFun, TokenKind::Ident]);
            assert_eq!(found, TokenKind::Plus);
            assert_eq!((line, col), (1, 1));
        }
        other => panic!("expected UnexpectedToken, got {:?}", other),
    }
}

#[test]
fn lex_error_surfaces_through_the_parser() {
    let e = parse_program(b"x = \"unterminated".to_vec(), "l.nmt".to_string()).unwrap_err();
    match e {
        CompileError::Lex(le) => {
            assert_eq!(le.kind, nemet::token::LexErrorKind::UnterminatedString);
            assert_eq!((le.line, le.col), (1, 5));
        }
        other => panic!("expected a lex error, got {:?}", other),
    }
}

#[test]
fn failed_parse_yields_no_partial_program() {
    // the parse aborts on the first error; nothing of the first, valid
    // declaration leaks out
    assert!(parse_program(b"x u32 = 1; +".to_vec(), "p.nmt".to_string()).is_err());
}

#[test]
fn unfinished_function_reports_eof_in_arg_list() {
    let e = parse_program(b"fun main(".to_vec(), "u.nmt".to_string()).unwrap_err();
    match e {
        CompileError::Parse(ParseError::UnexpectedEof { expected, .. }) => {
            assert_eq!(
                expected,
                vec![TokenKind::Ident, TokenKind::Comma, TokenKind::RParen]
            );
        }
        other => panic!("expected UnexpectedEof, got {:?}", other),
    }
}

#[test]
fn carriage_returns_are_whitespace() {
    let p = parse_program(b"a u32;\r\nb u8;\r\n".to_vec(), "w.nmt".to_string()).unwrap();
    assert_eq!(p.body.len(), 2);
}
