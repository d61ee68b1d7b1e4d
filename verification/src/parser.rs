//! The recursive-descent parser: variable-declaration disambiguation,
//! function skeletons, precedence-climbing expressions, and the top-level
//! program loop.
//!
//! The mathematical model is a family of spec-level parsing functions over
//! the byte sequence and a cursor; each takes the cursor a production starts
//! at and yields the parsed value (as a spec mirror) or the structured error,
//! together with the cursor afterwards.  Every executable parsing function is
//! proved to behave exactly as its model.  The parser pulls tokens from the
//! lexer on demand and buffers at most one token of lookahead; it never
//! rewinds the lexer.

use vstd::prelude::*;
use crate::ast::{
    Arg, CompileError, Expr, FunctionDecl, Node, ParseError, Program, SpecArg, SpecCompileError,
    SpecExpr, SpecFunctionDecl, SpecNode, SpecParseError, SpecVarDecl, TypeName, UnaryOp,
    VariableDecl, Op,
};
use crate::lexer::{
    init_cur, lemma_next_token_props, spec_directive, spec_next_token, take_directive, Cur, Lexer,
};
use crate::token::{SpecTok, Token, TokenKind};

verus! {

// ---------------------------------------------------------------------------
// small helpers of the model
// ---------------------------------------------------------------------------

/// Cursor well-formedness against a buffer length.
pub open spec fn cur_wf(c: Cur, len: nat) -> bool {
    &&& c.line_start <= c.pos <= len
    &&& 1 <= c.row <= c.line_start + 1
}

/// The structured error for a token that was not in the admissible set:
/// end of input gets its own variant.
pub open spec fn sp_unexpected(expected: Seq<TokenKind>, t: SpecTok) -> SpecCompileError {
    if t.kind == TokenKind::Eof {
        SpecCompileError::Parse(
            SpecParseError::UnexpectedEof { expected, line: t.line, col: t.col },
        )
    } else {
        SpecCompileError::Parse(
            SpecParseError::UnexpectedToken { expected, found: t.kind, line: t.line, col: t.col },
        )
    }
}

/// The digits of a `Number` token read base 10, folded left to right and
/// reduced modulo 2^64 at every step.
pub open spec fn digits_fold(s: Seq<u8>, acc: u64) -> u64
    decreases s.len(),
{
    if s.len() == 0 {
        acc
    } else {
        let d: int = if 48 <= s[0] <= 57 {
            s[0] - 48
        } else {
            0
        };
        digits_fold(s.subrange(1, s.len() as int), ((acc * 10 + d) % 0x1_0000_0000_0000_0000) as u64)
    }
}

/// The single-token initializer an init token stands for, or `None` when the
/// token cannot open an initializer.
pub open spec fn init_expr_of(t: SpecTok) -> Option<SpecExpr> {
    if t.kind == TokenKind::Number {
        Some(SpecExpr::Int(digits_fold(t.lit, 0)))
    } else if t.kind == TokenKind::StrLit {
        Some(SpecExpr::Str(t.lit))
    } else if t.kind == TokenKind::CharLit {
        Some(SpecExpr::Ch(if t.lit.len() >= 1 {
            t.lit[0]
        } else {
            0
        }))
    } else if t.kind == TokenKind::Ident {
        Some(SpecExpr::Ident(t.lit))
    } else {
        None
    }
}

/// What may stand where a declaration decides its form, depending on whether
/// a type name has already been consumed.
pub open spec fn decision_expected(has_type: bool) -> Seq<TokenKind> {
    if has_type {
        seq![TokenKind::Colon, TokenKind::Equals, TokenKind::Semicolon]
    } else {
        seq![TokenKind::Ident, TokenKind::Colon, TokenKind::Equals, TokenKind::Semicolon]
    }
}

/// What may stand as a single-token initializer.
pub open spec fn init_expected() -> Seq<TokenKind> {
    seq![TokenKind::Number, TokenKind::StrLit, TokenKind::CharLit, TokenKind::Ident]
}

/// What may stand inside a parameter list.
pub open spec fn arg_expected() -> Seq<TokenKind> {
    seq![TokenKind::Ident, TokenKind::Comma, TokenKind::RParen]
}

/// What may open an expression.
pub open spec fn expr_expected() -> Seq<TokenKind> {
    seq![
        TokenKind::Number,
        TokenKind::StrLit,
        TokenKind::CharLit,
        TokenKind::Ident,
        TokenKind::LParen,
        TokenKind::Minus,
        TokenKind::Bang,
    ]
}

/// What may open a top-level declaration.
pub open spec fn top_expected() -> Seq<TokenKind> {
    seq![TokenKind::KwFun, TokenKind::Ident]
}

/// Binding strength of a binary-operator token, 0 for anything that is not
/// one.  Lowest to highest: `|`, `^`, `&`, shifts, additive, multiplicative.
pub open spec fn prec_of(k: TokenKind) -> u32 {
    match k {
        TokenKind::Pipe => 1,
        TokenKind::Caret => 2,
        TokenKind::Amp => 3,
        TokenKind::Shl => 4,
        TokenKind::Shr => 4,
        TokenKind::Plus => 5,
        TokenKind::Minus => 5,
        TokenKind::Star => 6,
        TokenKind::Slash => 6,
        TokenKind::Percent => 6,
        _ => 0,
    }
}

/// The binary operator a token stands for (meaningful only when `prec_of`
/// is positive).
pub open spec fn binop_of(k: TokenKind) -> Op {
    match k {
        TokenKind::Pipe => Op::Or,
        TokenKind::Caret => Op::Xor,
        TokenKind::Amp => Op::And,
        TokenKind::Shl => Op::Lsh,
        TokenKind::Shr => Op::Rsh,
        TokenKind::Plus => Op::Add,
        TokenKind::Minus => Op::Sub,
        TokenKind::Star => Op::Multi,
        TokenKind::Slash => Op::Divide,
        TokenKind::Percent => Op::Mod,
        _ => Op::Add,
    }
}

// ---------------------------------------------------------------------------
// the model of the declaration parser
// ---------------------------------------------------------------------------

/// One initializer token already in hand: close the production with `;`.
pub open spec fn spec_var_init_with(
    src: Seq<u8>,
    c: Cur,
    ident: Seq<u8>,
    kind: Option<Seq<u8>>,
    is_const: bool,
    is_static: bool,
    t: SpecTok,
) -> (Result<SpecVarDecl, SpecCompileError>, Cur) {
    match init_expr_of(t) {
        None => (Err(sp_unexpected(init_expected(), t)), c),
        Some(e) => {
            let (r2, c2) = spec_next_token(src, c);
            match r2 {
                Err(se) => (Err(SpecCompileError::Lex(se)), c2),
                Ok(t2) => if t2.kind == TokenKind::Semicolon {
                    (
                        Ok(
                            SpecVarDecl {
                                is_const,
                                is_static,
                                ident,
                                kind,
                                init_value: Some(e),
                            },
                        ),
                        c2,
                    )
                } else {
                    (Err(sp_unexpected(seq![TokenKind::Semicolon], t2)), c2)
                },
            }
        },
    }
}

/// Fetch the one initializer token, then close with `;`.
pub open spec fn spec_var_init(
    src: Seq<u8>,
    c: Cur,
    ident: Seq<u8>,
    kind: Option<Seq<u8>>,
    is_const: bool,
    is_static: bool,
) -> (Result<SpecVarDecl, SpecCompileError>, Cur) {
    let (r, c1) = spec_next_token(src, c);
    match r {
        Err(se) => (Err(SpecCompileError::Lex(se)), c1),
        Ok(t) => spec_var_init_with(src, c1, ident, kind, is_const, is_static, t),
    }
}

/// The form decision of the declaration disambiguation: the decision token
/// `t` is already in hand, a type name may or may not have been consumed.
/// `;` ends the no-initializer forms; `=` commits to fully mutable; `:`
/// commits to const, and a second consecutive `:` additionally to static —
/// static is unreachable without const.
pub open spec fn spec_var_tail(
    src: Seq<u8>,
    c: Cur,
    ident: Seq<u8>,
    kind: Option<Seq<u8>>,
    t: SpecTok,
) -> (Result<SpecVarDecl, SpecCompileError>, Cur) {
    if t.kind == TokenKind::Semicolon {
        (Ok(SpecVarDecl { is_const: false, is_static: false, ident, kind, init_value: None }), c)
    } else if t.kind == TokenKind::Equals {
        spec_var_init(src, c, ident, kind, false, false)
    } else if t.kind == TokenKind::Colon {
        let (r2, c2) = spec_next_token(src, c);
        match r2 {
            Err(se) => (Err(SpecCompileError::Lex(se)), c2),
            Ok(t2) => if t2.kind == TokenKind::Colon {
                spec_var_init(src, c2, ident, kind, true, true)
            } else {
                spec_var_init_with(src, c2, ident, kind, true, false, t2)
            },
        }
    } else {
        (Err(sp_unexpected(decision_expected(kind is Some), t)), c)
    }
}

/// A whole variable declaration, the leading identifier `first` already
/// consumed: an identifier next is the type name, then the form decision.
pub open spec fn spec_parse_var_decl(src: Seq<u8>, c: Cur, first: SpecTok) -> (
    Result<SpecVarDecl, SpecCompileError>,
    Cur,
) {
    let (r1, c1) = spec_next_token(src, c);
    match r1 {
        Err(se) => (Err(SpecCompileError::Lex(se)), c1),
        Ok(t1) => if t1.kind == TokenKind::Ident {
            let (r2, c2) = spec_next_token(src, c1);
            match r2 {
                Err(se) => (Err(SpecCompileError::Lex(se)), c2),
                Ok(t2) => spec_var_tail(src, c2, first.lit, Some(t1.lit), t2),
            }
        } else {
            spec_var_tail(src, c1, first.lit, None, t1)
        },
    }
}

// ---------------------------------------------------------------------------
// the model of the function parser
// ---------------------------------------------------------------------------

/// The parameter list, read until `)`: name-type identifier pairs, commas
/// accepted anywhere as separators — in particular dangling and repeated
/// commas, which the loop structure deliberately tolerates.
pub open spec fn spec_parse_args(src: Seq<u8>, c: Cur, acc: Seq<SpecArg>) -> (
    Result<Seq<SpecArg>, SpecCompileError>,
    Cur,
)
    decreases src.len() - c.pos,
{
    let (r, c1) = spec_next_token(src, c);
    match r {
        Err(se) => (Err(SpecCompileError::Lex(se)), c1),
        Ok(t) => if t.kind == TokenKind::RParen {
            (Ok(acc), c1)
        } else if t.kind == TokenKind::Comma {
            if c.pos < c1.pos <= src.len() {
                spec_parse_args(src, c1, acc)
            } else {
                // not reached: a consumed token advances the cursor
                // (lemma_next_token_props); the guard keeps recursion
                // well founded
                arbitrary()
            }
        } else if t.kind == TokenKind::Ident {
            let (r2, c2) = spec_next_token(src, c1);
            match r2 {
                Err(se) => (Err(SpecCompileError::Lex(se)), c2),
                Ok(t2) => if t2.kind == TokenKind::Ident {
                    if c.pos < c2.pos <= src.len() {
                        spec_parse_args(src, c2, acc.push(SpecArg { ident: t.lit, kind: t2.lit }))
                    } else {
                        // not reached: sub-parses only succeed after
                        // consuming tokens; the guard keeps recursion
                        // well founded
                        arbitrary()
                    }
                } else {
                    (Err(sp_unexpected(seq![TokenKind::Ident], t2)), c2)
                },
            }
        } else {
            (Err(sp_unexpected(arg_expected(), t)), c1)
        },
    }
}

/// A function skeleton, the `fun` keyword already consumed:
/// `ident ( params ) ident { }` — the brace pair must be empty, body
/// parsing being out of the current grammar.
pub open spec fn spec_parse_function(src: Seq<u8>, c: Cur) -> (
    Result<SpecFunctionDecl, SpecCompileError>,
    Cur,
) {
    let (r1, c1) = spec_next_token(src, c);
    match r1 {
        Err(se) => (Err(SpecCompileError::Lex(se)), c1),
        Ok(t1) => if t1.kind != TokenKind::Ident {
            (Err(sp_unexpected(seq![TokenKind::Ident], t1)), c1)
        } else {
            let (r2, c2) = spec_next_token(src, c1);
            match r2 {
                Err(se) => (Err(SpecCompileError::Lex(se)), c2),
                Ok(t2) => if t2.kind != TokenKind::LParen {
                    (Err(sp_unexpected(seq![TokenKind::LParen], t2)), c2)
                } else {
                    let (ra, c3) = spec_parse_args(src, c2, Seq::empty());
                    match ra {
                        Err(e) => (Err(e), c3),
                        Ok(args) => {
                            let (r4, c4) = spec_next_token(src, c3);
                            match r4 {
                                Err(se) => (Err(SpecCompileError::Lex(se)), c4),
                                Ok(t4) => if t4.kind != TokenKind::Ident {
                                    (Err(sp_unexpected(seq![TokenKind::Ident], t4)), c4)
                                } else {
                                    let (r5, c5) = spec_next_token(src, c4);
                                    match r5 {
                                        Err(se) => (Err(SpecCompileError::Lex(se)), c5),
                                        Ok(t5) => if t5.kind != TokenKind::LBrace {
                                            (Err(sp_unexpected(seq![TokenKind::LBrace], t5)), c5)
                                        } else {
                                            let (r6, c6) = spec_next_token(src, c5);
                                            match r6 {
                                                Err(se) => (Err(SpecCompileError::Lex(se)), c6),
                                                Ok(t6) => if t6.kind != TokenKind::RBrace {
                                                    (
                                                        Err(
                                                            sp_unexpected(
                                                                seq![TokenKind::RBrace],
                                                                t6,
                                                            ),
                                                        ),
                                                        c6,
                                                    )
                                                } else {
                                                    (
                                                        Ok(
                                                            SpecFunctionDecl {
                                                                ident: t1.lit,
                                                                args,
                                                                return_type: t4.lit,
                                                                body: Seq::empty(),
                                                            },
                                                        ),
                                                        c6,
                                                    )
                                                },
                                            }
                                        },
                                    }
                                },
                            }
                        },
                    }
                },
            }
        },
    }
}

// ---------------------------------------------------------------------------
// the model of the expression parser
// ---------------------------------------------------------------------------

/// A primary: literal, identifier, or parenthesized sub-expression.  An
/// identifier directly followed by `(` is parsed as the bare identifier, the
/// `(` left in the stream — reserved for a future call form.
pub open spec fn spec_parse_primary(src: Seq<u8>, c: Cur) -> (
    Result<SpecExpr, SpecCompileError>,
    Cur,
)
    decreases src.len() - c.pos, 0nat,
{
    let (r, c1) = spec_next_token(src, c);
    match r {
        Err(se) => (Err(SpecCompileError::Lex(se)), c1),
        Ok(t) => if t.kind == TokenKind::Number {
            (Ok(SpecExpr::Int(digits_fold(t.lit, 0))), c1)
        } else if t.kind == TokenKind::StrLit {
            (Ok(SpecExpr::Str(t.lit)), c1)
        } else if t.kind == TokenKind::CharLit {
            (
                Ok(SpecExpr::Ch(if t.lit.len() >= 1 {
                    t.lit[0]
                } else {
                    0
                })),
                c1,
            )
        } else if t.kind == TokenKind::Ident {
            (Ok(SpecExpr::Ident(t.lit)), c1)
        } else if t.kind == TokenKind::LParen {
            if c.pos < c1.pos <= src.len() {
                let (r2, c2) = spec_parse_bin(src, c1, 1);
                match r2 {
                    Err(e) => (Err(e), c2),
                    Ok(inner) => {
                        let (r3, c3) = spec_next_token(src, c2);
                        match r3 {
                            Err(se) => (Err(SpecCompileError::Lex(se)), c3),
                            Ok(t3) => if t3.kind == TokenKind::RParen {
                                (Ok(inner), c3)
                            } else {
                                (Err(sp_unexpected(seq![TokenKind::RParen], t3)), c3)
                            },
                        }
                    },
                }
            } else {
                // not reached: a consumed token advances the cursor
                // (lemma_next_token_props); the guard keeps recursion
                // well founded
                arbitrary()
            }
        } else {
            (Err(sp_unexpected(expr_expected(), t)), c1)
        },
    }
}

/// A unary chain: `-` and `!` bind tighter than any binary operator.
pub open spec fn spec_parse_unary(src: Seq<u8>, c: Cur) -> (
    Result<SpecExpr, SpecCompileError>,
    Cur,
)
    decreases src.len() - c.pos, 1nat,
{
    let (r, c1) = spec_next_token(src, c);
    match r {
        Err(se) => (Err(SpecCompileError::Lex(se)), c1),
        Ok(t) => if t.kind == TokenKind::Minus || t.kind == TokenKind::Bang {
            if c.pos < c1.pos <= src.len() {
                let (r2, c2) = spec_parse_unary(src, c1);
                match r2 {
                    Err(e) => (Err(e), c2),
                    Ok(e) => (
                        Ok(
                            SpecExpr::Unary(
                                if t.kind == TokenKind::Minus {
                                    UnaryOp::Neg
                                } else {
                                    UnaryOp::Not
                                },
                                Box::new(e),
                            ),
                        ),
                        c2,
                    ),
                }
            } else {
                // not reached: a consumed token advances the cursor
                // (lemma_next_token_props); the guard keeps recursion
                // well founded
                arbitrary()
            }
        } else {
            spec_parse_primary(src, c)
        },
    }
}

/// A binary expression by precedence climbing, all binary operators left
/// associative: operators weaker than `min_prec` are left for the caller,
/// and so is the token that follows the expression.
pub open spec fn spec_parse_bin(src: Seq<u8>, c: Cur, min_prec: u32) -> (
    Result<SpecExpr, SpecCompileError>,
    Cur,
)
    decreases src.len() - c.pos, 2nat,
{
    let (r, c1) = spec_parse_unary(src, c);
    match r {
        Err(e) => (Err(e), c1),
        Ok(lhs) => if c.pos < c1.pos <= src.len() {
            spec_bin_loop(src, c1, lhs, min_prec)
        } else {
            // not reached: a parsed operand advances the cursor
            arbitrary()
        },
    }
}

/// The climbing loop: while the next token is an operator of at least
/// `min_prec`, bind it and a right operand of strictly higher tier onto
/// `lhs`.  When the next token is no such operator the cursor stays before
/// it.
pub open spec fn spec_bin_loop(src: Seq<u8>, c: Cur, lhs: SpecExpr, min_prec: u32) -> (
    Result<SpecExpr, SpecCompileError>,
    Cur,
)
    decreases src.len() - c.pos, 3nat,
{
    let (r, c1) = spec_next_token(src, c);
    match r {
        Err(se) => (Err(SpecCompileError::Lex(se)), c1),
        Ok(t) => if prec_of(t.kind) >= 1 && prec_of(t.kind) >= min_prec {
            if c.pos < c1.pos <= src.len() {
                let (r2, c2) = spec_parse_bin(src, c1, (prec_of(t.kind) + 1) as u32);
                match r2 {
                    Err(e) => (Err(e), c2),
                    Ok(rhs) => {
                        let joined = SpecExpr::Binary {
                            lhs: Box::new(lhs),
                            op: binop_of(t.kind),
                            rhs: Box::new(rhs),
                        };
                        if c.pos < c2.pos <= src.len() {
                            spec_bin_loop(src, c2, joined, min_prec)
                        } else {
                            // not reached: the operand parse advances the cursor
                            arbitrary()
                        }
                    },
                }
            } else {
                // not reached: a consumed token advances the cursor
                // (lemma_next_token_props); the guard keeps recursion
                // well founded
                arbitrary()
            }
        } else {
            (Ok(lhs), c)
        },
    }
}

// ---------------------------------------------------------------------------
// the model of the program assembler
// ---------------------------------------------------------------------------

/// The top-level loop: `fun` opens a function, a bare identifier opens a
/// variable declaration, `Eof` ends the program, anything else is a syntax
/// error.  There is no recovery: the first error aborts the parse.
pub open spec fn spec_parse_program_loop(src: Seq<u8>, c: Cur, acc: Seq<SpecNode>) -> (
    Result<Seq<SpecNode>, SpecCompileError>,
    Cur,
)
    decreases src.len() - c.pos,
{
    let (r, c1) = spec_next_token(src, c);
    match r {
        Err(se) => (Err(SpecCompileError::Lex(se)), c1),
        Ok(t) => if t.kind == TokenKind::Eof {
            (Ok(acc), c1)
        } else if t.kind == TokenKind::KwFun {
            if c.pos < c1.pos <= src.len() {
                let (rf, c2) = spec_parse_function(src, c1);
                match rf {
                    Err(e) => (Err(e), c2),
                    Ok(f) => if c.pos < c2.pos <= src.len() {
                        spec_parse_program_loop(src, c2, acc.push(SpecNode::Function(f)))
                    } else {
                        // not reached: sub-parses only succeed after
                        // consuming tokens; the guard keeps recursion
                        // well founded
                        arbitrary()
                    },
                }
            } else {
                // not reached: a consumed token advances the cursor
                // (lemma_next_token_props); the guard keeps recursion
                // well founded
                arbitrary()
            }
        } else if t.kind == TokenKind::Ident {
            let (rv, c2) = spec_parse_var_decl(src, c1, t);
            match rv {
                Err(e) => (Err(e), c2),
                Ok(v) => if c.pos < c2.pos <= src.len() {
                    spec_parse_program_loop(src, c2, acc.push(SpecNode::Variable(v)))
                } else {
                    arbitrary()
                },
            }
        } else {
            (Err(sp_unexpected(top_expected(), t)), c1)
        },
    }
}

/// A whole source buffer: the leading directive, then the declarations.
pub open spec fn spec_parse_source(src: Seq<u8>) -> Result<
    (Seq<u8>, Seq<SpecNode>),
    SpecCompileError,
> {
    let (r, c) = spec_parse_program_loop(src, init_cur(src), Seq::empty());
    match r {
        Ok(nodes) => Ok((spec_directive(src), nodes)),
        Err(e) => Err(e),
    }
}

/// One expression filling the whole buffer: parsed from the lowest tier,
/// and the input must end right after it.
pub open spec fn spec_parse_expression(src: Seq<u8>) -> Result<SpecExpr, SpecCompileError> {
    let (r, c1) = spec_parse_bin(src, init_cur(src), 1);
    match r {
        Err(e) => Err(e),
        Ok(e) => {
            let (r2, c2) = spec_next_token(src, c1);
            match r2 {
                Err(se) => Err(SpecCompileError::Lex(se)),
                Ok(t) => if t.kind == TokenKind::Eof {
                    Ok(e)
                } else {
                    Err(sp_unexpected(seq![TokenKind::Eof], t))
                },
            }
        },
    }
}

// ---------------------------------------------------------------------------
// executable helpers
// ---------------------------------------------------------------------------

#[verifier::when_used_as_spec(prec_of)]
pub fn prec_of_ex(k: TokenKind) -> (r: u32)
    ensures
        r == prec_of(k),
{
    match k {
        TokenKind::Pipe => 1,
        TokenKind::Caret => 2,
        TokenKind::Amp => 3,
        TokenKind::Shl => 4,
        TokenKind::Shr => 4,
        TokenKind::Plus => 5,
        TokenKind::Minus => 5,
        TokenKind::Star => 6,
        TokenKind::Slash => 6,
        TokenKind::Percent => 6,
        _ => 0,
    }
}

#[verifier::when_used_as_spec(binop_of)]
pub fn binop_of_ex(k: TokenKind) -> (r: Op)
    ensures
        r == binop_of(k),
{
    match k {
        TokenKind::Pipe => Op::Or,
        TokenKind::Caret => Op::Xor,
        TokenKind::Amp => Op::And,
        TokenKind::Shl => Op::Lsh,
        TokenKind::Shr => Op::Rsh,
        TokenKind::Plus => Op::Add,
        TokenKind::Minus => Op::Sub,
        TokenKind::Star => Op::Multi,
        TokenKind::Slash => Op::Divide,
        TokenKind::Percent => Op::Mod,
        _ => Op::Add,
    }
}

/// Base-10 reading of a digit run, reduced modulo 2^64.
pub fn digits_to_u64(v: &Vec<u8>) -> (r: u64)
    ensures
        r == digits_fold(v@, 0),
{
    let mut acc: u64 = 0;
    let mut i: usize = 0;
    proof {
        assert(v@.subrange(0, v@.len() as int) =~= v@);
    }
    while i < v.len()
        invariant
            i <= v@.len(),
            digits_fold(v@, 0) == digits_fold(v@.subrange(i as int, v@.len() as int), acc),
        decreases v@.len() - i,
    {
        let b = v[i];
        let d: u64 = if 48 <= b && b <= 57 {
            (b - 48) as u64
        } else {
            0
        };
        let wide: u128 = acc as u128 * 10 + d as u128;
        let next: u64 = (wide % 0x1_0000_0000_0000_0000u128) as u64;
        proof {
            let s = v@.subrange(i as int, v@.len() as int);
            assert(s.len() > 0);
            assert(s[0] == v@[i as int]);
            assert(s.subrange(1, s.len() as int) =~= v@.subrange(i as int + 1, v@.len() as int));
            assert(digits_fold(s, acc) == digits_fold(
                v@.subrange(i as int + 1, v@.len() as int),
                next,
            ));
        }
        acc = next;
        i = i + 1;
    }
    proof {
        assert(v@.subrange(v@.len() as int, v@.len() as int) =~= Seq::<u8>::empty());
    }
    acc
}

/// Build the structured error for a token outside the admissible set.
fn unexpected(expected: Vec<TokenKind>, t: &Token) -> (r: CompileError)
    ensures
        r@ == sp_unexpected(expected@, t@),
{
    if t.kind == TokenKind::Eof {
        CompileError::Parse(
            ParseError::UnexpectedEof { expected, line: t.line, col: t.col },
        )
    } else {
        CompileError::Parse(
            ParseError::UnexpectedToken { expected, found: t.kind, line: t.line, col: t.col },
        )
    }
}

fn decision_expected_vec(has_type: bool) -> (r: Vec<TokenKind>)
    ensures
        r@ == decision_expected(has_type),
{
    if has_type {
        let v = vec![TokenKind::Colon, TokenKind::Equals, TokenKind::Semicolon];
        assert(v@ =~= decision_expected(true));
        v
    } else {
        let v = vec![
            TokenKind::Ident,
            TokenKind::Colon,
            TokenKind::Equals,
            TokenKind::Semicolon,
        ];
        assert(v@ =~= decision_expected(false));
        v
    }
}

fn init_expected_vec() -> (r: Vec<TokenKind>)
    ensures
        r@ == init_expected(),
{
    let v = vec![TokenKind::Number, TokenKind::StrLit, TokenKind::CharLit, TokenKind::Ident];
    assert(v@ =~= init_expected());
    v
}

fn arg_expected_vec() -> (r: Vec<TokenKind>)
    ensures
        r@ == arg_expected(),
{
    let v = vec![TokenKind::Ident, TokenKind::Comma, TokenKind::RParen];
    assert(v@ =~= arg_expected());
    v
}

fn expr_expected_vec() -> (r: Vec<TokenKind>)
    ensures
        r@ == expr_expected(),
{
    let v = vec![
        TokenKind::Number,
        TokenKind::StrLit,
        TokenKind::CharLit,
        TokenKind::Ident,
        TokenKind::LParen,
        TokenKind::Minus,
        TokenKind::Bang,
    ];
    assert(v@ =~= expr_expected());
    v
}

fn top_expected_vec() -> (r: Vec<TokenKind>)
    ensures
        r@ == top_expected(),
{
    let v = vec![TokenKind::KwFun, TokenKind::Ident];
    assert(v@ =~= top_expected());
    v
}

fn one_expected_vec(k: TokenKind) -> (r: Vec<TokenKind>)
    ensures
        r@ == seq![k],
{
    let v = vec![k];
    assert(v@ =~= seq![k]);
    v
}

/// Whether a token kind may open a single-token initializer.
fn is_init_kind(k: TokenKind) -> (r: bool)
    ensures
        r == (k == TokenKind::Number || k == TokenKind::StrLit || k == TokenKind::CharLit || k
            == TokenKind::Ident),
{
    k == TokenKind::Number || k == TokenKind::StrLit || k == TokenKind::CharLit || k
        == TokenKind::Ident
}

/// The single-token initializer an init token stands for.
fn init_expr_must(t: Token) -> (r: Expr)
    requires
        init_expr_of(t@) is Some,
    ensures
        Some(r@) == init_expr_of(t@),
{
    match t.kind {
        TokenKind::Number => {
            let value = digits_to_u64(&t.literal);
            Expr::Int(value)
        },
        TokenKind::StrLit => Expr::Str(t.literal),
        TokenKind::CharLit => {
            if t.literal.len() >= 1 {
                Expr::Ch(t.literal[0])
            } else {
                Expr::Ch(0)
            }
        },
        _ => Expr::Ident(t.literal),
    }
}

/// The view of an optional type name.
pub open spec fn kind_view(k: Option<TypeName>) -> Option<Seq<u8>> {
    match k {
        Some(t) => Some(t@),
        None => None,
    }
}

// ---------------------------------------------------------------------------
// the parser
// ---------------------------------------------------------------------------

/// The parser: the lexer it pulls from, plus at most one buffered token of
/// lookahead.  `at` is the ghost cursor the buffered token was read from, so
/// that the parser's abstract position (`cur`) stands before that token.
pub struct Parser {
    pub lexer: Lexer,
    pub peeked: Option<Token>,
    pub at: Ghost<Cur>,
}

impl Parser {
    /// The byte buffer being parsed.
    pub open spec fn src(self) -> Seq<u8> {
        self.lexer.src@
    }

    /// The parser's abstract cursor: before the buffered token if there is
    /// one, else the lexer's own cursor.
    pub open spec fn cur(self) -> Cur {
        if self.peeked is Some {
            self.at@
        } else {
            self.lexer.cur()
        }
    }

    /// Well-formedness: the lexer is well formed, and a buffered token is
    /// exactly what the model produces at the ghost cursor, the lexer
    /// standing right after it.
    pub open spec fn wf(self) -> bool {
        &&& self.lexer.wf()
        &&& match self.peeked {
            Some(t) => {
                &&& cur_wf(self.at@, self.src().len())
                &&& spec_next_token(self.src(), self.at@).0 == Ok::<SpecTok, crate::token::SpecErr>(
                    t@,
                )
                &&& spec_next_token(self.src(), self.at@).1 == self.lexer.cur()
            },
            None => true,
        }
    }

    /// A fresh parser at the lexer's current position.
    pub fn new(lexer: Lexer) -> (r: Parser)
        requires
            lexer.wf(),
        ensures
            r.wf(),
            r.src() == lexer.src@,
            r.cur() == lexer.cur(),
    {
        Parser { lexer, peeked: None, at: Ghost(Cur { pos: 0, line_start: 0, row: 1 }) }
    }

    /// The kind of the next token, without consuming it.  On a lexical error
    /// the error is returned and nothing is buffered.
    fn peek_kind(&mut self) -> (r: Result<TokenKind, CompileError>)
        requires
            old(self).wf(),
        ensures
            final(self).wf(),
            final(self).src() == old(self).src(),
            match r {
                Ok(k) => {
                    &&& final(self).cur() == old(self).cur()
                    &&& spec_next_token(old(self).src(), old(self).cur()).0 matches Ok(st)
                        && st.kind == k
                },
                Err(e) => {
                    &&& spec_next_token(old(self).src(), old(self).cur()).0 matches Err(se)
                        && e@ == SpecCompileError::Lex(se)
                    &&& final(self).cur() == spec_next_token(
                        old(self).src(),
                        old(self).cur(),
                    ).1
                },
            },
    {
        if self.peeked.is_none() {
            let ghost c = self.lexer.cur();
            match self.lexer.next_token() {
                Ok(t) => {
                    self.peeked = Some(t);
                    self.at = Ghost(c);
                },
                Err(e) => {
                    return Err(CompileError::Lex(e));
                },
            }
        }
        match &self.peeked {
            Some(t) => Ok(t.kind),
            None => {
                proof {
                    assert(false);
                }
                Err(CompileError::Lex(crate::token::LexError {
                    kind: crate::token::LexErrorKind::UnrecognizedByte(0),
                    line: 0,
                    col: 0,
                }))
            },
        }
    }

    /// Cursor well-formedness holds at the parser's abstract cursor.
    proof fn lemma_cur_wf(&self)
        requires
            self.wf(),
        ensures
            cur_wf(self.cur(), self.src().len()),
    {
    }

    /// The next token, consumed.  Behaves exactly as `spec_next_token` from
    /// the parser's abstract cursor.
    fn bump(&mut self) -> (r: Result<Token, CompileError>)
        requires
            old(self).wf(),
        ensures
            final(self).wf(),
            final(self).src() == old(self).src(),
            final(self).peeked is None,
            final(self).cur() == spec_next_token(old(self).src(), old(self).cur()).1,
            match (r, spec_next_token(old(self).src(), old(self).cur()).0) {
                (Ok(t), Ok(st)) => t@ == st,
                (Err(e), Err(se)) => e@ == SpecCompileError::Lex(se),
                _ => false,
            },
    {
        let mut taken: Option<Token> = None;
        core::mem::swap(&mut taken, &mut self.peeked);
        match taken {
            Some(t) => Ok(t),
            None => match self.lexer.next_token() {
                Ok(t) => Ok(t),
                Err(e) => Err(CompileError::Lex(e)),
            },
        }
    }

    /// Close a declaration whose initializer token `t` is already in hand.
    fn parse_var_init_with(
        &mut self,
        ident: Vec<u8>,
        kind: Option<TypeName>,
        is_const: bool,
        is_static: bool,
        t: Token,
    ) -> (r: Result<VariableDecl, CompileError>)
        requires
            old(self).wf(),
        ensures
            final(self).wf(),
            final(self).src() == old(self).src(),
            ({
                let (sr, c2) = spec_var_init_with(
                    old(self).src(),
                    old(self).cur(),
                    ident@,
                    kind_view(kind),
                    is_const,
                    is_static,
                    t@,
                );
                &&& final(self).cur() == c2
                &&& match (r, sr) {
                    (Ok(v), Ok(sv)) => v@ == sv,
                    (Err(e), Err(se)) => e@ == se,
                    _ => false,
                }
            }),
            r is Ok ==> final(self).cur().pos > old(self).cur().pos,
    {
        if is_init_kind(t.kind) {
            let e = init_expr_must(t);
            proof {
                self.lemma_cur_wf();
                lemma_next_token_props(self.src(), self.cur());
            }
            let t2 = match self.bump() {
                Ok(t2) => t2,
                Err(er) => return Err(er),
            };
            if t2.kind == TokenKind::Semicolon {
                Ok(VariableDecl { is_const, is_static, ident, kind, init_value: Some(e) })
            } else {
                Err(unexpected(one_expected_vec(TokenKind::Semicolon), &t2))
            }
        } else {
            Err(unexpected(init_expected_vec(), &t))
        }
    }

    /// Fetch the one initializer token of a declaration, then close it.
    fn parse_var_init(
        &mut self,
        ident: Vec<u8>,
        kind: Option<TypeName>,
        is_const: bool,
        is_static: bool,
    ) -> (r: Result<VariableDecl, CompileError>)
        requires
            old(self).wf(),
        ensures
            final(self).wf(),
            final(self).src() == old(self).src(),
            ({
                let (sr, c2) = spec_var_init(
                    old(self).src(),
                    old(self).cur(),
                    ident@,
                    kind_view(kind),
                    is_const,
                    is_static,
                );
                &&& final(self).cur() == c2
                &&& match (r, sr) {
                    (Ok(v), Ok(sv)) => v@ == sv,
                    (Err(e), Err(se)) => e@ == se,
                    _ => false,
                }
            }),
            r is Ok ==> final(self).cur().pos > old(self).cur().pos,
    {
        proof {
            self.lemma_cur_wf();
            lemma_next_token_props(self.src(), self.cur());
        }
        let t = match self.bump() {
            Ok(t) => t,
            Err(er) => return Err(er),
        };
        self.parse_var_init_with(ident, kind, is_const, is_static, t)
    }

    /// The form decision of a declaration, the decision token `t` in hand.
    fn parse_var_tail(&mut self, ident: Vec<u8>, kind: Option<TypeName>, t: Token) -> (r: Result<
        VariableDecl,
        CompileError,
    >)
        requires
            old(self).wf(),
        ensures
            final(self).wf(),
            final(self).src() == old(self).src(),
            ({
                let (sr, c2) = spec_var_tail(
                    old(self).src(),
                    old(self).cur(),
                    ident@,
                    kind_view(kind),
                    t@,
                );
                &&& final(self).cur() == c2
                &&& match (r, sr) {
                    (Ok(v), Ok(sv)) => v@ == sv,
                    (Err(e), Err(se)) => e@ == se,
                    _ => false,
                }
            }),
            r is Ok ==> final(self).cur().pos >= old(self).cur().pos,
    {
        if t.kind == TokenKind::Semicolon {
            Ok(VariableDecl { is_const: false, is_static: false, ident, kind, init_value: None })
        } else if t.kind == TokenKind::Equals {
            self.parse_var_init(ident, kind, false, false)
        } else if t.kind == TokenKind::Colon {
            proof {
                self.lemma_cur_wf();
                lemma_next_token_props(self.src(), self.cur());
            }
            let t2 = match self.bump() {
                Ok(t2) => t2,
                Err(er) => return Err(er),
            };
            if t2.kind == TokenKind::Colon {
                self.parse_var_init(ident, kind, true, true)
            } else {
                self.parse_var_init_with(ident, kind, true, false, t2)
            }
        } else {
            let has_type = kind.is_some();
            Err(unexpected(decision_expected_vec(has_type), &t))
        }
    }

    /// A whole variable declaration, its leading identifier `first` already
    /// consumed by the caller's dispatch.
    pub fn parse_var_decl(&mut self, first: Token) -> (r: Result<VariableDecl, CompileError>)
        requires
            old(self).wf(),
        ensures
            final(self).wf(),
            final(self).src() == old(self).src(),
            ({
                let (sr, c2) = spec_parse_var_decl(old(self).src(), old(self).cur(), first@);
                &&& final(self).cur() == c2
                &&& match (r, sr) {
                    (Ok(v), Ok(sv)) => v@ == sv,
                    (Err(e), Err(se)) => e@ == se,
                    _ => false,
                }
            }),
            r is Ok ==> final(self).cur().pos > old(self).cur().pos,
            r matches Ok(v) ==> (v.is_static ==> v.is_const),
    {
        proof {
            self.lemma_cur_wf();
            lemma_next_token_props(self.src(), self.cur());
            lemma_static_implies_const(self.src(), self.cur(), first@);
        }
        let t1 = match self.bump() {
            Ok(t) => t,
            Err(er) => return Err(er),
        };
        if t1.kind == TokenKind::Ident {
            proof {
                self.lemma_cur_wf();
                lemma_next_token_props(self.src(), self.cur());
            }
            let t2 = match self.bump() {
                Ok(t) => t,
                Err(er) => return Err(er),
            };
            self.parse_var_tail(first.literal, Some(TypeName { name: t1.literal }), t2)
        } else {
            self.parse_var_tail(first.literal, None, t1)
        }
    }

    /// The parameter list of a function, read until `)`.
    fn parse_args(&mut self, acc: Vec<Arg>) -> (r: Result<Vec<Arg>, CompileError>)
        requires
            old(self).wf(),
        ensures
            final(self).wf(),
            final(self).src() == old(self).src(),
            ({
                let (sr, c2) = spec_parse_args(
                    old(self).src(),
                    old(self).cur(),
                    acc@.map_values(|a: Arg| a@),
                );
                &&& final(self).cur() == c2
                &&& match (r, sr) {
                    (Ok(v), Ok(sv)) => v@.map_values(|a: Arg| a@) == sv,
                    (Err(e), Err(se)) => e@ == se,
                    _ => false,
                }
            }),
            r is Ok ==> final(self).cur().pos > old(self).cur().pos,
        decreases self.src().len() - self.cur().pos,
    {
        proof {
            self.lemma_cur_wf();
            lemma_next_token_props(self.src(), self.cur());
        }
        let t = match self.bump() {
            Ok(t) => t,
            Err(er) => return Err(er),
        };
        if t.kind == TokenKind::RParen {
            Ok(acc)
        } else if t.kind == TokenKind::Comma {
            self.parse_args(acc)
        } else if t.kind == TokenKind::Ident {
            proof {
                self.lemma_cur_wf();
                lemma_next_token_props(self.src(), self.cur());
            }
            let t2 = match self.bump() {
                Ok(t2) => t2,
                Err(er) => return Err(er),
            };
            if t2.kind == TokenKind::Ident {
                let ghost acc0 = acc@.map_values(|a: Arg| a@);
                let mut acc2 = acc;
                let arg = Arg { ident: t.literal, kind: TypeName { name: t2.literal } };
                let ghost argv = arg@;
                acc2.push(arg);
                proof {
                    assert(acc2@.map_values(|a: Arg| a@) =~= acc0.push(argv));
                }
                self.parse_args(acc2)
            } else {
                Err(unexpected(one_expected_vec(TokenKind::Ident), &t2))
            }
        } else {
            Err(unexpected(arg_expected_vec(), &t))
        }
    }

    /// A function skeleton, the `fun` keyword already consumed by the
    /// caller's dispatch.
    #[verifier::rlimit(50)]
    pub fn parse_function(&mut self) -> (r: Result<FunctionDecl, CompileError>)
        requires
            old(self).wf(),
        ensures
            final(self).wf(),
            final(self).src() == old(self).src(),
            ({
                let (sr, c2) = spec_parse_function(old(self).src(), old(self).cur());
                &&& final(self).cur() == c2
                &&& match (r, sr) {
                    (Ok(f), Ok(sf)) => f@ == sf,
                    (Err(e), Err(se)) => e@ == se,
                    _ => false,
                }
            }),
            r is Ok ==> final(self).cur().pos > old(self).cur().pos,
    {
        proof {
            self.lemma_cur_wf();
            lemma_next_token_props(self.src(), self.cur());
        }
        let t1 = match self.bump() {
            Ok(t) => t,
            Err(er) => return Err(er),
        };
        if t1.kind != TokenKind::Ident {
            return Err(unexpected(one_expected_vec(TokenKind::Ident), &t1));
        }
        proof {
            self.lemma_cur_wf();
            lemma_next_token_props(self.src(), self.cur());
        }
        let t2 = match self.bump() {
            Ok(t) => t,
            Err(er) => return Err(er),
        };
        if t2.kind != TokenKind::LParen {
            return Err(unexpected(one_expected_vec(TokenKind::LParen), &t2));
        }
        let empty_args: Vec<Arg> = Vec::new();
        proof {
            assert(empty_args@.map_values(|a: Arg| a@) =~= Seq::<SpecArg>::empty());
        }
        let args = match self.parse_args(empty_args) {
            Ok(a) => a,
            Err(er) => return Err(er),
        };
        proof {
            self.lemma_cur_wf();
            lemma_next_token_props(self.src(), self.cur());
        }
        let t4 = match self.bump() {
            Ok(t) => t,
            Err(er) => return Err(er),
        };
        if t4.kind != TokenKind::Ident {
            return Err(unexpected(one_expected_vec(TokenKind::Ident), &t4));
        }
        proof {
            self.lemma_cur_wf();
            lemma_next_token_props(self.src(), self.cur());
        }
        let t5 = match self.bump() {
            Ok(t) => t,
            Err(er) => return Err(er),
        };
        if t5.kind != TokenKind::LBrace {
            return Err(unexpected(one_expected_vec(TokenKind::LBrace), &t5));
        }
        proof {
            self.lemma_cur_wf();
            lemma_next_token_props(self.src(), self.cur());
        }
        let t6 = match self.bump() {
            Ok(t) => t,
            Err(er) => return Err(er),
        };
        if t6.kind != TokenKind::RBrace {
            return Err(unexpected(one_expected_vec(TokenKind::RBrace), &t6));
        }
        let empty_body: Vec<crate::ast::Stmt> = Vec::new();
        proof {
            assert(empty_body@.map_values(|st: crate::ast::Stmt| st@) =~= Seq::<
                crate::ast::SpecStmt,
            >::empty());
        }
        Ok(
            FunctionDecl {
                ident: t1.literal,
                args,
                return_type: TypeName { name: t4.literal },
                body: empty_body,
            },
        )
    }

    /// A primary expression: literal, identifier, or parenthesized
    /// sub-expression.
    fn parse_primary(&mut self) -> (r: Result<Expr, CompileError>)
        requires
            old(self).wf(),
        ensures
            final(self).wf(),
            final(self).src() == old(self).src(),
            ({
                let (sr, c2) = spec_parse_primary(old(self).src(), old(self).cur());
                &&& final(self).cur() == c2
                &&& match (r, sr) {
                    (Ok(e), Ok(se)) => e@ == se,
                    (Err(e), Err(se)) => e@ == se,
                    _ => false,
                }
            }),
            r is Ok ==> final(self).cur().pos > old(self).cur().pos,
        decreases self.src().len() - self.cur().pos, 0nat,
    {
        proof {
            self.lemma_cur_wf();
            lemma_next_token_props(self.src(), self.cur());
        }
        let t = match self.bump() {
            Ok(t) => t,
            Err(er) => return Err(er),
        };
        if t.kind == TokenKind::Number {
            let value = digits_to_u64(&t.literal);
            Ok(Expr::Int(value))
        } else if t.kind == TokenKind::StrLit {
            Ok(Expr::Str(t.literal))
        } else if t.kind == TokenKind::CharLit {
            if t.literal.len() >= 1 {
                Ok(Expr::Ch(t.literal[0]))
            } else {
                Ok(Expr::Ch(0))
            }
        } else if t.kind == TokenKind::Ident {
            Ok(Expr::Ident(t.literal))
        } else if t.kind == TokenKind::LParen {
            let inner = match self.parse_bin(1) {
                Ok(e) => e,
                Err(er) => return Err(er),
            };
            proof {
                self.lemma_cur_wf();
                lemma_next_token_props(self.src(), self.cur());
            }
            let t3 = match self.bump() {
                Ok(t3) => t3,
                Err(er) => return Err(er),
            };
            if t3.kind == TokenKind::RParen {
                Ok(inner)
            } else {
                Err(unexpected(one_expected_vec(TokenKind::RParen), &t3))
            }
        } else {
            Err(unexpected(expr_expected_vec(), &t))
        }
    }

    /// A unary chain: `-` and `!` applied to a primary.
    fn parse_unary(&mut self) -> (r: Result<Expr, CompileError>)
        requires
            old(self).wf(),
        ensures
            final(self).wf(),
            final(self).src() == old(self).src(),
            ({
                let (sr, c2) = spec_parse_unary(old(self).src(), old(self).cur());
                &&& final(self).cur() == c2
                &&& match (r, sr) {
                    (Ok(e), Ok(se)) => e@ == se,
                    (Err(e), Err(se)) => e@ == se,
                    _ => false,
                }
            }),
            r is Ok ==> final(self).cur().pos > old(self).cur().pos,
        decreases self.src().len() - self.cur().pos, 1nat,
    {
        proof {
            self.lemma_cur_wf();
            lemma_next_token_props(self.src(), self.cur());
        }
        let k = match self.peek_kind() {
            Ok(k) => k,
            Err(er) => return Err(er),
        };
        if k == TokenKind::Minus || k == TokenKind::Bang {
            let t = match self.bump() {
                Ok(t) => t,
                Err(er) => {
                    proof {
                        assert(false);
                    }
                    return Err(er);
                },
            };
            let e = match self.parse_unary() {
                Ok(e) => e,
                Err(er) => return Err(er),
            };
            let op = if t.kind == TokenKind::Minus {
                UnaryOp::Neg
            } else {
                UnaryOp::Not
            };
            Ok(Expr::Unary(op, Box::new(e)))
        } else {
            self.parse_primary()
        }
    }

    /// A binary expression by precedence climbing: operators weaker than
    /// `min_prec` — and the first token after the expression — are left in
    /// the stream for the caller.
    #[verifier::rlimit(50)]
    pub fn parse_bin(&mut self, min_prec: u32) -> (r: Result<Expr, CompileError>)
        requires
            old(self).wf(),
        ensures
            final(self).wf(),
            final(self).src() == old(self).src(),
            ({
                let (sr, c2) = spec_parse_bin(old(self).src(), old(self).cur(), min_prec);
                &&& final(self).cur() == c2
                &&& match (r, sr) {
                    (Ok(e), Ok(se)) => e@ == se,
                    (Err(e), Err(se)) => e@ == se,
                    _ => false,
                }
            }),
            r is Ok ==> final(self).cur().pos > old(self).cur().pos,
        decreases self.src().len() - self.cur().pos, 2nat,
    {
        let ghost c0 = self.cur();
        let mut lhs = match self.parse_unary() {
            Ok(e) => e,
            Err(er) => return Err(er),
        };
        loop
            invariant
                self.wf(),
                self.src() == old(self).src(),
                c0 == old(self).cur(),
                c0.pos < self.cur().pos <= self.src().len(),
                spec_parse_bin(self.src(), c0, min_prec) == spec_bin_loop(
                    self.src(),
                    self.cur(),
                    lhs@,
                    min_prec,
                ),
            decreases self.src().len() - self.cur().pos,
        {
            proof {
                self.lemma_cur_wf();
                lemma_next_token_props(self.src(), self.cur());
            }
            let k = match self.peek_kind() {
                Ok(k) => k,
                Err(er) => return Err(er),
            };
            let p = prec_of_ex(k);
            if p < 1 || p < min_prec {
                return Ok(lhs);
            }
            let t = match self.bump() {
                Ok(t) => t,
                Err(er) => {
                    proof {
                        assert(false);
                    }
                    return Err(er);
                },
            };
            let rhs = match self.parse_bin(p + 1) {
                Ok(e) => e,
                Err(er) => return Err(er),
            };
            lhs = Expr::Binary { lhs: Box::new(lhs), op: binop_of_ex(t.kind), rhs: Box::new(rhs) };
        }
    }
}

/// Parse a whole source buffer into a `Program`: the leading directive, then
/// top-level declarations until end of input.  The buffer is kept one byte
/// short of the address-space limit so that 1-indexed columns always fit.
#[verifier::rlimit(50)]
pub fn parse_program(src: Vec<u8>, file_path: String) -> (r: Result<Program, CompileError>)
    requires
        src@.len() < usize::MAX as nat,
    ensures
        match (r, spec_parse_source(src@)) {
            (Ok(p), Ok((dir, nodes))) => {
                &&& p@.file_path == file_path@
                &&& p@.leading_directive == dir
                &&& p@.body == nodes
            },
            (Err(e), Err(se)) => e@ == se,
            _ => false,
        },
        r matches Ok(p) ==> forall|i: int|
            0 <= i < p.body@.len() ==> (#[trigger] p.body@[i] matches Node::Variable(v) ==> (
            v.is_static ==> v.is_const)),
{
    let ghost srcv = src@;
    let leading_directive = take_directive(&src);
    let lexer = Lexer::new(src);
    let mut parser = Parser::new(lexer);
    let mut body: Vec<Node> = Vec::new();
    proof {
        assert(body@.map_values(|n: Node| n@) =~= Seq::<SpecNode>::empty());
    }
    loop
        invariant
            parser.wf(),
            srcv == src@,
            parser.src() == srcv,
            srcv.len() < usize::MAX as nat,

            leading_directive@ == spec_directive(srcv),
            spec_parse_program_loop(srcv, init_cur(srcv), Seq::empty()) == spec_parse_program_loop(
                srcv,
                parser.cur(),
                body@.map_values(|n: Node| n@),
            ),
            forall|i: int|
                0 <= i < body@.len() ==> (#[trigger] body@[i] matches Node::Variable(v) ==> (
                v.is_static ==> v.is_const)),
        decreases srcv.len() - parser.cur().pos,
    {
        proof {
            parser.lemma_cur_wf();
            lemma_next_token_props(srcv, parser.cur());
        }
        let k = match parser.peek_kind() {
            Ok(k) => k,
            Err(er) => return Err(er),
        };
        if k == TokenKind::Eof {
            let _t = match parser.bump() {
                Ok(t) => t,
                Err(er) => {
                    proof {
                        assert(false);
                    }
                    return Err(er);
                },
            };
            return Ok(Program { file_path, leading_directive, body });
        } else if k == TokenKind::KwFun {
            let _kw = match parser.bump() {
                Ok(t) => t,
                Err(er) => {
                    proof {
                        assert(false);
                    }
                    return Err(er);
                },
            };
            let f = match parser.parse_function() {
                Ok(f) => f,
                Err(er) => return Err(er),
            };
            let ghost body0 = body@.map_values(|n: Node| n@);
            let ghost fv = f@;
            body.push(Node::Function(f));
            proof {
                assert(body@.map_values(|n: Node| n@) =~= body0.push(SpecNode::Function(fv)));
            }
        } else if k == TokenKind::Ident {
            let t = match parser.bump() {
                Ok(t) => t,
                Err(er) => {
                    proof {
                        assert(false);
                    }
                    return Err(er);
                },
            };
            let v = match parser.parse_var_decl(t) {
                Ok(v) => v,
                Err(er) => return Err(er),
            };
            let ghost body0 = body@.map_values(|n: Node| n@);
            let ghost vv = v@;
            body.push(Node::Variable(v));
            proof {
                assert(body@.map_values(|n: Node| n@) =~= body0.push(SpecNode::Variable(vv)));
            }
        } else {
            let t = match parser.bump() {
                Ok(t) => t,
                Err(er) => {
                    proof {
                        assert(false);
                    }
                    return Err(er);
                },
            };
            return Err(unexpected(top_expected_vec(), &t));
        }
    }
}

/// Parse one expression filling the whole buffer.
pub fn parse_expression(src: Vec<u8>) -> (r: Result<Expr, CompileError>)
    requires
        src@.len() < usize::MAX as nat,
    ensures
        match (r, spec_parse_expression(src@)) {
            (Ok(e), Ok(se)) => e@ == se,
            (Err(e), Err(se)) => e@ == se,
            _ => false,
        },
{
    let lexer = Lexer::new(src);
    let mut parser = Parser::new(lexer);
    let e = match parser.parse_bin(1) {
        Ok(e) => e,
        Err(er) => return Err(er),
    };
    proof {
        parser.lemma_cur_wf();
        lemma_next_token_props(parser.src(), parser.cur());
    }
    let t = match parser.bump() {
        Ok(t) => t,
        Err(er) => return Err(er),
    };
    if t.kind == TokenKind::Eof {
        Ok(e)
    } else {
        Err(unexpected(one_expected_vec(TokenKind::Eof), &t))
    }
}

/// Staticness is only reachable through the const path: whatever the input,
/// a successfully parsed variable declaration marked static is also marked
/// const.  This is the `is_static ==> is_const` invariant of the data model.
pub proof fn lemma_static_implies_const(src: Seq<u8>, c: Cur, first: SpecTok)
    ensures
        (spec_parse_var_decl(src, c, first).0 matches Ok(v) && v.is_static) ==> (
        spec_parse_var_decl(src, c, first).0 matches Ok(v) && v.is_const),
{
}

/// The model of `parse_var_decl_source`: a single variable declaration
/// standing at the start of a buffer.
pub open spec fn spec_parse_decl_source(src: Seq<u8>) -> Result<SpecVarDecl, SpecCompileError> {
    let (r, c1) = spec_next_token(src, init_cur(src));
    match r {
        Err(se) => Err(SpecCompileError::Lex(se)),
        Ok(t) => if t.kind == TokenKind::Ident {
            spec_parse_var_decl(src, c1, t).0
        } else {
            Err(sp_unexpected(seq![TokenKind::Ident], t))
        },
    }
}

/// Parse a single variable declaration standing at the start of a buffer
/// (whatever follows its closing `;` is left unread).
pub fn parse_var_decl_source(src: Vec<u8>) -> (r: Result<VariableDecl, CompileError>)
    requires
        src@.len() < usize::MAX as nat,
    ensures
        match (r, spec_parse_decl_source(src@)) {
            (Ok(v), Ok(sv)) => v@ == sv,
            (Err(e), Err(se)) => e@ == se,
            _ => false,
        },
        r matches Ok(v) ==> (v.is_static ==> v.is_const),
{
    let lexer = Lexer::new(src);
    let mut parser = Parser::new(lexer);
    proof {
        parser.lemma_cur_wf();
        lemma_next_token_props(parser.src(), parser.cur());
    }
    let t = match parser.bump() {
        Ok(t) => t,
        Err(er) => return Err(er),
    };
    if t.kind == TokenKind::Ident {
        parser.parse_var_decl(t)
    } else {
        Err(unexpected(one_expected_vec(TokenKind::Ident), &t))
    }
}

/// The model of `parse_function_source`: a function skeleton standing at the
/// start of a buffer, its `fun` keyword already dispatched away.
pub open spec fn spec_parse_function_source(src: Seq<u8>) -> Result<
    SpecFunctionDecl,
    SpecCompileError,
> {
    spec_parse_function(src, init_cur(src)).0
}

/// Parse a function skeleton standing at the start of a buffer, as the
/// program loop does right after consuming the `fun` keyword (whatever
/// follows the closing brace is left unread).
pub fn parse_function_source(src: Vec<u8>) -> (r: Result<FunctionDecl, CompileError>)
    requires
        src@.len() < usize::MAX as nat,
    ensures
        match (r, spec_parse_function_source(src@)) {
            (Ok(f), Ok(sf)) => f@ == sf,
            (Err(e), Err(se)) => e@ == se,
            _ => false,
        },
{
    let lexer = Lexer::new(src);
    let mut parser = Parser::new(lexer);
    parser.parse_function()
}

} // verus!
