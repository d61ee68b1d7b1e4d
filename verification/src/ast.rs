//! The shared vocabulary of lexer output and parser output: operators, types,
//! expressions, declarations, and the `Program` that a parse produces.
//!
//! Each executable node type has a spec-level mirror (its view) over `Seq`,
//! so that parser contracts can speak about whole trees mathematically.

use vstd::prelude::*;
use crate::token::{LexError, SpecErr, TokenKind};

verus! {

// ---------------------------------------------------------------------------
// operators
// ---------------------------------------------------------------------------

/// Binary operators, mapped from their literal text by `Op::get`.
#[derive(Clone, Copy, Debug, PartialEq, Eq, Structural)]
pub enum Op {
    Add,
    Sub,
    Multi,
    Divide,
    Mod,
    And,
    Or,
    Xor,
    Lsh,
    Rsh,
}

/// The operator named by `s`, for exactly the ten binary operator spellings.
pub open spec fn op_of(s: Seq<char>) -> Option<Op> {
    if s == seq!['+'] {
        Some(Op::Add)
    } else if s == seq!['-'] {
        Some(Op::Sub)
    } else if s == seq!['*'] {
        Some(Op::Multi)
    } else if s == seq!['/'] {
        Some(Op::Divide)
    } else if s == seq!['%'] {
        Some(Op::Mod)
    } else if s == seq!['&'] {
        Some(Op::And)
    } else if s == seq!['|'] {
        Some(Op::Or)
    } else if s == seq!['^'] {
        Some(Op::Xor)
    } else if s == seq!['<', '<'] {
        Some(Op::Lsh)
    } else if s == seq!['>', '>'] {
        Some(Op::Rsh)
    } else {
        None
    }
}

impl Op {
    /// The symbolic tag of a literal operator text.  Unrecognized text is an
    /// internal-consistency failure, never a user-facing error — the token
    /// stream only ever hands known punctuation to this mapping — so callers
    /// must present one of the ten operator spellings.
    pub fn get(lit: String) -> (r: Op)
        requires
            op_of(lit@) is Some,
        ensures
            Some(r) == op_of(lit@),
    {
        let s = lit.as_str();
        let n = s.unicode_len();
        if n == 1 {
            let c = s.get_char(0);
            proof {
                assert(lit@ =~= seq![lit@[0]]);
            }
            if c == '+' {
                Op::Add
            } else if c == '-' {
                Op::Sub
            } else if c == '*' {
                Op::Multi
            } else if c == '/' {
                Op::Divide
            } else if c == '%' {
                Op::Mod
            } else if c == '&' {
                Op::And
            } else if c == '|' {
                Op::Or
            } else {
                assert(c == '^');
                Op::Xor
            }
        } else {
            proof {
                assert(lit@.len() == 2);
                assert(lit@ =~= seq![lit@[0], lit@[1]]);
            }
            let c = s.get_char(0);
            if c == '<' {
                Op::Lsh
            } else {
                assert(c == '>');
                Op::Rsh
            }
        }
    }
}

/// Assignment operators, mapped from their literal text by `AssignOp::get`.
#[derive(Clone, Copy, Debug, PartialEq, Eq, Structural)]
pub enum AssignOp {
    Eq,
    AddEq,
    SubEq,
    MultiEq,
    DivideEq,
    ModEq,
    AndEq,
    OrEq,
    XorEq,
}

/// The assignment operator named by `s`, for exactly the nine spellings.
pub open spec fn assign_op_of(s: Seq<char>) -> Option<AssignOp> {
    if s == seq!['='] {
        Some(AssignOp::Eq)
    } else if s == seq!['+', '='] {
        Some(AssignOp::AddEq)
    } else if s == seq!['-', '='] {
        Some(AssignOp::SubEq)
    } else if s == seq!['*', '='] {
        Some(AssignOp::MultiEq)
    } else if s == seq!['/', '='] {
        Some(AssignOp::DivideEq)
    } else if s == seq!['%', '='] {
        Some(AssignOp::ModEq)
    } else if s == seq!['&', '='] {
        Some(AssignOp::AndEq)
    } else if s == seq!['|', '='] {
        Some(AssignOp::OrEq)
    } else if s == seq!['^', '='] {
        Some(AssignOp::XorEq)
    } else {
        None
    }
}

impl AssignOp {
    /// The symbolic tag of a literal assignment-operator text; as with
    /// `Op::get`, only known punctuation may reach this mapping.
    pub fn get(lit: String) -> (r: AssignOp)
        requires
            assign_op_of(lit@) is Some,
        ensures
            Some(r) == assign_op_of(lit@),
    {
        let s = lit.as_str();
        let n = s.unicode_len();
        if n == 1 {
            proof {
                assert(lit@ =~= seq![lit@[0]]);
            }
            AssignOp::Eq
        } else {
            proof {
                assert(lit@.len() == 2);
                assert(lit@ =~= seq![lit@[0], lit@[1]]);
            }
            let c = s.get_char(0);
            if c == '+' {
                AssignOp::AddEq
            } else if c == '-' {
                AssignOp::SubEq
            } else if c == '*' {
                AssignOp::MultiEq
            } else if c == '/' {
                AssignOp::DivideEq
            } else if c == '%' {
                AssignOp::ModEq
            } else if c == '&' {
                AssignOp::AndEq
            } else if c == '|' {
                AssignOp::OrEq
            } else {
                assert(c == '^');
                AssignOp::XorEq
            }
        }
    }
}

// ---------------------------------------------------------------------------
// types
// ---------------------------------------------------------------------------

/// Spec-level mirror of `Type`.
pub ghost enum SpecType {
    Ident(Seq<char>),
    I,
    F,
    Bool,
    Void,
}

/// A resolved type reference: the builtin `@`-types, or a bare name with all
/// `@` marks stripped.
#[derive(Clone, Debug, PartialEq, Eq)]
pub enum Type {
    Ident(String),
    I,
    F,
    Bool,
    Void,
}

impl View for Type {
    type V = SpecType;

    open spec fn view(&self) -> SpecType {
        match self {
            Type::Ident(s) => SpecType::Ident(s@),
            Type::I => SpecType::I,
            Type::F => SpecType::F,
            Type::Bool => SpecType::Bool,
            Type::Void => SpecType::Void,
        }
    }
}

/// Whether a character is not the `@` marker.
pub open spec fn not_at_mark(c: char) -> bool {
    c != '@'
}

/// The type named by `s`: the three builtin spellings, else a bare name
/// reference with every `@` filtered out.
pub open spec fn spec_type_of(s: Seq<char>) -> SpecType {
    if s == seq!['@', 'i'] {
        SpecType::I
    } else if s == seq!['@', 'f'] {
        SpecType::F
    } else if s == seq!['@', 'b', 'o', 'o', 'l'] {
        SpecType::Bool
    } else {
        SpecType::Ident(s.filter(|c: char| not_at_mark(c)))
    }
}

impl Type {
    /// Resolve a type name: `@i`, `@f` and `@bool` are builtins; any other
    /// text is a bare name reference, with `@` marks removed.
    pub fn get(name: String) -> (r: Type)
        ensures
            r@ == spec_type_of(name@),
    {
        let s = name.as_str();
        let n = s.unicode_len();
        if n == 2 && s.get_char(0) == '@' && s.get_char(1) == 'i' {
            proof {
                assert(name@ =~= seq!['@', 'i']);
            }
            Type::I
        } else if n == 2 && s.get_char(0) == '@' && s.get_char(1) == 'f' {
            proof {
                assert(name@ =~= seq!['@', 'f']);
            }
            Type::F
        } else if n == 5 && s.get_char(0) == '@' && s.get_char(1) == 'b' && s.get_char(2) == 'o'
            && s.get_char(3) == 'o' && s.get_char(4) == 'l' {
            proof {
                assert(name@ =~= seq!['@', 'b', 'o', 'o', 'l']);
            }
            Type::Bool
        } else {
            proof {
                assert(name@.subrange(0, 0) =~= Seq::<char>::empty());
                assert(Seq::<char>::empty().filter(|c: char| not_at_mark(c)) =~= Seq::<
                    char,
                >::empty()) by {
                    reveal(Seq::filter);
                }
            }
            let mut out = String::new();
            let mut i: usize = 0;
            while i < n
                invariant
                    n == name@.len(),
                    s@ == name@,
                    i <= n,
                    out@ == name@.subrange(0, i as int).filter(|c: char| not_at_mark(c)),
                decreases n - i,
            {
                let c = s.get_char(i);
                proof {
                    let pre = name@.subrange(0, i as int);
                    let post = name@.subrange(0, i as int + 1);
                    assert(post.drop_last() =~= pre);
                    assert(post.last() == name@[i as int]);
                    assert(post.filter(|c: char| not_at_mark(c)) == if not_at_mark(post.last()) {
                        pre.filter(|c: char| not_at_mark(c)).push(post.last())
                    } else {
                        pre.filter(|c: char| not_at_mark(c))
                    }) by {
                        reveal(Seq::filter);
                    }
                }
                if c != '@' {
                    let piece = s.substring_char(i, i + 1);
                    proof {
                        assert(piece@ =~= seq![name@[i as int]]);
                        assert(out@ + piece@ =~= out@.push(name@[i as int]));
                    }
                    out.append(piece);
                }
                i = i + 1;
            }
            proof {
                assert(name@.subrange(0, name@.len() as int) =~= name@);
                assert(!(name@ == seq!['@', 'i']) && !(name@ == seq!['@', 'f']) && !(name@
                    == seq!['@', 'b', 'o', 'o', 'l']));
            }
            Type::Ident(out)
        }
    }
}

/// A type name as it stands in a declaration: a bare reference, not yet
/// resolved against the builtin table.
#[derive(Clone, Debug, PartialEq, Eq)]
pub struct TypeName {
    pub name: Vec<u8>,
}

impl View for TypeName {
    type V = Seq<u8>;

    open spec fn view(&self) -> Seq<u8> {
        self.name@
    }
}

// ---------------------------------------------------------------------------
// expressions
// ---------------------------------------------------------------------------

/// Unary operators: arithmetic negation and logical not.
#[derive(Clone, Copy, Debug, PartialEq, Eq, Structural)]
pub enum UnaryOp {
    Neg,
    Not,
}

/// Spec-level mirror of `Expr`.
pub ghost enum SpecExpr {
    Ident(Seq<u8>),
    Int(u64),
    Str(Seq<u8>),
    Ch(u8),
    Unary(UnaryOp, Box<SpecExpr>),
    Binary { lhs: Box<SpecExpr>, op: Op, rhs: Box<SpecExpr> },
}

/// An expression tree.  Nodes exclusively own their operand subtrees.  A
/// `Number` token becomes `Int` with its digits read base 10, reduced modulo
/// 2^64.
#[derive(Debug, PartialEq, Eq)]
pub enum Expr {
    Ident(Vec<u8>),
    Int(u64),
    Str(Vec<u8>),
    Ch(u8),
    Unary(UnaryOp, Box<Expr>),
    Binary { lhs: Box<Expr>, op: Op, rhs: Box<Expr> },
}

/// The spec-level tree a given expression stands for.
pub open spec fn expr_view(e: Expr) -> SpecExpr
    decreases e,
{
    match e {
        Expr::Ident(s) => SpecExpr::Ident(s@),
        Expr::Int(v) => SpecExpr::Int(v),
        Expr::Str(s) => SpecExpr::Str(s@),
        Expr::Ch(b) => SpecExpr::Ch(b),
        Expr::Unary(op, inner) => SpecExpr::Unary(op, Box::new(expr_view(*inner))),
        Expr::Binary { lhs, op, rhs } => SpecExpr::Binary {
            lhs: Box::new(expr_view(*lhs)),
            op,
            rhs: Box::new(expr_view(*rhs)),
        },
    }
}

impl View for Expr {
    type V = SpecExpr;

    open spec fn view(&self) -> SpecExpr {
        expr_view(*self)
    }
}

// ---------------------------------------------------------------------------
// declarations
// ---------------------------------------------------------------------------

/// Spec-level mirror of `VariableDecl`.
pub ghost struct SpecVarDecl {
    pub is_const: bool,
    pub is_static: bool,
    pub ident: Seq<u8>,
    pub kind: Option<Seq<u8>>,
    pub init_value: Option<SpecExpr>,
}

/// A variable declaration.  `kind` absent means the type is inferred.
/// Invariant of the grammar: `is_static` is only reachable together with
/// `is_const` (the `::` form).
#[derive(Debug, PartialEq, Eq)]
pub struct VariableDecl {
    pub is_const: bool,
    pub is_static: bool,
    pub ident: Vec<u8>,
    pub kind: Option<TypeName>,
    pub init_value: Option<Expr>,
}

impl View for VariableDecl {
    type V = SpecVarDecl;

    open spec fn view(&self) -> SpecVarDecl {
        SpecVarDecl {
            is_const: self.is_const,
            is_static: self.is_static,
            ident: self.ident@,
            kind: match self.kind {
                Some(t) => Some(t@),
                None => None,
            },
            init_value: match self.init_value {
                Some(e) => Some(e@),
                None => None,
            },
        }
    }
}

impl VariableDecl {
    pub fn new(
        is_const: bool,
        is_static: bool,
        ident: Vec<u8>,
        kind: Option<TypeName>,
        init_value: Option<Expr>,
    ) -> (r: VariableDecl)
        ensures
            r == (VariableDecl { is_const, is_static, ident, kind, init_value }),
    {
        VariableDecl { is_const, is_static, ident, kind, init_value }
    }
}

/// Spec-level mirror of `Arg`.
pub ghost struct SpecArg {
    pub ident: Seq<u8>,
    pub kind: Seq<u8>,
}

/// One function parameter: name and type name.
#[derive(Clone, Debug, PartialEq, Eq)]
pub struct Arg {
    pub ident: Vec<u8>,
    pub kind: TypeName,
}

impl View for Arg {
    type V = SpecArg;

    open spec fn view(&self) -> SpecArg {
        SpecArg { ident: self.ident@, kind: self.kind@ }
    }
}

/// Spec-level mirror of `FunctionDecl`.
pub ghost struct SpecFunctionDecl {
    pub ident: Seq<u8>,
    pub args: Seq<SpecArg>,
    pub return_type: Seq<u8>,
    pub body: Seq<SpecStmt>,
}

/// A function declaration: name, ordered parameters, return type, body.
/// Body statements are not parsed yet — an empty block is the only accepted
/// form — but the field keeps the variant set open.
#[derive(Debug, PartialEq, Eq)]
pub struct FunctionDecl {
    pub ident: Vec<u8>,
    pub args: Vec<Arg>,
    pub return_type: TypeName,
    pub body: Vec<Stmt>,
}

impl View for FunctionDecl {
    type V = SpecFunctionDecl;

    open spec fn view(&self) -> SpecFunctionDecl {
        SpecFunctionDecl {
            ident: self.ident@,
            args: self.args@.map_values(|a: Arg| a@),
            return_type: self.return_type@,
            body: self.body@.map_values(|s: Stmt| s@),
        }
    }
}

impl FunctionDecl {
    pub fn new(ident: Vec<u8>, return_type: TypeName) -> (r: FunctionDecl)
        ensures
            r.ident == ident,
            r.return_type == return_type,
            r.args@.len() == 0,
            r.body@.len() == 0,
    {
        FunctionDecl { ident, args: Vec::new(), return_type, body: Vec::new() }
    }
}

/// Spec-level mirror of `Assign`.
pub ghost struct SpecAssign {
    pub lhs: Seq<u8>,
    pub op: AssignOp,
    pub rhs: SpecExpr,
}

/// An assignment statement: target name, assignment operator, value.
#[derive(Debug, PartialEq, Eq)]
pub struct Assign {
    pub lhs: Vec<u8>,
    pub op: AssignOp,
    pub rhs: Expr,
}

impl View for Assign {
    type V = SpecAssign;

    open spec fn view(&self) -> SpecAssign {
        SpecAssign { lhs: self.lhs@, op: self.op, rhs: self.rhs@ }
    }
}

impl Assign {
    pub fn new(lhs: Vec<u8>, op: AssignOp, rhs: Expr) -> (r: Assign)
        ensures
            r == (Assign { lhs, op, rhs }),
    {
        Assign { lhs, op, rhs }
    }
}

/// Spec-level mirror of `Stmt`.
pub ghost enum SpecStmt {
    Assign(SpecAssign),
    LocalVariable(SpecVarDecl),
    DebugPrint(SpecExpr),
}

/// A statement inside a function body.  The set stays open: statement parsing
/// is out of the current grammar, and later kinds must be addable without
/// breaking existing matches.
#[derive(Debug, PartialEq, Eq)]
pub enum Stmt {
    Assign(Assign),
    LocalVariable(VariableDecl),
    DebugPrint(Expr),
}

impl View for Stmt {
    type V = SpecStmt;

    open spec fn view(&self) -> SpecStmt {
        match self {
            Stmt::Assign(a) => SpecStmt::Assign(a@),
            Stmt::LocalVariable(v) => SpecStmt::LocalVariable(v@),
            Stmt::DebugPrint(e) => SpecStmt::DebugPrint(e@),
        }
    }
}

/// Spec-level mirror of `Node`.
pub ghost enum SpecNode {
    Function(SpecFunctionDecl),
    Variable(SpecVarDecl),
}

/// One top-level declaration.  The variant set stays open for later grammar
/// growth (enums, structs).
#[derive(Debug, PartialEq, Eq)]
pub enum Node {
    Function(FunctionDecl),
    Variable(VariableDecl),
}

impl View for Node {
    type V = SpecNode;

    open spec fn view(&self) -> SpecNode {
        match self {
            Node::Function(f) => SpecNode::Function(f@),
            Node::Variable(v) => SpecNode::Variable(v@),
        }
    }
}

/// Spec-level mirror of `Program`.
pub ghost struct SpecProgram {
    pub file_path: Seq<char>,
    pub leading_directive: Seq<u8>,
    pub body: Seq<SpecNode>,
}

/// The durable output of one parse: the file label used for diagnostics, the
/// leading `#!` directive text (possibly empty), and the top-level
/// declarations in source order.
#[derive(Debug)]
pub struct Program {
    pub file_path: String,
    pub leading_directive: Vec<u8>,
    pub body: Vec<Node>,
}

impl View for Program {
    type V = SpecProgram;

    open spec fn view(&self) -> SpecProgram {
        SpecProgram {
            file_path: self.file_path@,
            leading_directive: self.leading_directive@,
            body: self.body@.map_values(|n: Node| n@),
        }
    }
}

impl Program {
    pub fn new(file_path: String) -> (r: Program)
        ensures
            r.file_path == file_path,
            r.leading_directive@.len() == 0,
            r.body@.len() == 0,
    {
        Program { file_path, leading_directive: Vec::new(), body: Vec::new() }
    }
}

// ---------------------------------------------------------------------------
// errors
// ---------------------------------------------------------------------------

/// Spec-level mirror of `ParseError`.
pub ghost enum SpecParseError {
    UnexpectedToken { expected: Seq<TokenKind>, found: TokenKind, line: nat, col: nat },
    UnexpectedEof { expected: Seq<TokenKind>, line: nat, col: nat },
}

/// A syntax error: the set of token kinds that were admissible, what stood
/// there instead (or end of input), and the 1-indexed location.
#[derive(Clone, Debug, PartialEq, Eq)]
pub enum ParseError {
    UnexpectedToken { expected: Vec<TokenKind>, found: TokenKind, line: usize, col: usize },
    UnexpectedEof { expected: Vec<TokenKind>, line: usize, col: usize },
}

impl View for ParseError {
    type V = SpecParseError;

    open spec fn view(&self) -> SpecParseError {
        match self {
            ParseError::UnexpectedToken { expected, found, line, col } =>
                SpecParseError::UnexpectedToken {
                    expected: expected@,
                    found: *found,
                    line: *line as nat,
                    col: *col as nat,
                },
            ParseError::UnexpectedEof { expected, line, col } => SpecParseError::UnexpectedEof {
                expected: expected@,
                line: *line as nat,
                col: *col as nat,
            },
        }
    }
}

/// Spec-level mirror of `CompileError`.
pub ghost enum SpecCompileError {
    Lex(SpecErr),
    Parse(SpecParseError),
}

/// The two error families of the front end, both structured values: the
/// caller — not this library — decides what to do with one.  Locations are
/// line and column; the file label of a parse stands in `Program::file_path`,
/// so a caller reporting an error pairs it with the path it handed in.
#[derive(Clone, Debug, PartialEq, Eq)]
pub enum CompileError {
    Lex(LexError),
    Parse(ParseError),
}

impl View for CompileError {
    type V = SpecCompileError;

    open spec fn view(&self) -> SpecCompileError {
        match self {
            CompileError::Lex(e) => SpecCompileError::Lex(e@),
            CompileError::Parse(e) => SpecCompileError::Parse(e@),
        }
    }
}

} // verus!
