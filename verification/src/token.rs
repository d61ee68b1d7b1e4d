//! The lexical vocabulary: token kinds, located tokens, byte classes and the
//! keyword table.

use vstd::prelude::*;

verus! {

/// The closed set of token kinds the lexer can produce.  `Eof` is a sentinel
/// kind carrying no bytes.
#[derive(Clone, Copy, Debug, PartialEq, Eq, Structural)]
pub enum TokenKind {
    Ident,
    Number,
    StrLit,
    CharLit,
    Eof,
    // keywords (the keyword set also holds the file-inclusion keyword, spelled
    // out in `keyword_of` as bytes because its name is reserved elsewhere)
    KwIf,
    KwElse,
    KwFor,
    KwWhile,
    KwLoop,
    KwBreak,
    KwContinue,
    KwReturn,
    KwIncl,
    KwTo,
    KwIn,
    KwEnum,
    KwStruct,
    KwFun,
    At,
    // punctuation
    LParen,
    RParen,
    LBrace,
    RBrace,
    LBracket,
    RBracket,
    Comma,
    Colon,
    Semicolon,
    Equals,
    Plus,
    Minus,
    Star,
    Slash,
    Percent,
    Amp,
    Pipe,
    Caret,
    Bang,
    Shl,
    Shr,
    Less,
    Greater,
}

/// Spec-level token: what the lexer's contract speaks about.
pub ghost struct SpecTok {
    pub kind: TokenKind,
    pub lit: Seq<u8>,
    pub line: nat,
    pub col: nat,
}

/// A located token.  `literal` holds the exact source slice (identifier text,
/// digits, unescaped string/char contents, or the punctuation bytes); `line`
/// and `col` are 1-indexed and point at the token's first byte.
#[derive(Clone, Debug, PartialEq, Eq)]
pub struct Token {
    pub kind: TokenKind,
    pub literal: Vec<u8>,
    pub line: usize,
    pub col: usize,
}

impl View for Token {
    type V = SpecTok;

    open spec fn view(&self) -> SpecTok {
        SpecTok {
            kind: self.kind,
            lit: self.literal@,
            line: self.line as nat,
            col: self.col as nat,
        }
    }
}

/// The distinguishable lexical failures.  The two byte-carrying variants name
/// the offending byte.
#[derive(Clone, Copy, Debug, PartialEq, Eq, Structural)]
pub enum LexErrorKind {
    UnterminatedString,
    UnterminatedChar,
    EmptyCharLiteral,
    UnsupportedEscape(u8),
    UnrecognizedByte(u8),
}

/// Spec-level lexical error.
pub ghost struct SpecErr {
    pub kind: LexErrorKind,
    pub line: nat,
    pub col: nat,
}

/// A lexical error with the 1-indexed location of the token that failed.
#[derive(Clone, Copy, Debug, PartialEq, Eq, Structural)]
pub struct LexError {
    pub kind: LexErrorKind,
    pub line: usize,
    pub col: usize,
}

impl View for LexError {
    type V = SpecErr;

    open spec fn view(&self) -> SpecErr {
        SpecErr { kind: self.kind, line: self.line as nat, col: self.col as nat }
    }
}

// ---------------------------------------------------------------------------
// byte classes
// ---------------------------------------------------------------------------

/// Horizontal whitespace: space, tab, carriage return.  The line feed is
/// handled apart, because it ends a line.
pub open spec fn is_space_byte(b: u8) -> bool {
    b == 32 || b == 9 || b == 13
}

pub open spec fn is_alpha_byte(b: u8) -> bool {
    (65 <= b && b <= 90) || (97 <= b && b <= 122)
}

/// Bytes an identifier may open with: alphabetic or underscore.
pub open spec fn is_ident_byte(b: u8) -> bool {
    is_alpha_byte(b) || b == 95
}

pub open spec fn is_digit_byte(b: u8) -> bool {
    48 <= b && b <= 57
}

/// Bytes an identifier may continue with: its opening bytes plus digits
/// (so that type names like `u32` are single identifiers, while a digit
/// still opens a number).
pub open spec fn is_ident_continue_byte(b: u8) -> bool {
    is_ident_byte(b) || is_digit_byte(b)
}

#[verifier::when_used_as_spec(is_space_byte)]
pub fn is_space_byte_ex(b: u8) -> (r: bool)
    ensures
        r == is_space_byte(b),
{
    b == 32 || b == 9 || b == 13
}

#[verifier::when_used_as_spec(is_alpha_byte)]
pub fn is_alpha_byte_ex(b: u8) -> (r: bool)
    ensures
        r == is_alpha_byte(b),
{
    (65 <= b && b <= 90) || (97 <= b && b <= 122)
}

#[verifier::when_used_as_spec(is_ident_byte)]
pub fn is_ident_byte_ex(b: u8) -> (r: bool)
    ensures
        r == is_ident_byte(b),
{
    is_alpha_byte_ex(b) || b == 95
}

#[verifier::when_used_as_spec(is_digit_byte)]
pub fn is_digit_byte_ex(b: u8) -> (r: bool)
    ensures
        r == is_digit_byte(b),
{
    48 <= b && b <= 57
}

#[verifier::when_used_as_spec(is_ident_continue_byte)]
pub fn is_ident_continue_byte_ex(b: u8) -> (r: bool)
    ensures
        r == is_ident_continue_byte(b),
{
    is_ident_byte_ex(b) || is_digit_byte_ex(b)
}

// ---------------------------------------------------------------------------
// escapes
// ---------------------------------------------------------------------------

/// The escape set of char literals: \n \t \r \\ \' .
pub open spec fn char_escape_value(e: u8) -> Option<u8> {
    if e == 110 {
        Some(10u8)  // \n
    } else if e == 116 {
        Some(9u8)  // \t
    } else if e == 114 {
        Some(13u8)  // \r
    } else if e == 92 {
        Some(92u8)  // \\
    } else if e == 39 {
        Some(39u8)  // \'
    } else {
        None
    }
}

/// The escape set of string literals: the char escapes plus \" .
pub open spec fn string_escape_value(e: u8) -> Option<u8> {
    if e == 34 {
        Some(34u8)  // \"
    } else {
        char_escape_value(e)
    }
}

#[verifier::when_used_as_spec(char_escape_value)]
pub fn char_escape_value_ex(e: u8) -> (r: Option<u8>)
    ensures
        r == char_escape_value(e),
{
    if e == 110 {
        Some(10u8)
    } else if e == 116 {
        Some(9u8)
    } else if e == 114 {
        Some(13u8)
    } else if e == 92 {
        Some(92u8)
    } else if e == 39 {
        Some(39u8)
    } else {
        None
    }
}

#[verifier::when_used_as_spec(string_escape_value)]
pub fn string_escape_value_ex(e: u8) -> (r: Option<u8>)
    ensures
        r == string_escape_value(e),
{
    if e == 34 {
        Some(34u8)
    } else {
        char_escape_value_ex(e)
    }
}

// ---------------------------------------------------------------------------
// keyword table
// ---------------------------------------------------------------------------

/// The fixed keyword table, resolved by exact match on the identifier's bytes:
/// if, else, for, while, loop, break, continue, return, to, in, enum, struct,
/// fun, and the seven-byte file-inclusion keyword.
pub open spec fn keyword_of(s: Seq<u8>) -> Option<TokenKind> {
    if s.len() == 2 {
        if s[0] == 105 && s[1] == 102 {
            Some(TokenKind::KwIf)
        } else if s[0] == 116 && s[1] == 111 {
            Some(TokenKind::KwTo)
        } else if s[0] == 105 && s[1] == 110 {
            Some(TokenKind::KwIn)
        } else {
            None
        }
    } else if s.len() == 3 {
        if s[0] == 102 && s[1] == 111 && s[2] == 114 {
            Some(TokenKind::KwFor)
        } else if s[0] == 102 && s[1] == 117 && s[2] == 110 {
            Some(TokenKind::KwFun)
        } else {
            None
        }
    } else if s.len() == 4 {
        if s[0] == 101 && s[1] == 108 && s[2] == 115 && s[3] == 101 {
            Some(TokenKind::KwElse)
        } else if s[0] == 108 && s[1] == 111 && s[2] == 111 && s[3] == 112 {
            Some(TokenKind::KwLoop)
        } else if s[0] == 101 && s[1] == 110 && s[2] == 117 && s[3] == 109 {
            Some(TokenKind::KwEnum)
        } else {
            None
        }
    } else if s.len() == 5 {
        if s[0] == 119 && s[1] == 104 && s[2] == 105 && s[3] == 108 && s[4] == 101 {
            Some(TokenKind::KwWhile)
        } else if s[0] == 98 && s[1] == 114 && s[2] == 101 && s[3] == 97 && s[4] == 107 {
            Some(TokenKind::KwBreak)
        } else {
            None
        }
    } else if s.len() == 6 {
        if s[0] == 114 && s[1] == 101 && s[2] == 116 && s[3] == 117 && s[4] == 114 && s[5] == 110 {
            Some(TokenKind::KwReturn)
        } else if s[0] == 115 && s[1] == 116 && s[2] == 114 && s[3] == 117 && s[4] == 99 && s[5]
            == 116 {
            Some(TokenKind::KwStruct)
        } else {
            None
        }
    } else if s.len() == 7 {
        if s[0] == 105 && s[1] == 110 && s[2] == 99 && s[3] == 108 && s[4] == 117 && s[5] == 100
            && s[6] == 101 {
            Some(TokenKind::KwIncl)
        } else {
            None
        }
    } else if s.len() == 8 {
        if s[0] == 99 && s[1] == 111 && s[2] == 110 && s[3] == 116 && s[4] == 105 && s[5] == 110
            && s[6] == 117 && s[7] == 101 {
            Some(TokenKind::KwContinue)
        } else {
            None
        }
    } else {
        None
    }
}

/// Exact-match lookup of an identifier's bytes in the keyword table.
pub fn keyword_lookup(v: &Vec<u8>) -> (r: Option<TokenKind>)
    ensures
        r == keyword_of(v@),
{
    if v.len() == 2 {
        if v[0] == 105 && v[1] == 102 {
            Some(TokenKind::KwIf)
        } else if v[0] == 116 && v[1] == 111 {
            Some(TokenKind::KwTo)
        } else if v[0] == 105 && v[1] == 110 {
            Some(TokenKind::KwIn)
        } else {
            None
        }
    } else if v.len() == 3 {
        if v[0] == 102 && v[1] == 111 && v[2] == 114 {
            Some(TokenKind::KwFor)
        } else if v[0] == 102 && v[1] == 117 && v[2] == 110 {
            Some(TokenKind::KwFun)
        } else {
            None
        }
    } else if v.len() == 4 {
        if v[0] == 101 && v[1] == 108 && v[2] == 115 && v[3] == 101 {
            Some(TokenKind::KwElse)
        } else if v[0] == 108 && v[1] == 111 && v[2] == 111 && v[3] == 112 {
            Some(TokenKind::KwLoop)
        } else if v[0] == 101 && v[1] == 110 && v[2] == 117 && v[3] == 109 {
            Some(TokenKind::KwEnum)
        } else {
            None
        }
    } else if v.len() == 5 {
        if v[0] == 119 && v[1] == 104 && v[2] == 105 && v[3] == 108 && v[4] == 101 {
            Some(TokenKind::KwWhile)
        } else if v[0] == 98 && v[1] == 114 && v[2] == 101 && v[3] == 97 && v[4] == 107 {
            Some(TokenKind::KwBreak)
        } else {
            None
        }
    } else if v.len() == 6 {
        if v[0] == 114 && v[1] == 101 && v[2] == 116 && v[3] == 117 && v[4] == 114 && v[5] == 110 {
            Some(TokenKind::KwReturn)
        } else if v[0] == 115 && v[1] == 116 && v[2] == 114 && v[3] == 117 && v[4] == 99 && v[5]
            == 116 {
            Some(TokenKind::KwStruct)
        } else {
            None
        }
    } else if v.len() == 7 {
        if v[0] == 105 && v[1] == 110 && v[2] == 99 && v[3] == 108 && v[4] == 117 && v[5] == 100
            && v[6] == 101 {
            Some(TokenKind::KwIncl)
        } else {
            None
        }
    } else if v.len() == 8 {
        if v[0] == 99 && v[1] == 111 && v[2] == 110 && v[3] == 116 && v[4] == 105 && v[5] == 110
            && v[6] == 117 && v[7] == 101 {
            Some(TokenKind::KwContinue)
        } else {
            None
        }
    } else {
        None
    }
}

} // verus!
