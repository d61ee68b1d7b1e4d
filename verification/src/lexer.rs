//! The lexer: one forward-only pass over a byte buffer, producing located
//! tokens on demand.
//!
//! The mathematical model is `spec_next_token`: given the byte sequence and a
//! cursor (`Cur`), it says exactly which token or lexical error comes next and
//! where the cursor stands afterwards.  `Lexer::next_token` is proved to
//! return precisely that.

use vstd::prelude::*;
use vstd::slice::{slice_subrange, slice_to_vec};
use crate::token::{
    char_escape_value, char_escape_value_ex, is_digit_byte, is_digit_byte_ex, is_ident_byte,
    is_ident_byte_ex, is_ident_continue_byte, is_ident_continue_byte_ex, is_space_byte,
    is_space_byte_ex, keyword_lookup, keyword_of,
    string_escape_value, string_escape_value_ex, LexError, LexErrorKind, SpecErr, SpecTok, Token,
    TokenKind,
};

verus! {

/// Spec-level cursor: byte offset, offset of the current line's first byte,
/// and the 1-indexed line number.
pub ghost struct Cur {
    pub pos: nat,
    pub line_start: nat,
    pub row: nat,
}

/// 1-indexed column of a cursor.
pub open spec fn col_of(c: Cur) -> nat {
    (c.pos - c.line_start + 1) as nat
}

/// Skipping of whitespace and of `//` line comments, the first phase of every
/// token request.  `in_comment` says whether the cursor stands inside a line
/// comment; a line feed ends the comment and the line at once.
pub open spec fn spec_skip(src: Seq<u8>, c: Cur, in_comment: bool) -> Cur
    decreases src.len() - c.pos, (if in_comment { 0int } else { 1int }),
{
    if c.pos >= src.len() {
        c
    } else if src[c.pos as int] == 10 {
        spec_skip(
            src,
            Cur { pos: c.pos + 1, line_start: c.pos + 1, row: c.row + 1 },
            false,
        )
    } else if in_comment {
        spec_skip(src, Cur { pos: c.pos + 1, line_start: c.line_start, row: c.row }, true)
    } else if is_space_byte(src[c.pos as int]) {
        spec_skip(src, Cur { pos: c.pos + 1, line_start: c.line_start, row: c.row }, false)
    } else if src[c.pos as int] == 47 && c.pos + 1 < src.len() && src[c.pos as int + 1] == 47 {
        spec_skip(src, c, true)
    } else {
        c
    }
}

/// End of the maximal run of identifier-continuation bytes starting at `p`.
pub open spec fn ident_end(src: Seq<u8>, p: nat) -> nat
    decreases src.len() - p,
{
    if p < src.len() && is_ident_continue_byte(src[p as int]) {
        ident_end(src, p + 1)
    } else {
        p
    }
}

/// End of the maximal run of decimal digits starting at `p`.
pub open spec fn digits_end(src: Seq<u8>, p: nat) -> nat
    decreases src.len() - p,
{
    if p < src.len() && is_digit_byte(src[p as int]) {
        digits_end(src, p + 1)
    } else {
        p
    }
}

/// Scan of a string literal's interior, starting just after the opening `"`.
/// Yields the unescaped content and the offset just past the closing `"`, or
/// the lexical failure together with the offset where it was detected.  A raw
/// line feed before the closing quote is a failure.
pub open spec fn scan_string(src: Seq<u8>, p: nat) -> Result<(Seq<u8>, nat), (LexErrorKind, nat)>
    decreases src.len() - p,
{
    if p >= src.len() {
        Err((LexErrorKind::UnterminatedString, p))
    } else if src[p as int] == 34 {
        Ok((Seq::empty(), p + 1))
    } else if src[p as int] == 10 {
        Err((LexErrorKind::UnterminatedString, p))
    } else if src[p as int] == 92 {
        if p + 1 >= src.len() {
            Err((LexErrorKind::UnterminatedString, p))
        } else {
            match string_escape_value(src[p as int + 1]) {
                Some(b) => match scan_string(src, p + 2) {
                    Ok((s, e)) => Ok((seq![b] + s, e)),
                    Err(err) => Err(err),
                },
                None => Err((LexErrorKind::UnsupportedEscape(src[p as int + 1]), p)),
            }
        }
    } else {
        match scan_string(src, p + 1) {
            Ok((s, e)) => Ok((seq![src[p as int]] + s, e)),
            Err(err) => Err(err),
        }
    }
}

/// The closing quote of a char literal: `b` is the literal's one byte of
/// content, `p` the offset where the closing `'` must stand.
pub open spec fn char_close(src: Seq<u8>, b: u8, p: nat) -> Result<(u8, nat), (LexErrorKind, nat)> {
    if p < src.len() && src[p as int] == 39 {
        Ok((b, p + 1))
    } else {
        Err((LexErrorKind::UnterminatedChar, p))
    }
}

/// Scan of a char literal's interior, starting just after the opening `'`:
/// exactly one logical character, possibly escaped, then the closing `'`.
/// An immediate `'` is the empty-literal failure; a raw line feed counts as
/// unterminated, so no token ever spans a line.
pub open spec fn scan_char(src: Seq<u8>, p: nat) -> Result<(u8, nat), (LexErrorKind, nat)> {
    if p >= src.len() {
        Err((LexErrorKind::UnterminatedChar, p))
    } else if src[p as int] == 39 {
        Err((LexErrorKind::EmptyCharLiteral, p))
    } else if src[p as int] == 10 {
        Err((LexErrorKind::UnterminatedChar, p))
    } else if src[p as int] == 92 {
        if p + 1 >= src.len() {
            Err((LexErrorKind::UnterminatedChar, p))
        } else {
            match char_escape_value(src[p as int + 1]) {
                Some(b) => char_close(src, b, p + 2),
                None => Err((LexErrorKind::UnsupportedEscape(src[p as int + 1]), p)),
            }
        }
    } else {
        char_close(src, src[p as int], p + 1)
    }
}

/// The punctuation table: the token kind starting at `p` and the offset just
/// past it.  `<<` and `>>` are the two two-byte operators; everything else is
/// a single byte.  `None` means the byte is not recognized.
pub open spec fn punct_token(src: Seq<u8>, p: nat) -> Option<(TokenKind, nat)> {
    let b = src[p as int];
    if b == 40 {
        Some((TokenKind::LParen, p + 1))
    } else if b == 41 {
        Some((TokenKind::RParen, p + 1))
    } else if b == 123 {
        Some((TokenKind::LBrace, p + 1))
    } else if b == 125 {
        Some((TokenKind::RBrace, p + 1))
    } else if b == 91 {
        Some((TokenKind::LBracket, p + 1))
    } else if b == 93 {
        Some((TokenKind::RBracket, p + 1))
    } else if b == 44 {
        Some((TokenKind::Comma, p + 1))
    } else if b == 58 {
        Some((TokenKind::Colon, p + 1))
    } else if b == 59 {
        Some((TokenKind::Semicolon, p + 1))
    } else if b == 61 {
        Some((TokenKind::Equals, p + 1))
    } else if b == 43 {
        Some((TokenKind::Plus, p + 1))
    } else if b == 45 {
        Some((TokenKind::Minus, p + 1))
    } else if b == 42 {
        Some((TokenKind::Star, p + 1))
    } else if b == 47 {
        Some((TokenKind::Slash, p + 1))
    } else if b == 37 {
        Some((TokenKind::Percent, p + 1))
    } else if b == 38 {
        Some((TokenKind::Amp, p + 1))
    } else if b == 124 {
        Some((TokenKind::Pipe, p + 1))
    } else if b == 94 {
        Some((TokenKind::Caret, p + 1))
    } else if b == 33 {
        Some((TokenKind::Bang, p + 1))
    } else if b == 64 {
        Some((TokenKind::At, p + 1))
    } else if b == 60 {
        if p + 1 < src.len() && src[p as int + 1] == 60 {
            Some((TokenKind::Shl, p + 2))
        } else {
            Some((TokenKind::Less, p + 1))
        }
    } else if b == 62 {
        if p + 1 < src.len() && src[p as int + 1] == 62 {
            Some((TokenKind::Shr, p + 2))
        } else {
            Some((TokenKind::Greater, p + 1))
        }
    } else {
        None
    }
}

/// The lexer's model: the next token or lexical error from cursor `c`, and
/// the cursor afterwards.  The token's location points at its first byte,
/// captured after the skipping phase and before any content is consumed; an
/// error carries that same location, and leaves the cursor where the failure
/// was detected.
pub open spec fn spec_next_token(src: Seq<u8>, c: Cur) -> (Result<SpecTok, SpecErr>, Cur) {
    let c1 = spec_skip(src, c, false);
    let line = c1.row;
    let col = col_of(c1);
    if c1.pos >= src.len() {
        (Ok(SpecTok { kind: TokenKind::Eof, lit: Seq::empty(), line, col }), c1)
    } else {
        let b = src[c1.pos as int];
        if is_ident_byte(b) {
            let e = ident_end(src, c1.pos);
            let lit = src.subrange(c1.pos as int, e as int);
            let kind = match keyword_of(lit) {
                Some(k) => k,
                None => TokenKind::Ident,
            };
            (
                Ok(SpecTok { kind, lit, line, col }),
                Cur { pos: e, line_start: c1.line_start, row: c1.row },
            )
        } else if is_digit_byte(b) {
            let e = digits_end(src, c1.pos);
            (
                Ok(
                    SpecTok {
                        kind: TokenKind::Number,
                        lit: src.subrange(c1.pos as int, e as int),
                        line,
                        col,
                    },
                ),
                Cur { pos: e, line_start: c1.line_start, row: c1.row },
            )
        } else if b == 34 {
            match scan_string(src, c1.pos + 1) {
                Ok((lit, e)) => (
                    Ok(SpecTok { kind: TokenKind::StrLit, lit, line, col }),
                    Cur { pos: e, line_start: c1.line_start, row: c1.row },
                ),
                Err((k, ep)) => (
                    Err(SpecErr { kind: k, line, col }),
                    Cur { pos: ep, line_start: c1.line_start, row: c1.row },
                ),
            }
        } else if b == 39 {
            match scan_char(src, c1.pos + 1) {
                Ok((ch, e)) => (
                    Ok(SpecTok { kind: TokenKind::CharLit, lit: seq![ch], line, col }),
                    Cur { pos: e, line_start: c1.line_start, row: c1.row },
                ),
                Err((k, ep)) => (
                    Err(SpecErr { kind: k, line, col }),
                    Cur { pos: ep, line_start: c1.line_start, row: c1.row },
                ),
            }
        } else {
            match punct_token(src, c1.pos) {
                Some((k, e)) => (
                    Ok(
                        SpecTok {
                            kind: k,
                            lit: src.subrange(c1.pos as int, e as int),
                            line,
                            col,
                        },
                    ),
                    Cur { pos: e, line_start: c1.line_start, row: c1.row },
                ),
                None => (Err(SpecErr { kind: LexErrorKind::UnrecognizedByte(b), line, col }), c1),
            }
        }
    }
}

/// End of the line starting at or after `p`: the offset of the next line
/// feed, or the end of the buffer.
pub open spec fn line_end(src: Seq<u8>, p: nat) -> nat
    decreases src.len() - p,
{
    if p >= src.len() {
        p
    } else if src[p as int] == 10 {
        p
    } else {
        line_end(src, p + 1)
    }
}

/// Whether the buffer opens with the two-byte `#!` marker of a leading
/// directive line.
pub open spec fn has_directive(src: Seq<u8>) -> bool {
    src.len() >= 2 && src[0] == 35 && src[1] == 33
}

/// The leading directive's text: what stands between `#!` and the end of the
/// first line (empty when there is no directive).
pub open spec fn spec_directive(src: Seq<u8>) -> Seq<u8> {
    if has_directive(src) {
        src.subrange(2, line_end(src, 0) as int)
    } else {
        Seq::empty()
    }
}

/// The cursor a fresh lexer starts from: past the directive line's text if
/// there is one (its line feed is then consumed as whitespace), else offset 0.
pub open spec fn init_cur(src: Seq<u8>) -> Cur {
    Cur {
        pos: if has_directive(src) {
            line_end(src, 0)
        } else {
            0
        },
        line_start: 0,
        row: 1,
    }
}

pub proof fn lemma_line_end_bounds(src: Seq<u8>, p: nat)
    requires
        p <= src.len(),
    ensures
        p <= line_end(src, p) <= src.len(),
    decreases src.len() - p,
{
    if p < src.len() && src[p as int] != 10 {
        lemma_line_end_bounds(src, p + 1);
    }
}

/// Bounds of the skipping phase: it moves only forward, stays inside the
/// buffer, and keeps the cursor well formed.
pub proof fn lemma_skip_bounds(src: Seq<u8>, c: Cur, in_comment: bool)
    requires
        c.line_start <= c.pos <= src.len(),
        1 <= c.row <= c.line_start + 1,
    ensures
        ({
            let c1 = spec_skip(src, c, in_comment);
            &&& c.pos <= c1.pos <= src.len()
            &&& c1.line_start <= c1.pos
            &&& 1 <= c1.row <= c1.line_start + 1
        }),
    decreases src.len() - c.pos, (if in_comment { 0int } else { 1int }),
{
    if c.pos >= src.len() {
    } else if src[c.pos as int] == 10 {
        lemma_skip_bounds(
            src,
            Cur { pos: c.pos + 1, line_start: c.pos + 1, row: c.row + 1 },
            false,
        );
    } else if in_comment {
        lemma_skip_bounds(src, Cur { pos: c.pos + 1, line_start: c.line_start, row: c.row }, true);
    } else if is_space_byte(src[c.pos as int]) {
        lemma_skip_bounds(src, Cur { pos: c.pos + 1, line_start: c.line_start, row: c.row }, false);
    } else if src[c.pos as int] == 47 && c.pos + 1 < src.len() && src[c.pos as int + 1] == 47 {
        lemma_skip_bounds(src, c, true);
    }
}

pub proof fn lemma_ident_end_bounds(src: Seq<u8>, p: nat)
    requires
        p <= src.len(),
    ensures
        p <= ident_end(src, p) <= src.len(),
    decreases src.len() - p,
{
    if p < src.len() && is_ident_continue_byte(src[p as int]) {
        lemma_ident_end_bounds(src, p + 1);
    }
}

pub proof fn lemma_digits_end_bounds(src: Seq<u8>, p: nat)
    requires
        p <= src.len(),
    ensures
        p <= digits_end(src, p) <= src.len(),
    decreases src.len() - p,
{
    if p < src.len() && is_digit_byte(src[p as int]) {
        lemma_digits_end_bounds(src, p + 1);
    }
}

pub proof fn lemma_scan_string_bounds(src: Seq<u8>, p: nat)
    requires
        p <= src.len(),
    ensures
        match scan_string(src, p) {
            Ok((s, e)) => p <= e <= src.len(),
            Err((k, ep)) => p <= ep <= src.len(),
        },
    decreases src.len() - p,
{
    if p < src.len() && src[p as int] != 34 && src[p as int] != 10 {
        if src[p as int] == 92 {
            if p + 1 < src.len() && string_escape_value(src[p as int + 1]) is Some {
                lemma_scan_string_bounds(src, p + 2);
            }
        } else {
            lemma_scan_string_bounds(src, p + 1);
        }
    }
}

/// The properties every caller of the model needs: the cursor never moves
/// backwards, stays inside the buffer and well formed, and any token other
/// than `Eof` consumes at least one byte.
pub proof fn lemma_next_token_props(src: Seq<u8>, c: Cur)
    requires
        c.line_start <= c.pos <= src.len(),
        1 <= c.row <= c.line_start + 1,
    ensures
        ({
            let (r, c2) = spec_next_token(src, c);
            &&& c.pos <= c2.pos <= src.len()
            &&& c2.line_start <= c2.pos
            &&& 1 <= c2.row <= c2.line_start + 1
            &&& (r matches Ok(t) && t.kind != TokenKind::Eof ==> c2.pos > c.pos)
            &&& (r matches Ok(t) && t.kind == TokenKind::Eof ==> c2.pos == src.len())
        }),
{
    lemma_skip_bounds(src, c, false);
    let c1 = spec_skip(src, c, false);
    if c1.pos < src.len() {
        let b = src[c1.pos as int];
        if is_ident_byte(b) {
            lemma_ident_end_bounds(src, c1.pos + 1);
            assert(ident_end(src, c1.pos) == ident_end(src, c1.pos + 1));
        } else if is_digit_byte(b) {
            lemma_digits_end_bounds(src, c1.pos + 1);
            assert(digits_end(src, c1.pos) == digits_end(src, c1.pos + 1));
        } else if b == 34 {
            lemma_scan_string_bounds(src, c1.pos + 1);
        } else if b == 39 {
        } else {
        }
    }
}

/// Once the model answers `Eof`, it answers `Eof` forever, from an unchanged
/// cursor: requesting tokens past the end of input is idempotent.
pub proof fn lemma_eof_idempotent(src: Seq<u8>, c: Cur)
    requires
        spec_next_token(src, c).0 matches Ok(t) && t.kind == TokenKind::Eof,
    ensures
        spec_next_token(src, spec_next_token(src, c).1) == spec_next_token(src, c),
{
    let c1 = spec_next_token(src, c).1;
    assert(c1 == spec_skip(src, c, false));
    assert(c1.pos >= src.len());
    assert(spec_skip(src, c1, false) == c1);
}

/// Round-trip of string-literal content: between the delimiters of a string
/// literal that holds no escape, no raw line feed and no interior quote, the
/// token's literal is the exact source slice.
pub proof fn lemma_string_no_escape_round_trip(src: Seq<u8>, p: nat, q: nat)
    requires
        p <= q < src.len(),
        src[q as int] == 34,
        forall|i: int| p <= i < q ==> src[i] != 34 && src[i] != 92 && src[i] != 10,
    ensures
        scan_string(src, p) == Ok::<(Seq<u8>, nat), (LexErrorKind, nat)>(
            (src.subrange(p as int, q as int), (q + 1) as nat),
        ),
    decreases q - p,
{
    if p == q {
        assert(src.subrange(p as int, q as int) =~= Seq::<u8>::empty());
    } else {
        lemma_string_no_escape_round_trip(src, p + 1, q);
        assert(seq![src[p as int]] + src.subrange(p as int + 1, q as int) =~= src.subrange(
            p as int,
            q as int,
        ));
    }
}

/// Round-trip of string-literal content at the token level: when the cursor
/// stands on the opening `"` of a string literal that holds no escape, no raw
/// line feed and no interior quote, the produced token's literal is the exact
/// source slice between the delimiters.
pub proof fn lemma_string_literal_token(src: Seq<u8>, c: Cur, q: nat)
    requires
        spec_skip(src, c, false).pos < src.len(),
        src[spec_skip(src, c, false).pos as int] == 34,
        spec_skip(src, c, false).pos < q < src.len(),
        src[q as int] == 34,
        forall|i: int|
            spec_skip(src, c, false).pos < i < q ==> src[i] != 34 && src[i] != 92 && src[i] != 10,
    ensures
        spec_next_token(src, c).0 matches Ok(t) && t.kind == TokenKind::StrLit && t.lit
            == src.subrange(spec_skip(src, c, false).pos as int + 1, q as int),
{
    let p = spec_skip(src, c, false).pos;
    lemma_string_no_escape_round_trip(src, p + 1, q);
}

/// Round-trip of char-literal content: a char literal whose one content byte
/// is not escaped carries exactly that source byte.
pub proof fn lemma_char_round_trip(src: Seq<u8>, p: nat)
    requires
        p + 1 < src.len(),
        src[p as int] != 39 && src[p as int] != 92 && src[p as int] != 10,
        src[p as int + 1] == 39,
    ensures
        scan_char(src, p) == Ok::<(u8, nat), (LexErrorKind, nat)>(
            (src[p as int], (p + 2) as nat),
        ),
{
}

/// Round-trip of char-literal content at the token level: when the cursor
/// stands on the opening `'` of a char literal whose content byte is not
/// escaped, the produced token's literal is exactly that source byte.
pub proof fn lemma_char_literal_token(src: Seq<u8>, c: Cur)
    requires
        spec_skip(src, c, false).pos + 2 < src.len(),
        src[spec_skip(src, c, false).pos as int] == 39,
        ({
            let b = src[spec_skip(src, c, false).pos as int + 1];
            b != 39 && b != 92 && b != 10
        }),
        src[spec_skip(src, c, false).pos as int + 2] == 39,
    ensures
        spec_next_token(src, c).0 matches Ok(t) && t.kind == TokenKind::CharLit && t.lit == seq![
            src[spec_skip(src, c, false).pos as int + 1],
        ],
{
    let p = spec_skip(src, c, false).pos;
    lemma_char_round_trip(src, p + 1);
}

/// The leading `#!` directive's text of a buffer: what stands between `#!`
/// and the end of the first line, or empty when the buffer opens otherwise.
pub fn take_directive(src: &Vec<u8>) -> (r: Vec<u8>)
    ensures
        r@ == spec_directive(src@),
{
    if src.len() >= 2 && src[0] == 35 && src[1] == 33 {
        let mut e: usize = 0;
        while e < src.len() && src[e] != 10
            invariant
                e <= src@.len(),
                src@.len() >= 2 && src@[0] == 35 && src@[1] == 33,
                line_end(src@, 0) == line_end(src@, e as nat),
            decreases src@.len() - e,
        {
            e = e + 1;
        }
        assert(line_end(src@, e as nat) == e);
        assert(e >= 2);
        slice_to_vec(slice_subrange(src.as_slice(), 2, e))
    } else {
        Vec::new()
    }
}

/// The lexer's cursor: the byte buffer, the current offset, the offset of the
/// current line's first byte, and the 1-indexed line number.  The cursor only
/// ever moves forward; lookahead is the parser's affair, by buffering already
/// produced tokens.
pub struct Lexer {
    pub src: Vec<u8>,
    pub pos: usize,
    pub line_start: usize,
    pub row: usize,
}

impl Lexer {
    /// The spec-level cursor this lexer stands at.
    pub open spec fn cur(self) -> Cur {
        Cur { pos: self.pos as nat, line_start: self.line_start as nat, row: self.row as nat }
    }

    /// Well-formedness: offsets ordered and in bounds, the line count backed
    /// by at least one byte per line.  The buffer is kept one byte short of
    /// the address-space limit so that 1-indexed columns always fit.
    pub open spec fn wf(self) -> bool {
        &&& self.line_start <= self.pos <= self.src@.len()
        &&& self.src@.len() < usize::MAX as nat
        &&& 1 <= self.row
        &&& self.row <= self.line_start + 1
    }

    /// A fresh lexer over `src`: if the buffer opens with a `#!` directive
    /// line, the cursor starts where that line's text ends (see
    /// `take_directive` for the text itself).
    pub fn new(src: Vec<u8>) -> (r: Lexer)
        requires
            src@.len() < usize::MAX as nat,
        ensures
            r.wf(),
            r.src@ == src@,
            r.cur() == init_cur(src@),
    {
        let mut start: usize = 0;
        if src.len() >= 2 && src[0] == 35 && src[1] == 33 {
            let mut e: usize = 0;
            while e < src.len() && src[e] != 10
                invariant
                    e <= src@.len() < usize::MAX as nat,
                    line_end(src@, 0) == line_end(src@, e as nat),
                decreases src@.len() - e,
            {
                e = e + 1;
            }
            assert(line_end(src@, e as nat) == e);
            start = e;
        }
        Lexer { src, pos: start, line_start: 0, row: 1 }
    }

    /// First phase of `next_token`: skip whitespace and `//` line comments.
    fn skip_trivia(&mut self)
        requires
            old(self).wf(),
        ensures
            final(self).wf(),
            final(self).src@ == old(self).src@,
            final(self).cur() == spec_skip(old(self).src@, old(self).cur(), false),
            final(self).pos == final(self).src@.len() || {
                let b = final(self).src@[final(self).pos as int];
                &&& b != 10
                &&& !is_space_byte(b)
                &&& !(b == 47 && final(self).pos + 1 < final(self).src@.len()
                    && final(self).src@[final(self).pos as int + 1] == 47)
            },
    {
        let mut in_comment = false;
        loop
            invariant
                self.wf(),
                self.src@ == old(self).src@,
                spec_skip(old(self).src@, old(self).cur(), false) == spec_skip(
                    self.src@,
                    self.cur(),
                    in_comment,
                ),
            ensures
                self.wf(),
                self.src@ == old(self).src@,
                self.cur() == spec_skip(old(self).src@, old(self).cur(), false),
                self.pos == self.src@.len() || {
                    let b = self.src@[self.pos as int];
                    &&& b != 10
                    &&& !is_space_byte(b)
                    &&& !(b == 47 && self.pos + 1 < self.src@.len() && self.src@[self.pos as int
                        + 1] == 47)
                },
            decreases self.src@.len() - self.pos, (if in_comment { 0int } else { 1int }),
        {
            if self.pos >= self.src.len() {
                proof {
                    assert(spec_skip(self.src@, self.cur(), in_comment) == self.cur());
                }
                break;
            }
            let ghost pre = self.cur();
            let ghost pre_ic = in_comment;
            let b = self.src[self.pos];
            if b == 10 {
                self.pos = self.pos + 1;
                self.line_start = self.pos;
                self.row = self.row + 1;
                in_comment = false;
            } else if in_comment {
                self.pos = self.pos + 1;
            } else if is_space_byte_ex(b) {
                self.pos = self.pos + 1;
            } else if b == 47 && self.pos + 1 < self.src.len() && self.src[self.pos + 1] == 47 {
                in_comment = true;
            } else {
                proof {
                    assert(spec_skip(self.src@, self.cur(), in_comment) == self.cur());
                }
                break;
            }
            proof {
                assert(spec_skip(self.src@, pre, pre_ic) == spec_skip(
                    self.src@,
                    self.cur(),
                    in_comment,
                ));
            }
        }
    }

    /// The lexer's single operation: the next token, or the lexical error
    /// standing in its place.  Behaves exactly as `spec_next_token` from the
    /// current cursor; in particular, at the end of input it returns the
    /// `Eof` token again and again without moving.
    pub fn next_token(&mut self) -> (r: Result<Token, LexError>)
        requires
            old(self).wf(),
        ensures
            final(self).wf(),
            final(self).src@ == old(self).src@,
            final(self).cur() == spec_next_token(old(self).src@, old(self).cur()).1,
            match (r, spec_next_token(old(self).src@, old(self).cur()).0) {
                (Ok(t), Ok(st)) => t@ == st,
                (Err(e), Err(se)) => e@ == se,
                _ => false,
            },
    {
        let ghost src = self.src@;
        let ghost c0 = self.cur();
        proof {
            lemma_next_token_props(src, c0);
        }
        self.skip_trivia();
        let ghost c1 = self.cur();
        let line = self.row;
        let col = self.pos - self.line_start + 1;
        if self.pos >= self.src.len() {
            return Ok(Token { kind: TokenKind::Eof, literal: Vec::new(), line, col });
        }
        let b = self.src[self.pos];
        if is_ident_byte_ex(b) {
            let start = self.pos;
            while self.pos < self.src.len() && is_ident_continue_byte_ex(self.src[self.pos])
                invariant
                    self.wf(),
                    self.src@ == old(self).src@,
                    self.line_start == c1.line_start,
                    self.row == c1.row,
                    start <= self.pos <= self.src@.len(),
                    ident_end(self.src@, start as nat) == ident_end(self.src@, self.pos as nat),
                decreases self.src@.len() - self.pos,
            {
                self.pos = self.pos + 1;
            }
            assert(ident_end(src, self.pos as nat) == self.pos as nat);
            let literal = slice_to_vec(slice_subrange(self.src.as_slice(), start, self.pos));
            let kind = match keyword_lookup(&literal) {
                Some(k) => k,
                None => TokenKind::Ident,
            };
            Ok(Token { kind, literal, line, col })
        } else if is_digit_byte_ex(b) {
            let start = self.pos;
            while self.pos < self.src.len() && is_digit_byte_ex(self.src[self.pos])
                invariant
                    self.wf(),
                    self.src@ == old(self).src@,
                    self.line_start == c1.line_start,
                    self.row == c1.row,
                    start <= self.pos <= self.src@.len(),
                    digits_end(self.src@, start as nat) == digits_end(self.src@, self.pos as nat),
                decreases self.src@.len() - self.pos,
            {
                self.pos = self.pos + 1;
            }
            assert(digits_end(src, self.pos as nat) == self.pos as nat);
            let literal = slice_to_vec(slice_subrange(self.src.as_slice(), start, self.pos));
            Ok(Token { kind: TokenKind::Number, literal, line, col })
        } else if b == 34 {
            self.scan_string_token(line, col)
        } else if b == 39 {
            self.scan_char_token(line, col)
        } else {
            let kind_end: Option<(TokenKind, usize)> = if b == 40 {
                Some((TokenKind::LParen, self.pos + 1))
            } else if b == 41 {
                Some((TokenKind::RParen, self.pos + 1))
            } else if b == 123 {
                Some((TokenKind::LBrace, self.pos + 1))
            } else if b == 125 {
                Some((TokenKind::RBrace, self.pos + 1))
            } else if b == 91 {
                Some((TokenKind::LBracket, self.pos + 1))
            } else if b == 93 {
                Some((TokenKind::RBracket, self.pos + 1))
            } else if b == 44 {
                Some((TokenKind::Comma, self.pos + 1))
            } else if b == 58 {
                Some((TokenKind::Colon, self.pos + 1))
            } else if b == 59 {
                Some((TokenKind::Semicolon, self.pos + 1))
            } else if b == 61 {
                Some((TokenKind::Equals, self.pos + 1))
            } else if b == 43 {
                Some((TokenKind::Plus, self.pos + 1))
            } else if b == 45 {
                Some((TokenKind::Minus, self.pos + 1))
            } else if b == 42 {
                Some((TokenKind::Star, self.pos + 1))
            } else if b == 47 {
                Some((TokenKind::Slash, self.pos + 1))
            } else if b == 37 {
                Some((TokenKind::Percent, self.pos + 1))
            } else if b == 38 {
                Some((TokenKind::Amp, self.pos + 1))
            } else if b == 124 {
                Some((TokenKind::Pipe, self.pos + 1))
            } else if b == 94 {
                Some((TokenKind::Caret, self.pos + 1))
            } else if b == 33 {
                Some((TokenKind::Bang, self.pos + 1))
            } else if b == 64 {
                Some((TokenKind::At, self.pos + 1))
            } else if b == 60 {
                if self.pos + 1 < self.src.len() && self.src[self.pos + 1] == 60 {
                    Some((TokenKind::Shl, self.pos + 2))
                } else {
                    Some((TokenKind::Less, self.pos + 1))
                }
            } else if b == 62 {
                if self.pos + 1 < self.src.len() && self.src[self.pos + 1] == 62 {
                    Some((TokenKind::Shr, self.pos + 2))
                } else {
                    Some((TokenKind::Greater, self.pos + 1))
                }
            } else {
                None
            };
            match kind_end {
                Some((kind, e)) => {
                    let literal = slice_to_vec(slice_subrange(self.src.as_slice(), self.pos, e));
                    self.pos = e;
                    Ok(Token { kind, literal, line, col })
                },
                None => Err(LexError { kind: LexErrorKind::UnrecognizedByte(b), line, col }),
            }
        }
    }

    /// Scan of a string literal, the cursor standing on the opening `"`.
    fn scan_string_token(&mut self, line: usize, col: usize) -> (r: Result<Token, LexError>)
        requires
            old(self).wf(),
            old(self).pos < old(self).src@.len(),
            old(self).src@[old(self).pos as int] == 34,
            line == old(self).row,
            col == col_of(old(self).cur()),
        ensures
            final(self).wf(),
            final(self).src@ == old(self).src@,
            final(self).line_start == old(self).line_start,
            final(self).row == old(self).row,
            match scan_string(old(self).src@, (old(self).pos + 1) as nat) {
                Ok((s, e)) => {
                    &&& r matches Ok(t)
                    &&& t@ == (SpecTok { kind: TokenKind::StrLit, lit: s, line: line as nat, col: col as nat })
                    &&& final(self).pos == e
                },
                Err((k, ep)) => {
                    &&& r matches Err(er)
                    &&& er@ == (SpecErr { kind: k, line: line as nat, col: col as nat })
                    &&& final(self).pos == ep
                },
            },
    {
        let ghost src = self.src@;
        let mut lit: Vec<u8> = Vec::new();
        let ghost p0 = (self.pos + 1) as nat;
        self.pos = self.pos + 1;
        proof {
            lemma_scan_string_bounds(src, p0);
        }
        loop
            invariant
                self.wf(),
                src == old(self).src@,
                p0 == (old(self).pos + 1) as nat,
                self.src@ == src,
                self.line_start == old(self).line_start,
                self.row == old(self).row,
                p0 <= self.pos <= src.len(),
                match scan_string(src, self.pos as nat) {
                    Ok((s, e)) => scan_string(src, p0) == Ok::<(Seq<u8>, nat), (LexErrorKind, nat)>(
                        (lit@ + s, e),
                    ),
                    Err(err) => scan_string(src, p0) == Err::<(Seq<u8>, nat), (LexErrorKind, nat)>(
                        err,
                    ),
                },
            decreases src.len() - self.pos,
        {
            if self.pos >= self.src.len() {
                return Err(LexError { kind: LexErrorKind::UnterminatedString, line, col });
            }
            let b = self.src[self.pos];
            if b == 34 {
                self.pos = self.pos + 1;
                assert(lit@ + Seq::<u8>::empty() =~= lit@);
                return Ok(Token { kind: TokenKind::StrLit, literal: lit, line, col });
            } else if b == 10 {
                return Err(LexError { kind: LexErrorKind::UnterminatedString, line, col });
            } else if b == 92 {
                if self.pos + 1 >= self.src.len() {
                    return Err(LexError { kind: LexErrorKind::UnterminatedString, line, col });
                }
                let e = self.src[self.pos + 1];
                match string_escape_value_ex(e) {
                    Some(v) => {
                        proof {
                            if let Ok((s2, e2)) = scan_string(src, self.pos as nat + 2) {
                                assert(lit@.push(v) + s2 =~= lit@ + (seq![v] + s2));
                            }
                        }
                        lit.push(v);
                        self.pos = self.pos + 2;
                    },
                    None => {
                        return Err(LexError { kind: LexErrorKind::UnsupportedEscape(e), line, col });
                    },
                }
            } else {
                proof {
                    if let Ok((s2, e2)) = scan_string(src, self.pos as nat + 1) {
                        assert(lit@.push(b) + s2 =~= lit@ + (seq![b] + s2));
                    }
                }
                lit.push(b);
                self.pos = self.pos + 1;
            }
        }
    }

    /// Scan of a char literal, the cursor standing on the opening `'`.
    fn scan_char_token(&mut self, line: usize, col: usize) -> (r: Result<Token, LexError>)
        requires
            old(self).wf(),
            old(self).pos < old(self).src@.len(),
            old(self).src@[old(self).pos as int] == 39,
            line == old(self).row,
            col == col_of(old(self).cur()),
        ensures
            final(self).wf(),
            final(self).src@ == old(self).src@,
            final(self).line_start == old(self).line_start,
            final(self).row == old(self).row,
            match scan_char(old(self).src@, (old(self).pos + 1) as nat) {
                Ok((ch, e)) => {
                    &&& r matches Ok(t)
                    &&& t@ == (SpecTok {
                        kind: TokenKind::CharLit,
                        lit: seq![ch],
                        line: line as nat,
                        col: col as nat,
                    })
                    &&& final(self).pos == e
                },
                Err((k, ep)) => {
                    &&& r matches Err(er)
                    &&& er@ == (SpecErr { kind: k, line: line as nat, col: col as nat })
                    &&& final(self).pos == ep
                },
            },
    {
        self.pos = self.pos + 1;
        if self.pos >= self.src.len() {
            return Err(LexError { kind: LexErrorKind::UnterminatedChar, line, col });
        }
        let b = self.src[self.pos];
        if b == 39 {
            return Err(LexError { kind: LexErrorKind::EmptyCharLiteral, line, col });
        }
        if b == 10 {
            return Err(LexError { kind: LexErrorKind::UnterminatedChar, line, col });
        }
        let content: u8;
        if b == 92 {
            if self.pos + 1 >= self.src.len() {
                return Err(LexError { kind: LexErrorKind::UnterminatedChar, line, col });
            }
            let e = self.src[self.pos + 1];
            match char_escape_value_ex(e) {
                Some(v) => {
                    content = v;
                    self.pos = self.pos + 2;
                },
                None => {
                    return Err(LexError { kind: LexErrorKind::UnsupportedEscape(e), line, col });
                },
            }
        } else {
            content = b;
            self.pos = self.pos + 1;
        }
        if self.pos < self.src.len() && self.src[self.pos] == 39 {
            self.pos = self.pos + 1;
            let mut literal: Vec<u8> = Vec::new();
            literal.push(content);
            assert(literal@ =~= seq![content]);
            Ok(Token { kind: TokenKind::CharLit, literal, line, col })
        } else {
            Err(LexError { kind: LexErrorKind::UnterminatedChar, line, col })
        }
    }
}

} // verus!
