//! The scanner: a stateful converter from text to a demand-driven sequence of
//! classified tokens. The meaning of one scan step is the pure function
//! `scan_spec`, and `lex_all` is the full tokenization of a text from a given
//! position; `next_token` is proved to follow `scan_spec` exactly.

use vstd::prelude::*;
use vstd::string::StrSliceExecFns;
use crate::tokens::{Delimiter, Keyword, LiteralKind, LiteralKindV, Operator, Span, Token,
    TokenKind, TokenKindV, TokenV};

verus! {

// ---------------------------------------------------------------------------
// Character classes
// ---------------------------------------------------------------------------

/// The Unicode White_Space code points, the set `char::is_whitespace` accepts.
pub open spec fn is_ws(c: char) -> bool {
    let u = c as u32;
    (9 <= u && u <= 13) || u == 32 || u == 0x85 || u == 0xA0 || u == 0x1680 || (0x2000 <= u && u
        <= 0x200A) || u == 0x2028 || u == 0x2029 || u == 0x202F || u == 0x205F || u == 0x3000
}

/// Whether `c` is one of the Unicode White_Space code points.
fn is_whitespace_char(c: char) -> (b: bool)
    ensures
        b == is_ws(c),
{
    let u: u32 = c as u32;
    (9 <= u && u <= 13) || u == 32 || u == 0x85 || u == 0xA0 || u == 0x1680 || (0x2000 <= u && u
        <= 0x200A) || u == 0x2028 || u == 0x2029 || u == 0x202F || u == 0x205F || u == 0x3000
}

/// Names the result of `char::is_alphabetic`, which depends on the character alone.
pub uninterp spec fn unicode_alphabetic(c: char) -> bool;

/// Names the result of `char::is_alphanumeric`, which depends on the character alone.
pub uninterp spec fn unicode_alphanumeric(c: char) -> bool;

/// Relies on `char::is_alphabetic`: whether `c` has the Unicode Alphabetic property,
/// a function of the character alone.
pub assume_specification[ char::is_alphabetic ](c: char) -> (r: bool)
    ensures
        r == unicode_alphabetic(c),
;

/// Relies on `char::is_alphanumeric`: whether `c` is Unicode alphabetic or numeric,
/// a function of the character alone.
pub assume_specification[ char::is_alphanumeric ](c: char) -> (r: bool)
    ensures
        r == unicode_alphanumeric(c),
;

/// An ASCII decimal digit.
pub open spec fn is_digit(c: char) -> bool {
    let u = c as u32;
    48 <= u && u <= 57
}

fn is_digit_char(c: char) -> (b: bool)
    ensures
        b == is_digit(c),
{
    let u: u32 = c as u32;
    48 <= u && u <= 57
}

/// A character that can start an identifier: alphabetic or an underscore.
pub open spec fn ident_start(c: char) -> bool {
    unicode_alphabetic(c) || c == '_'
}

/// A character that can continue an identifier: alphanumeric or an underscore.
/// Alphabetic characters are alphanumeric, so naming them here changes nothing;
/// it records that every character that can start an identifier can continue one.
pub open spec fn ident_part(c: char) -> bool {
    unicode_alphanumeric(c) || unicode_alphabetic(c) || c == '_'
}

fn is_identifier_start(c: char) -> (b: bool)
    ensures
        b == ident_start(c),
{
    c.is_alphabetic() || c == '_'
}

fn is_identifier_part(c: char) -> (b: bool)
    ensures
        b == ident_part(c),
{
    c.is_alphanumeric() || c.is_alphabetic() || c == '_'
}

// ---------------------------------------------------------------------------
// Position bookkeeping as a pure function of the text and the cursor
// ---------------------------------------------------------------------------

/// The 1-based line number after the cursor has reached position `p`: the line
/// counter starts at 1 and steps when the cursor moves onto a newline.
pub open spec fn line_at(s: Seq<char>, p: int) -> int
    decreases p,
{
    if p <= 0 {
        1
    } else {
        let prev = line_at(s, p - 1);
        if p < s.len() && s[p] == '\n' {
            prev + 1
        } else {
            prev
        }
    }
}

/// The column counter after the cursor has reached position `p`: reset to 0 by a
/// newline, incremented by every other character the cursor moves onto.
pub open spec fn col_at(s: Seq<char>, p: int) -> int
    decreases p,
{
    if p <= 0 {
        0
    } else if p >= s.len() {
        col_at(s, p - 1)
    } else if s[p] == '\n' {
        0
    } else {
        col_at(s, p - 1) + 1
    }
}

pub open spec fn span_at(s: Seq<char>, p: int) -> Span {
    Span { line: line_at(s, p) as usize, column: col_at(s, p) as usize }
}

// ---------------------------------------------------------------------------
// Maximal runs
// ---------------------------------------------------------------------------

/// The first position at or after `p` that does not hold whitespace.
pub open spec fn ws_end(s: Seq<char>, p: int) -> int
    decreases s.len() - p,
{
    if 0 <= p < s.len() && is_ws(s[p]) {
        ws_end(s, p + 1)
    } else {
        p
    }
}

/// The end of the maximal run of identifier characters starting at `p`.
pub open spec fn ident_end(s: Seq<char>, p: int) -> int
    decreases s.len() - p,
{
    if 0 <= p < s.len() && ident_part(s[p]) {
        ident_end(s, p + 1)
    } else {
        p
    }
}

/// The end of the maximal run of ASCII digits starting at `p`.
pub open spec fn digits_end(s: Seq<char>, p: int) -> int
    decreases s.len() - p,
{
    if 0 <= p < s.len() && is_digit(s[p]) {
        digits_end(s, p + 1)
    } else {
        p
    }
}

/// The position of the first double quote at or after `p`, or the end of the text.
pub open spec fn str_end(s: Seq<char>, p: int) -> int
    decreases s.len() - p,
{
    if 0 <= p < s.len() && s[p] != '"' {
        str_end(s, p + 1)
    } else {
        p
    }
}

pub proof fn lemma_ws_end_bounds(s: Seq<char>, p: int)
    requires
        0 <= p <= s.len(),
    ensures
        p <= ws_end(s, p) <= s.len(),
    decreases s.len() - p,
{
    if p < s.len() && is_ws(s[p]) {
        lemma_ws_end_bounds(s, p + 1);
    }
}

pub proof fn lemma_ident_end_bounds(s: Seq<char>, p: int)
    requires
        0 <= p <= s.len(),
    ensures
        p <= ident_end(s, p) <= s.len(),
    decreases s.len() - p,
{
    if p < s.len() && ident_part(s[p]) {
        lemma_ident_end_bounds(s, p + 1);
    }
}

pub proof fn lemma_digits_end_bounds(s: Seq<char>, p: int)
    requires
        0 <= p <= s.len(),
    ensures
        p <= digits_end(s, p) <= s.len(),
    decreases s.len() - p,
{
    if p < s.len() && is_digit(s[p]) {
        lemma_digits_end_bounds(s, p + 1);
    }
}

pub proof fn lemma_str_end_bounds(s: Seq<char>, p: int)
    requires
        0 <= p <= s.len(),
    ensures
        p <= str_end(s, p) <= s.len(),
    decreases s.len() - p,
{
    if p < s.len() && s[p] != '"' {
        lemma_str_end_bounds(s, p + 1);
    }
}

// ---------------------------------------------------------------------------
// Token values
// ---------------------------------------------------------------------------

/// The numeric value of a run of ASCII digits.
pub open spec fn digits_val(w: Seq<char>) -> int
    decreases w.len(),
{
    if w.len() == 0 {
        0
    } else {
        digits_val(w.drop_last()) * 10 + (w.last() as u32 - 48)
    }
}

pub proof fn lemma_digits_val_nonneg(w: Seq<char>)
    requires
        forall|i: int| 0 <= i < w.len() ==> is_digit(w[i]),
    ensures
        digits_val(w) >= 0,
    decreases w.len(),
{
    if w.len() > 0 {
        assert(forall|i: int| 0 <= i < w.drop_last().len() ==> w.drop_last()[i] == w[i]);
        lemma_digits_val_nonneg(w.drop_last());
    }
}

/// The value of an integer literal token: the digits' value, or 0 when it does
/// not fit in an `i64` (the scanner's silent fallback on overflow).
pub open spec fn int_lit_val(w: Seq<char>) -> i64 {
    if digits_val(w) <= i64::MAX {
        digits_val(w) as i64
    } else {
        0
    }
}

/// Classification of a maximal identifier run: an exact keyword match wins,
/// anything else is an identifier.
pub open spec fn classify_word(w: Seq<char>) -> TokenKindV {
    if w == "if"@ {
        TokenKindV::Keyword(Keyword::If)
    } else if w == "else"@ {
        TokenKindV::Keyword(Keyword::Else)
    } else if w == "while"@ {
        TokenKindV::Keyword(Keyword::While)
    } else if w == "for"@ {
        TokenKindV::Keyword(Keyword::For)
    } else if w == "println"@ {
        TokenKindV::Keyword(Keyword::Println)
    } else if w == "int"@ {
        TokenKindV::Keyword(Keyword::Int)
    } else {
        TokenKindV::Identifier(w)
    }
}

/// Classification of a single character against the operator and delimiter
/// tables; anything unrecognized is `NotFound`.
pub open spec fn single_char_kind(c: char) -> TokenKindV {
    if c == '+' {
        TokenKindV::Operator(Operator::Plus)
    } else if c == '-' {
        TokenKindV::Operator(Operator::Minus)
    } else if c == '*' {
        TokenKindV::Operator(Operator::Star)
    } else if c == '/' {
        TokenKindV::Operator(Operator::Slash)
    } else if c == '<' {
        TokenKindV::Operator(Operator::Lt)
    } else if c == '>' {
        TokenKindV::Operator(Operator::Gt)
    } else if c == '=' {
        TokenKindV::Operator(Operator::Assign)
    } else if c == '(' {
        TokenKindV::Delimiter(Delimiter::LParen)
    } else if c == ')' {
        TokenKindV::Delimiter(Delimiter::RParen)
    } else if c == '{' {
        TokenKindV::Delimiter(Delimiter::LBrace)
    } else if c == '}' {
        TokenKindV::Delimiter(Delimiter::RBrace)
    } else if c == ';' {
        TokenKindV::Delimiter(Delimiter::Semicolon)
    } else if c == ',' {
        TokenKindV::Delimiter(Delimiter::Comma)
    } else {
        TokenKindV::NotFound
    }
}

// ---------------------------------------------------------------------------
// One scan step, and the full tokenization
// ---------------------------------------------------------------------------

/// The result of one scan step: the token produced, and the cursor position
/// after it.
pub struct ScanStep {
    pub tok: TokenV,
    pub end: int,
}

/// One step of the scanner from position `start`: skip whitespace, then
/// classify by the first character. The token's span is the position of its
/// first non-whitespace character.
pub open spec fn scan_spec(s: Seq<char>, start: int) -> ScanStep {
    let p = ws_end(s, start);
    let sp = span_at(s, p);
    if p >= s.len() {
        ScanStep { tok: TokenV { kind: TokenKindV::Eof, span: sp }, end: p }
    } else if is_digit(s[p]) {
        let e = digits_end(s, p);
        ScanStep {
            tok: TokenV {
                kind: TokenKindV::Literal(LiteralKindV::Int(int_lit_val(s.subrange(p, e)))),
                span: sp,
            },
            end: e,
        }
    } else if ident_start(s[p]) {
        let e = ident_end(s, p);
        ScanStep { tok: TokenV { kind: classify_word(s.subrange(p, e)), span: sp }, end: e }
    } else if s[p] == '"' {
        let e = str_end(s, p + 1);
        ScanStep {
            tok: TokenV {
                kind: TokenKindV::Literal(LiteralKindV::Str(s.subrange(p + 1, e))),
                span: sp,
            },
            end: if e < s.len() {
                e + 1
            } else {
                e
            },
        }
    } else {
        ScanStep { tok: TokenV { kind: single_char_kind(s[p]), span: sp }, end: p + 1 }
    }
}

pub proof fn lemma_scan_bounds(s: Seq<char>, p: int)
    requires
        0 <= p <= s.len(),
    ensures
        p <= scan_spec(s, p).end <= s.len(),
        scan_spec(s, p).tok.kind is Eof <==> ws_end(s, p) == s.len(),
        !(scan_spec(s, p).tok.kind is Eof) ==> p < scan_spec(s, p).end,
{
    lemma_ws_end_bounds(s, p);
    let q = ws_end(s, p);
    if q < s.len() {
        if is_digit(s[q]) {
            lemma_digits_end_bounds(s, q + 1);
            assert(digits_end(s, q) == digits_end(s, q + 1));
        } else if ident_start(s[q]) {
            lemma_ident_end_bounds(s, q + 1);
            assert(ident_end(s, q) == ident_end(s, q + 1));
        } else if s[q] == '"' {
            lemma_str_end_bounds(s, q + 1);
        }
    }
}

/// The tokens from position `p` to the end of the text, including the final
/// `Eof` token and nothing after it.
pub open spec fn lex_all(s: Seq<char>, p: int) -> Seq<TokenV>
    decreases s.len() - p,
{
    let r = scan_spec(s, p);
    if r.tok.kind is Eof {
        seq![r.tok]
    } else if p < r.end && r.end <= s.len() {
        seq![r.tok] + lex_all(s, r.end)
    } else {
        seq![r.tok]
    }
}

// ---------------------------------------------------------------------------
// The scanner
// ---------------------------------------------------------------------------

/// A cursor over a complete in-memory text. `next_token` may be called past
/// end of input and then always returns `Eof`.
pub struct Lexer<'a> {
    src: &'a str,
    length: usize,
    pos: usize,
    line: usize,
    col: usize,
}

impl<'a> Lexer<'a> {
    /// The text being scanned.
    pub closed spec fn text(self) -> Seq<char> {
        self.src@
    }

    /// The cursor: how many characters have been consumed.
    pub closed spec fn pos(self) -> int {
        self.pos as int
    }

    /// Internal validity: the cursor is inside the text and the line/column
    /// counters agree with the pure position bookkeeping.
    pub closed spec fn wf(self) -> bool {
        &&& self.length == self.src@.len()
        &&& self.pos <= self.length
        &&& self.line as int == line_at(self.src@, self.pos as int)
        &&& self.col as int == col_at(self.src@, self.pos as int)
        &&& self.line as int <= self.pos as int + 1
        &&& self.col as int <= self.pos as int
    }

    pub proof fn lemma_wf_bounds(self)
        requires
            self.wf(),
        ensures
            0 <= self.pos() <= self.text().len(),
    {
    }

    /// Builds a scanner over `input` with the cursor at the first character.
    pub fn new(input: &'a str) -> (lx: Lexer<'a>)
        ensures
            lx.wf(),
            lx.text() == input@,
            lx.pos() == 0,
    {
        let length: usize = input.unicode_len();
        Lexer { src: input, length, pos: 0, line: 1, col: 0 }
    }

    /// Advances the cursor by one character (a no-op at end of input) and
    /// updates the line/column counters from the character moved onto.
    fn read_char(&mut self)
        requires
            old(self).wf(),
        ensures
            final(self).wf(),
            final(self).text() == old(self).text(),
            final(self).pos() == if old(self).pos() < old(self).text().len() {
                old(self).pos() + 1
            } else {
                old(self).pos()
            },
    {
        if self.pos < self.length {
            self.pos = self.pos + 1;
            if self.pos < self.length {
                let c: char = self.src.get_char(self.pos);
                if c == '\n' {
                    self.line = self.line + 1;
                    self.col = 0;
                } else {
                    self.col = self.col + 1;
                }
            }
        }
    }

    /// Skips to the first non-whitespace character.
    fn skip_whitespace(&mut self)
        requires
            old(self).wf(),
        ensures
            final(self).wf(),
            final(self).text() == old(self).text(),
            final(self).pos() == ws_end(old(self).text(), old(self).pos()),
    {
        while self.pos < self.length && is_whitespace_char(self.src.get_char(self.pos))
            invariant
                self.wf(),
                self.text() == old(self).text(),
                ws_end(self.text(), self.pos as int) == ws_end(old(self).text(), old(self).pos()),
            decreases self.length - self.pos,
        {
            self.read_char();
        }
    }

    /// Consumes a maximal run of ASCII digits and yields the integer literal
    /// token, substituting 0 when the digits exceed the `i64` range.
    fn read_number(&mut self, span: Span) -> (t: Token)
        requires
            old(self).wf(),
            old(self).pos() < old(self).text().len(),
            is_digit(old(self).text()[old(self).pos()]),
        ensures
            final(self).wf(),
            final(self).text() == old(self).text(),
            final(self).pos() == digits_end(old(self).text(), old(self).pos()),
            t@ == (TokenV {
                kind: TokenKindV::Literal(
                    LiteralKindV::Int(
                        int_lit_val(old(self).text().subrange(old(self).pos(), final(self).pos())),
                    ),
                ),
                span: span,
            }),
    {
        let ghost s = self.src@;
        let ghost start0 = self.pos as int;
        let start: usize = self.pos;
        let mut value: i64 = 0;
        let mut overflow: bool = false;
        while self.pos < self.length && is_digit_char(self.src.get_char(self.pos))
            invariant
                self.wf(),
                self.text() == s,
                start0 == start as int,
                start as int <= self.pos as int <= s.len(),
                digits_end(s, start as int) == digits_end(s, self.pos as int),
                0 <= value,
                !overflow ==> value as int == digits_val(s.subrange(start as int, self.pos as int)),
                overflow ==> digits_val(s.subrange(start as int, self.pos as int)) > i64::MAX,
            decreases self.length - self.pos,
        {
            let c: char = self.src.get_char(self.pos);
            let ghost w = s.subrange(start as int, self.pos as int);
            let ghost w2 = s.subrange(start as int, self.pos as int + 1);
            proof {
                assert(w2.drop_last() =~= w);
                assert(w2.last() == s[self.pos as int]);
            }
            let d: i64 = ((c as u32) - 48) as i64;
            if !overflow {
                if value <= (i64::MAX - d) / 10 {
                    proof {
                        assert(value * 10 + d <= i64::MAX) by (nonlinear_arith)
                            requires
                                0 <= value,
                                0 <= d <= 9,
                                value <= (i64::MAX - d) / 10,
                        ;
                    }
                    value = value * 10 + d;
                } else {
                    proof {
                        assert(value * 10 + d > i64::MAX) by (nonlinear_arith)
                            requires
                                0 <= value,
                                0 <= d <= 9,
                                value > (i64::MAX - d) / 10,
                        ;
                    }
                    overflow = true;
                }
            } else {
                proof {
                    assert(digits_val(w) * 10 + (w2.last() as u32 - 48) > i64::MAX)
                        by (nonlinear_arith)
                        requires
                            digits_val(w) > i64::MAX,
                            w2.last() as u32 >= 48,
                    ;
                }
            }
            self.read_char();
        }
        let n: i64 = if overflow {
            0
        } else {
            value
        };
        Token { kind: TokenKind::Literal(LiteralKind::Int(n)), span }
    }

    /// Consumes a maximal identifier run and classifies it against the keyword
    /// table.
    fn read_identifier_or_keyword(&mut self, span: Span) -> (t: Token)
        requires
            old(self).wf(),
        ensures
            final(self).wf(),
            final(self).text() == old(self).text(),
            final(self).pos() == ident_end(old(self).text(), old(self).pos()),
            t@ == (TokenV {
                kind: classify_word(old(self).text().subrange(old(self).pos(), final(self).pos())),
                span: span,
            }),
    {
        let ghost s = self.src@;
        let start: usize = self.pos;
        while self.pos < self.length && is_identifier_part(self.src.get_char(self.pos))
            invariant
                self.wf(),
                self.text() == s,
                start as int <= self.pos as int <= s.len(),
                ident_end(s, start as int) == ident_end(s, self.pos as int),
            decreases self.length - self.pos,
        {
            self.read_char();
        }
        let word: String = self.src.substring_char(start, self.pos).to_owned();
        let kind = keyword_or_identifier(word);
        Token { kind, span }
    }

    /// Consumes a string literal: everything after the opening quote, verbatim,
    /// up to the closing quote or the end of input; both quotes are consumed
    /// and excluded from the text.
    fn read_string(&mut self, span: Span) -> (t: Token)
        requires
            old(self).wf(),
            old(self).pos() < old(self).text().len(),
            old(self).text()[old(self).pos()] == '"',
        ensures
            final(self).wf(),
            final(self).text() == old(self).text(),
            ({
                let e = str_end(old(self).text(), old(self).pos() + 1);
                &&& final(self).pos() == if e < old(self).text().len() {
                    e + 1
                } else {
                    e
                }
                &&& t@ == (TokenV {
                    kind: TokenKindV::Literal(
                        LiteralKindV::Str(old(self).text().subrange(old(self).pos() + 1, e)),
                    ),
                    span: span,
                })
            }),
    {
        let ghost s = self.src@;
        let q: usize = self.pos;
        self.read_char();
        while self.pos < self.length && self.src.get_char(self.pos) != '"'
            invariant
                self.wf(),
                self.text() == s,
                q as int + 1 <= self.pos as int <= s.len(),
                str_end(s, q as int + 1) == str_end(s, self.pos as int),
            decreases self.length - self.pos,
        {
            self.read_char();
        }
        let contents: String = self.src.substring_char(q + 1, self.pos).to_owned();
        self.read_char();
        Token { kind: TokenKind::Literal(LiteralKind::Str(contents)), span }
    }

    /// Produces the next token. Callable repeatedly; once the input is
    /// exhausted it returns `Eof` forever.
    pub fn next_token(&mut self) -> (t: Token)
        requires
            old(self).wf(),
        ensures
            final(self).wf(),
            final(self).text() == old(self).text(),
            t@ == scan_spec(old(self).text(), old(self).pos()).tok,
            final(self).pos() == scan_spec(old(self).text(), old(self).pos()).end,
    {
        self.skip_whitespace();
        let span = Span { line: self.line, column: self.col };
        if self.pos == self.length {
            return Token { kind: TokenKind::Eof, span };
        }
        let c: char = self.src.get_char(self.pos);
        if is_digit_char(c) {
            self.read_number(span)
        } else if is_identifier_start(c) {
            self.read_identifier_or_keyword(span)
        } else if c == '"' {
            self.read_string(span)
        } else {
            let kind = if c == '+' {
                TokenKind::Operator(Operator::Plus)
            } else if c == '-' {
                TokenKind::Operator(Operator::Minus)
            } else if c == '*' {
                TokenKind::Operator(Operator::Star)
            } else if c == '/' {
                TokenKind::Operator(Operator::Slash)
            } else if c == '<' {
                TokenKind::Operator(Operator::Lt)
            } else if c == '>' {
                TokenKind::Operator(Operator::Gt)
            } else if c == '=' {
                TokenKind::Operator(Operator::Assign)
            } else if c == '(' {
                TokenKind::Delimiter(Delimiter::LParen)
            } else if c == ')' {
                TokenKind::Delimiter(Delimiter::RParen)
            } else if c == '{' {
                TokenKind::Delimiter(Delimiter::LBrace)
            } else if c == '}' {
                TokenKind::Delimiter(Delimiter::RBrace)
            } else if c == ';' {
                TokenKind::Delimiter(Delimiter::Semicolon)
            } else if c == ',' {
                TokenKind::Delimiter(Delimiter::Comma)
            } else {
                TokenKind::NotFound
            };
            self.read_char();
            Token { kind, span }
        }
    }
}

/// Classifies a completed identifier run: an exact keyword match wins, anything
/// else stays an identifier.
fn keyword_or_identifier(word: String) -> (k: TokenKind)
    ensures
        k@ == classify_word(word@),
{
    if word == "if".to_owned() {
        TokenKind::Keyword(Keyword::If)
    } else if word == "else".to_owned() {
        TokenKind::Keyword(Keyword::Else)
    } else if word == "while".to_owned() {
        TokenKind::Keyword(Keyword::While)
    } else if word == "for".to_owned() {
        TokenKind::Keyword(Keyword::For)
    } else if word == "println".to_owned() {
        TokenKind::Keyword(Keyword::Println)
    } else if word == "int".to_owned() {
        TokenKind::Keyword(Keyword::Int)
    } else {
        TokenKind::Identifier(word)
    }
}

} // verus!
