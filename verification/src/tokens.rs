//! The token model: the shared vocabulary of token kinds, source positions and
//! literal payloads produced by the scanner and consumed by the parser.

use vstd::prelude::*;

verus! {

/// Where a token begins in the source text: a 1-based line number, and a column
/// counter that is reset to 0 at the start of each line and incremented once per
/// character consumed.
#[derive(Debug, Clone, Copy, PartialEq, Eq, Structural)]
pub struct Span {
    pub line: usize,
    pub column: usize,
}

/// The keywords the scanner recognizes. Only `println` and `int` are consumed by
/// the grammar; the others are recognized lexically and rejected by the parser
/// when they reach a factor position.
#[derive(Debug, Clone, Copy, PartialEq, Eq, Structural)]
pub enum Keyword {
    If,
    Else,
    While,
    For,
    Println,
    Int,
}

/// Operators named by the token vocabulary. The scanner emits one token per
/// character, so `Eq` and `Neq` are reserved: `=` lexes to `Assign` and `==` to
/// two `Assign` tokens.
#[derive(Debug, Clone, Copy, PartialEq, Eq, Structural)]
pub enum Operator {
    Plus,
    Minus,
    Star,
    Slash,
    Assign,
    Eq,
    Neq,
    Lt,
    Gt,
}

#[derive(Debug, Clone, Copy, PartialEq, Eq, Structural)]
pub enum Delimiter {
    LParen,
    RParen,
    LBrace,
    RBrace,
    Semicolon,
    Comma,
}

/// A literal payload. `Bool` is reserved and never produced by the scanner.
#[derive(Debug, Clone, PartialEq)]
pub enum LiteralKind {
    Int(i64),
    Str(String),
    Bool(bool),
}

#[derive(Debug, Clone, PartialEq)]
pub enum TokenKind {
    Identifier(String),
    Keyword(Keyword),
    Literal(LiteralKind),
    Operator(Operator),
    Delimiter(Delimiter),
    NotFound,
    Eof,
}

#[derive(Debug, Clone, PartialEq)]
pub struct Token {
    pub kind: TokenKind,
    pub span: Span,
}

/// Mathematical value of a literal payload: text as a sequence of characters.
pub enum LiteralKindV {
    Int(i64),
    Str(Seq<char>),
    Bool(bool),
}

/// Mathematical value of a token kind.
pub enum TokenKindV {
    Identifier(Seq<char>),
    Keyword(Keyword),
    Literal(LiteralKindV),
    Operator(Operator),
    Delimiter(Delimiter),
    NotFound,
    Eof,
}

/// Mathematical value of a token.
pub struct TokenV {
    pub kind: TokenKindV,
    pub span: Span,
}

impl View for LiteralKind {
    type V = LiteralKindV;

    open spec fn view(&self) -> LiteralKindV {
        match self {
            LiteralKind::Int(n) => LiteralKindV::Int(*n),
            LiteralKind::Str(s) => LiteralKindV::Str(s@),
            LiteralKind::Bool(b) => LiteralKindV::Bool(*b),
        }
    }
}

impl View for TokenKind {
    type V = TokenKindV;

    open spec fn view(&self) -> TokenKindV {
        match self {
            TokenKind::Identifier(s) => TokenKindV::Identifier(s@),
            TokenKind::Keyword(k) => TokenKindV::Keyword(*k),
            TokenKind::Literal(l) => TokenKindV::Literal(l@),
            TokenKind::Operator(o) => TokenKindV::Operator(*o),
            TokenKind::Delimiter(d) => TokenKindV::Delimiter(*d),
            TokenKind::NotFound => TokenKindV::NotFound,
            TokenKind::Eof => TokenKindV::Eof,
        }
    }
}

impl View for Token {
    type V = TokenV;

    open spec fn view(&self) -> TokenV {
        TokenV { kind: self.kind@, span: self.span }
    }
}

impl TokenKind {
    /// A deep copy whose result the verifier knows equals the value copied.
    pub fn dup(&self) -> (k: TokenKind)
        ensures
            k@ == self@,
    {
        match self {
            TokenKind::Identifier(s) => TokenKind::Identifier(s.clone()),
            TokenKind::Keyword(k) => TokenKind::Keyword(*k),
            TokenKind::Literal(LiteralKind::Int(n)) => TokenKind::Literal(LiteralKind::Int(*n)),
            TokenKind::Literal(LiteralKind::Str(s)) => TokenKind::Literal(
                LiteralKind::Str(s.clone()),
            ),
            TokenKind::Literal(LiteralKind::Bool(b)) => TokenKind::Literal(
                LiteralKind::Bool(*b),
            ),
            TokenKind::Operator(o) => TokenKind::Operator(*o),
            TokenKind::Delimiter(d) => TokenKind::Delimiter(*d),
            TokenKind::NotFound => TokenKind::NotFound,
            TokenKind::Eof => TokenKind::Eof,
        }
    }
}

impl Token {
    /// A deep copy whose result the verifier knows equals the value copied.
    pub fn dup(&self) -> (t: Token)
        ensures
            t@ == self@,
    {
        Token { kind: self.kind.dup(), span: self.span }
    }
}

} // verus!
