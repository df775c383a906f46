//! The parser: a recursive-descent, one-token-lookahead converter from the
//! scanner's token stream to an AST under the grammar
//!
//! ```text
//! program   := statement*
//! statement := "println" expression ";" | "int" identifier "=" expression ";" | expression
//! expression := term (("+"|"-") term)*      left-associative
//! term       := factor (("*"|"/") factor)*  left-associative
//! factor     := integer | string | identifier | "(" expression ")"
//! ```
//!
//! The meaning of each grammar rule is a pure function over the token stream
//! (`spec_parse_program` and friends); the executable methods are proved to
//! return exactly what those functions say, including which error ends a
//! failed parse. A failure is fatal: no partial AST is returned.

use vstd::prelude::*;
use crate::ast::{BinOp, Expr, ExprV, Program, Stmt, StmtV, stmt_seq_view};
use crate::lexer::{Lexer, lemma_scan_bounds, lex_all, scan_spec};
use crate::tokens::{Delimiter, Keyword, LiteralKind, LiteralKindV, Operator, Token, TokenKind,
    TokenKindV, TokenV};

verus! {

/// Which construct a fatal parse failure belongs to.
#[derive(Debug, Clone, Copy, PartialEq, Eq, Structural)]
pub enum ParseErrorKind {
    ExpectedSemicolonAfterPrintln,
    ExpectedIdentifierAfterInt,
    ExpectedAssignAfterIdentifier,
    ExpectedSemicolonAfterDeclaration,
    ExpectedRParen,
    UnexpectedTokenInFactor,
}

/// A fatal parse failure: the construct that failed and the token actually
/// found, with its source position.
#[derive(Debug, Clone, PartialEq)]
pub struct ParseError {
    pub kind: ParseErrorKind,
    pub found: Token,
}

/// Mathematical value of a parse failure.
pub struct ParseErrorV {
    pub kind: ParseErrorKind,
    pub found: TokenV,
}

impl View for ParseError {
    type V = ParseErrorV;

    open spec fn view(&self) -> ParseErrorV {
        ParseErrorV { kind: self.kind, found: self.found@ }
    }
}

// ---------------------------------------------------------------------------
// The grammar as pure functions over the token stream
// ---------------------------------------------------------------------------
//
// Each function takes the not-yet-consumed stream and returns the node built
// and the stream left over, or the failure that ends the parse. The streams
// that reach them always end with an `Eof` token and are never empty; the
// guards on emptiness and on progress only make the recursion well-founded
// and are never taken on such streams.

pub open spec fn spec_parse_factor(t: Seq<TokenV>) -> Result<(ExprV, Seq<TokenV>), ParseErrorV>
    decreases t.len(), 0int,
{
    if t.len() == 0 {
        Err(arbitrary())
    } else {
        match t[0].kind {
            TokenKindV::Literal(LiteralKindV::Int(n)) => Ok((ExprV::Int(n), t.drop_first())),
            TokenKindV::Literal(LiteralKindV::Str(s)) => Ok((ExprV::Var(s), t.drop_first())),
            TokenKindV::Identifier(name) => Ok((ExprV::Var(name), t.drop_first())),
            TokenKindV::Delimiter(Delimiter::LParen) => match spec_parse_expression(
                t.drop_first(),
            ) {
                Ok(pair) => if pair.1.len() > 0 && pair.1[0].kind == TokenKindV::Delimiter(
                    Delimiter::RParen,
                ) {
                    Ok((pair.0, pair.1.drop_first()))
                } else {
                    Err(ParseErrorV { kind: ParseErrorKind::ExpectedRParen, found: pair.1[0] })
                },
                Err(e) => Err(e),
            },
            _ => Err(ParseErrorV { kind: ParseErrorKind::UnexpectedTokenInFactor, found: t[0] }),
        }
    }
}

/// The `(("*"|"/") factor)*` tail of a term, folded left onto `acc`.
pub open spec fn spec_term_rest(t: Seq<TokenV>, acc: ExprV) -> Result<
    (ExprV, Seq<TokenV>),
    ParseErrorV,
>
    decreases t.len(), 1int,
{
    if t.len() > 0 && (t[0].kind == TokenKindV::Operator(Operator::Star) || t[0].kind
        == TokenKindV::Operator(Operator::Slash)) {
        let op = if t[0].kind == TokenKindV::Operator(Operator::Star) {
            BinOp::Mul
        } else {
            BinOp::Div
        };
        match spec_parse_factor(t.drop_first()) {
            Ok(pair) => if pair.1.len() < t.len() {
                spec_term_rest(
                    pair.1,
                    ExprV::Binary { op, left: Box::new(acc), right: Box::new(pair.0) },
                )
            } else {
                Ok((acc, t))
            },
            Err(e) => Err(e),
        }
    } else {
        Ok((acc, t))
    }
}

pub open spec fn spec_parse_term(t: Seq<TokenV>) -> Result<(ExprV, Seq<TokenV>), ParseErrorV>
    decreases t.len(), 2int,
{
    match spec_parse_factor(t) {
        Ok(pair) => if pair.1.len() <= t.len() {
            spec_term_rest(pair.1, pair.0)
        } else {
            Ok(pair)
        },
        Err(e) => Err(e),
    }
}

/// The `(("+"|"-") term)*` tail of an expression, folded left onto `acc`.
pub open spec fn spec_expr_rest(t: Seq<TokenV>, acc: ExprV) -> Result<
    (ExprV, Seq<TokenV>),
    ParseErrorV,
>
    decreases t.len(), 3int,
{
    if t.len() > 0 && (t[0].kind == TokenKindV::Operator(Operator::Plus) || t[0].kind
        == TokenKindV::Operator(Operator::Minus)) {
        let op = if t[0].kind == TokenKindV::Operator(Operator::Plus) {
            BinOp::Add
        } else {
            BinOp::Sub
        };
        match spec_parse_term(t.drop_first()) {
            Ok(pair) => if pair.1.len() < t.len() {
                spec_expr_rest(
                    pair.1,
                    ExprV::Binary { op, left: Box::new(acc), right: Box::new(pair.0) },
                )
            } else {
                Ok((acc, t))
            },
            Err(e) => Err(e),
        }
    } else {
        Ok((acc, t))
    }
}

pub open spec fn spec_parse_expression(t: Seq<TokenV>) -> Result<(ExprV, Seq<TokenV>), ParseErrorV>
    decreases t.len(), 4int,
{
    match spec_parse_term(t) {
        Ok(pair) => if pair.1.len() <= t.len() {
            spec_expr_rest(pair.1, pair.0)
        } else {
            Ok(pair)
        },
        Err(e) => Err(e),
    }
}

pub open spec fn spec_parse_statement(t: Seq<TokenV>) -> Result<(StmtV, Seq<TokenV>), ParseErrorV>
    decreases t.len(), 5int,
{
    if t.len() == 0 {
        Err(arbitrary())
    } else {
        match t[0].kind {
            TokenKindV::Keyword(Keyword::Println) => match spec_parse_expression(t.drop_first()) {
                Ok(pair) => if pair.1.len() > 0 && pair.1[0].kind == TokenKindV::Delimiter(
                    Delimiter::Semicolon,
                ) {
                    Ok((StmtV::Println(pair.0), pair.1.drop_first()))
                } else {
                    Err(
                        ParseErrorV {
                            kind: ParseErrorKind::ExpectedSemicolonAfterPrintln,
                            found: pair.1[0],
                        },
                    )
                },
                Err(e) => Err(e),
            },
            TokenKindV::Keyword(Keyword::Int) => {
                let t1 = t.drop_first();
                if t1.len() == 0 {
                    Err(arbitrary())
                } else {
                    match t1[0].kind {
                        TokenKindV::Identifier(name) => {
                            let t2 = t1.drop_first();
                            if t2.len() > 0 && t2[0].kind == TokenKindV::Operator(
                                Operator::Assign,
                            ) {
                                match spec_parse_expression(t2.drop_first()) {
                                    Ok(pair) => if pair.1.len() > 0 && pair.1[0].kind
                                        == TokenKindV::Delimiter(Delimiter::Semicolon) {
                                        Ok(
                                            (
                                                StmtV::Declaration(name, pair.0),
                                                pair.1.drop_first(),
                                            ),
                                        )
                                    } else {
                                        Err(
                                            ParseErrorV {
                                                kind:
                                                    ParseErrorKind::ExpectedSemicolonAfterDeclaration,
                                                found: pair.1[0],
                                            },
                                        )
                                    },
                                    Err(e) => Err(e),
                                }
                            } else {
                                Err(
                                    ParseErrorV {
                                        kind: ParseErrorKind::ExpectedAssignAfterIdentifier,
                                        found: t2[0],
                                    },
                                )
                            }
                        },
                        _ => Err(
                            ParseErrorV {
                                kind: ParseErrorKind::ExpectedIdentifierAfterInt,
                                found: t1[0],
                            },
                        ),
                    }
                }
            },
            _ => match spec_parse_expression(t) {
                Ok(pair) => Ok((StmtV::Expr(pair.0), pair.1)),
                Err(e) => Err(e),
            },
        }
    }
}

/// `statement*` until the stream's `Eof`, folded onto `acc`.
pub open spec fn spec_parse_stmts(t: Seq<TokenV>, acc: Seq<StmtV>) -> Result<
    Seq<StmtV>,
    ParseErrorV,
>
    decreases t.len(), 6int,
{
    if t.len() == 0 {
        Ok(acc)
    } else if t[0].kind is Eof {
        Ok(acc)
    } else {
        match spec_parse_statement(t) {
            Ok(pair) => if pair.1.len() < t.len() {
                spec_parse_stmts(pair.1, acc.push(pair.0))
            } else {
                Ok(acc.push(pair.0))
            },
            Err(e) => Err(e),
        }
    }
}

/// The whole-program parse: every statement before `Eof`, or the first failure.
pub open spec fn spec_parse_program(t: Seq<TokenV>) -> Result<Seq<StmtV>, ParseErrorV> {
    spec_parse_stmts(t, Seq::<StmtV>::empty())
}

// ---------------------------------------------------------------------------
// The parser
// ---------------------------------------------------------------------------

/// A recursive-descent parser over a complete input text, holding exactly one
/// token of lookahead. Construction scans the first token eagerly.
pub struct Parser<'a> {
    lexer: Lexer<'a>,
    current: Token,
}

impl<'a> Parser<'a> {
    pub closed spec fn wf(self) -> bool {
        self.lexer.wf()
    }

    /// The not-yet-consumed token stream: the lookahead token, then everything
    /// the scanner has still to produce, up to and including the first `Eof`.
    pub closed spec fn toks(self) -> Seq<TokenV> {
        seq![self.current@] + if self.current@.kind is Eof {
            Seq::<TokenV>::empty()
        } else {
            lex_all(self.lexer.text(), self.lexer.pos())
        }
    }

    /// Builds a parser over `input`, scanning the first token.
    pub fn new(input: &'a str) -> (p: Parser<'a>)
        ensures
            p.wf(),
            p.toks() == lex_all(input@, 0),
    {
        let mut lexer = Lexer::new(input);
        let first = lexer.next_token();
        let p = Parser { lexer, current: first };
        proof {
            lemma_scan_bounds(input@, 0);
            assert(p.toks() =~= lex_all(input@, 0));
        }
        p
    }

    /// Discards the lookahead token and scans the next one.
    fn advance(&mut self)
        requires
            old(self).wf(),
            !(old(self).current@.kind is Eof),
        ensures
            final(self).wf(),
            final(self).toks() == old(self).toks().drop_first(),
            final(self).toks().len() == old(self).toks().len() - 1,
    {
        proof {
            self.lexer.lemma_wf_bounds();
            lemma_scan_bounds(self.lexer.text(), self.lexer.pos());
        }
        let next = self.lexer.next_token();
        self.current = next;
        proof {
            assert(old(self).toks().drop_first() =~= lex_all(
                old(self).lexer.text(),
                old(self).lexer.pos(),
            ));
            assert(self.toks() =~= lex_all(old(self).lexer.text(), old(self).lexer.pos()));
        }
    }

    /// The unconsumed stream is never empty and starts with the lookahead token.
    proof fn lemma_stream_head(self)
        ensures
            self.toks().len() >= 1,
            self.toks()[0] == self.current@,
    {
        assert(self.toks()[0] == self.current@);
    }

    /// Whether the lookahead token is `Eof`.
    fn at_eof(&self) -> (b: bool)
        ensures
            b == (self.current@.kind is Eof),
    {
        matches!(self.current.kind, TokenKind::Eof)
    }

    /// Whether the lookahead token is `+` or `-`.
    fn at_addop(&self) -> (b: bool)
        ensures
            b == (self.current@.kind == TokenKindV::Operator(Operator::Plus) || self.current@.kind
                == TokenKindV::Operator(Operator::Minus)),
    {
        matches!(self.current.kind, TokenKind::Operator(Operator::Plus) | TokenKind::Operator(Operator::Minus))
    }

    /// Whether the lookahead token is `*` or `/`.
    fn at_mulop(&self) -> (b: bool)
        ensures
            b == (self.current@.kind == TokenKindV::Operator(Operator::Star) || self.current@.kind
                == TokenKindV::Operator(Operator::Slash)),
    {
        matches!(self.current.kind, TokenKind::Operator(Operator::Star) | TokenKind::Operator(Operator::Slash))
    }

    /// Parses `factor := integer | string | identifier | "(" expression ")"`.
    /// A string literal in factor position becomes a variable reference whose
    /// name is the literal's text.
    fn parse_factor(&mut self) -> (r: Result<Expr, ParseError>)
        requires
            old(self).wf(),
        ensures
            final(self).wf(),
            final(self).toks().len() <= old(self).toks().len(),
            match spec_parse_factor(old(self).toks()) {
                Ok(pair) => r matches Ok(e) && e@ == pair.0 && final(self).toks() == pair.1
                    && final(self).toks().len() < old(self).toks().len(),
                Err(pe) => r matches Err(x) && x@ == pe,
            },
        decreases old(self).toks().len(), 0int,
    {
        let ghost t0 = self.toks();
        match &self.current.kind {
            TokenKind::Literal(LiteralKind::Int(value)) => {
                let n: i64 = *value;
                self.advance();
                Ok(Expr::Int(n))
            },
            TokenKind::Literal(LiteralKind::Str(s)) => {
                let name = s.clone();
                self.advance();
                Ok(Expr::Var(name))
            },
            TokenKind::Identifier(name) => {
                let id = name.clone();
                self.advance();
                Ok(Expr::Var(id))
            },
            TokenKind::Delimiter(Delimiter::LParen) => {
                self.advance();
                match self.parse_expression() {
                    Ok(e) => {
                        if matches!(self.current.kind, TokenKind::Delimiter(Delimiter::RParen)) {
                            self.advance();
                            Ok(e)
                        } else {
                            Err(
                                ParseError {
                                    kind: ParseErrorKind::ExpectedRParen,
                                    found: self.current.dup(),
                                },
                            )
                        }
                    },
                    Err(pe) => Err(pe),
                }
            },
            _ => Err(
                ParseError {
                    kind: ParseErrorKind::UnexpectedTokenInFactor,
                    found: self.current.dup(),
                },
            ),
        }
    }

    /// Parses `term := factor (("*"|"/") factor)*`, building a left-leaning
    /// tree of `Mul`/`Div` nodes.
    fn parse_term(&mut self) -> (r: Result<Expr, ParseError>)
        requires
            old(self).wf(),
        ensures
            final(self).wf(),
            final(self).toks().len() <= old(self).toks().len(),
            match spec_parse_term(old(self).toks()) {
                Ok(pair) => r matches Ok(e) && e@ == pair.0 && final(self).toks() == pair.1
                    && final(self).toks().len() < old(self).toks().len(),
                Err(pe) => r matches Err(x) && x@ == pe,
            },
        decreases old(self).toks().len(), 2int,
    {
        let ghost t0 = self.toks();
        let mut node = match self.parse_factor() {
            Ok(e) => e,
            Err(pe) => {
                return Err(pe);
            },
        };
        while self.at_mulop()
            invariant
                t0 == old(self).toks(),
                self.wf(),
                self.toks().len() < t0.len(),
                spec_parse_term(t0) == spec_term_rest(self.toks(), node@),
            decreases self.toks().len(),
        {
            let ghost ta = self.toks();
            proof {
                self.lemma_stream_head();
            }
            let op = if matches!(self.current.kind, TokenKind::Operator(Operator::Star)) {
                BinOp::Mul
            } else {
                BinOp::Div
            };
            self.advance();
            let rhs = match self.parse_factor() {
                Ok(e) => e,
                Err(pe) => {
                    proof {
                        assert(spec_term_rest(ta, node@) matches Err(x) && x == pe@);
                    }
                    return Err(pe);
                },
            };
            node = Expr::Binary { op, left: Box::new(node), right: Box::new(rhs) };
        }
        proof {
            self.lemma_stream_head();
        }
        Ok(node)
    }

    /// Parses `expression := term (("+"|"-") term)*`, building a left-leaning
    /// tree of `Add`/`Sub` nodes.
    fn parse_expression(&mut self) -> (r: Result<Expr, ParseError>)
        requires
            old(self).wf(),
        ensures
            final(self).wf(),
            final(self).toks().len() <= old(self).toks().len(),
            match spec_parse_expression(old(self).toks()) {
                Ok(pair) => r matches Ok(e) && e@ == pair.0 && final(self).toks() == pair.1
                    && final(self).toks().len() < old(self).toks().len(),
                Err(pe) => r matches Err(x) && x@ == pe,
            },
        decreases old(self).toks().len(), 4int,
    {
        let ghost t0 = self.toks();
        let mut node = match self.parse_term() {
            Ok(e) => e,
            Err(pe) => {
                return Err(pe);
            },
        };
        while self.at_addop()
            invariant
                t0 == old(self).toks(),
                self.wf(),
                self.toks().len() < t0.len(),
                spec_parse_expression(t0) == spec_expr_rest(self.toks(), node@),
            decreases self.toks().len(),
        {
            let ghost ta = self.toks();
            proof {
                self.lemma_stream_head();
            }
            let op = if matches!(self.current.kind, TokenKind::Operator(Operator::Plus)) {
                BinOp::Add
            } else {
                BinOp::Sub
            };
            self.advance();
            let rhs = match self.parse_term() {
                Ok(e) => e,
                Err(pe) => {
                    proof {
                        assert(spec_expr_rest(ta, node@) matches Err(x) && x == pe@);
                    }
                    return Err(pe);
                },
            };
            node = Expr::Binary { op, left: Box::new(node), right: Box::new(rhs) };
        }
        proof {
            self.lemma_stream_head();
        }
        Ok(node)
    }

    /// Parses one statement: a `println` statement, a declaration, or a bare
    /// expression statement (which consumes no semicolon).
    fn parse_statement(&mut self) -> (r: Result<Stmt, ParseError>)
        requires
            old(self).wf(),
        ensures
            final(self).wf(),
            final(self).toks().len() <= old(self).toks().len(),
            match spec_parse_statement(old(self).toks()) {
                Ok(pair) => r matches Ok(s) && s@ == pair.0 && final(self).toks() == pair.1
                    && final(self).toks().len() < old(self).toks().len(),
                Err(pe) => r matches Err(x) && x@ == pe,
            },
        decreases old(self).toks().len(), 5int,
    {
        let ghost t0 = self.toks();
        match &self.current.kind {
            TokenKind::Keyword(Keyword::Println) => {
                self.advance();
                let expr = match self.parse_expression() {
                    Ok(e) => e,
                    Err(pe) => {
                        return Err(pe);
                    },
                };
                if matches!(self.current.kind, TokenKind::Delimiter(Delimiter::Semicolon)) {
                    self.advance();
                    Ok(Stmt::Println(expr))
                } else {
                    Err(
                        ParseError {
                            kind: ParseErrorKind::ExpectedSemicolonAfterPrintln,
                            found: self.current.dup(),
                        },
                    )
                }
            },
            TokenKind::Keyword(Keyword::Int) => {
                self.advance();
                match &self.current.kind {
                    TokenKind::Identifier(name) => {
                        let ident = name.clone();
                        self.advance();
                        if matches!(self.current.kind, TokenKind::Operator(Operator::Assign)) {
                            self.advance();
                            let expr = match self.parse_expression() {
                                Ok(e) => e,
                                Err(pe) => {
                                    return Err(pe);
                                },
                            };
                            if matches!(self.current.kind, TokenKind::Delimiter(Delimiter::Semicolon)) {
                                self.advance();
                                Ok(Stmt::Declaration(ident, expr))
                            } else {
                                Err(
                                    ParseError {
                                        kind: ParseErrorKind::ExpectedSemicolonAfterDeclaration,
                                        found: self.current.dup(),
                                    },
                                )
                            }
                        } else {
                            Err(
                                ParseError {
                                    kind: ParseErrorKind::ExpectedAssignAfterIdentifier,
                                    found: self.current.dup(),
                                },
                            )
                        }
                    },
                    _ => Err(
                        ParseError {
                            kind: ParseErrorKind::ExpectedIdentifierAfterInt,
                            found: self.current.dup(),
                        },
                    ),
                }
            },
            _ => {
                let expr = match self.parse_expression() {
                    Ok(e) => e,
                    Err(pe) => {
                        return Err(pe);
                    },
                };
                Ok(Stmt::Expr(expr))
            },
        }
    }

    /// Parses the whole program: every statement up to end of input. On
    /// success the entire token stream has been consumed; on failure no
    /// partial program is returned.
    pub fn parse_program(&mut self) -> (r: Result<Program, ParseError>)
        requires
            old(self).wf(),
        ensures
            final(self).wf(),
            match spec_parse_program(old(self).toks()) {
                Ok(p) => r matches Ok(prog) && prog@ == p && final(self).toks().len() == 1
                    && final(self).toks()[0].kind is Eof,
                Err(pe) => r matches Err(x) && x@ == pe,
            },
    {
        let ghost t0 = self.toks();
        let mut statements: Vec<Stmt> = Vec::new();
        proof {
            assert(stmt_seq_view(statements@) =~= Seq::<StmtV>::empty());
        }
        while !self.at_eof()
            invariant
                t0 == old(self).toks(),
                self.wf(),
                self.toks().len() <= t0.len(),
                spec_parse_program(t0) == spec_parse_stmts(self.toks(), stmt_seq_view(statements@)),
            decreases self.toks().len(),
        {
            let ghost ta = self.toks();
            let ghost acc = stmt_seq_view(statements@);
            proof {
                self.lemma_stream_head();
            }
            let stmt = match self.parse_statement() {
                Ok(s) => s,
                Err(pe) => {
                    proof {
                        assert(spec_parse_stmts(ta, acc) matches Err(x) && x == pe@);
                    }
                    return Err(pe);
                },
            };
            statements.push(stmt);
            proof {
                assert(stmt_seq_view(statements@) =~= acc.push(stmt@));
            }
        }
        proof {
            self.lemma_stream_head();
        }
        Ok(Program { statements })
    }
}

} // verus!
