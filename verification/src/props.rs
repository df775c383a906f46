//! Laws of the front end, stated over the pure scan and parse functions that
//! the executable scanner and parser are proved to follow.

use vstd::prelude::*;
use crate::ast::{BinOp, ExprV, StmtV};
use crate::lexer::{digits_end, digits_val, is_digit, is_ws, lemma_digits_val_nonneg, lex_all,
    scan_spec, ws_end};
use crate::parser::{ParseErrorV, spec_expr_rest, spec_parse_expression, spec_parse_factor,
    spec_parse_program, spec_parse_statement, spec_parse_stmts, spec_parse_term, spec_term_rest};
use crate::tokens::{Delimiter, LiteralKindV, Operator, TokenKindV, TokenV};

verus! {

proof fn lemma_ws_run(s: Seq<char>, p: int)
    requires
        0 <= p <= s.len(),
        forall|i: int| p <= i < s.len() ==> is_ws(s[i]),
    ensures
        ws_end(s, p) == s.len(),
    decreases s.len() - p,
{
    if p < s.len() {
        lemma_ws_run(s, p + 1);
    }
}

proof fn lemma_digit_run(s: Seq<char>, p: int)
    requires
        0 <= p <= s.len(),
        forall|i: int| p <= i < s.len() ==> is_digit(s[i]),
    ensures
        digits_end(s, p) == s.len(),
    decreases s.len() - p,
{
    if p < s.len() {
        lemma_digit_run(s, p + 1);
    }
}

/// Past the end of the input every scan yields `Eof` again at the same
/// position: the scanner may be called past end of stream and is idempotent
/// there.
pub proof fn lemma_scan_idempotent_at_end(s: Seq<char>)
    ensures
        scan_spec(s, s.len() as int).tok.kind is Eof,
        scan_spec(s, s.len() as int).end == s.len(),
{
    assert(ws_end(s, s.len() as int) == s.len() as int);
}

/// A text of whitespace alone parses to a program with no statements.
pub proof fn lemma_whitespace_only_parses_empty(s: Seq<char>)
    requires
        forall|i: int| 0 <= i < s.len() ==> is_ws(s[i]),
    ensures
        spec_parse_program(lex_all(s, 0)) == Ok::<Seq<StmtV>, ParseErrorV>(Seq::<StmtV>::empty()),
{
    lemma_ws_run(s, 0);
    let r = scan_spec(s, 0);
    assert(r.tok.kind is Eof);
    let t = lex_all(s, 0);
    assert(t =~= seq![r.tok]);
    assert(t[0].kind is Eof);
}

/// Scanning a decimal numeral whose value fits in an `i64` yields a token with
/// exactly that value, and parsing the numeral as a program yields one
/// expression statement holding it: the text-to-token-to-AST round trip of an
/// in-range integer literal is exact.
pub proof fn lemma_int_literal_round_trip(s: Seq<char>)
    requires
        s.len() > 0,
        forall|i: int| 0 <= i < s.len() ==> is_digit(s[i]),
        digits_val(s) <= i64::MAX,
    ensures
        scan_spec(s, 0).tok.kind == TokenKindV::Literal(LiteralKindV::Int(digits_val(s) as i64)),
        spec_parse_program(lex_all(s, 0)) == Ok::<Seq<StmtV>, ParseErrorV>(
            seq![StmtV::Expr(ExprV::Int(digits_val(s) as i64))],
        ),
{
    lemma_digits_val_nonneg(s);
    let v = digits_val(s) as i64;
    assert(is_digit(s[0]));
    assert(!is_ws(s[0]));
    assert(ws_end(s, 0) == 0);
    lemma_digit_run(s, 0);
    let r = scan_spec(s, 0);
    assert(s.subrange(0, s.len() as int) =~= s);
    assert(r.end == s.len());
    assert(0 <= digits_val(s));
    assert(r.tok.kind == TokenKindV::Literal(LiteralKindV::Int(v)));
    let r2 = scan_spec(s, s.len() as int);
    assert(ws_end(s, s.len() as int) == s.len() as int);
    assert(r2.tok.kind is Eof);
    let t = lex_all(s, 0);
    assert(lex_all(s, s.len() as int) =~= seq![r2.tok]);
    assert(t =~= seq![r.tok, r2.tok]);
    let t1 = t.drop_first();
    assert(t1 =~= seq![r2.tok]);
    assert(spec_parse_factor(t) == Ok::<(ExprV, Seq<TokenV>), ParseErrorV>((ExprV::Int(v), t1)));
    assert(spec_term_rest(t1, ExprV::Int(v)) == Ok::<(ExprV, Seq<TokenV>), ParseErrorV>(
        (ExprV::Int(v), t1),
    ));
    assert(spec_parse_term(t) == Ok::<(ExprV, Seq<TokenV>), ParseErrorV>((ExprV::Int(v), t1)));
    assert(spec_expr_rest(t1, ExprV::Int(v)) == Ok::<(ExprV, Seq<TokenV>), ParseErrorV>(
        (ExprV::Int(v), t1),
    ));
    assert(spec_parse_expression(t) == Ok::<(ExprV, Seq<TokenV>), ParseErrorV>(
        (ExprV::Int(v), t1),
    ));
    assert(spec_parse_statement(t) == Ok::<(StmtV, Seq<TokenV>), ParseErrorV>(
        (StmtV::Expr(ExprV::Int(v)), t1),
    ));
    let st = StmtV::Expr(ExprV::Int(v));
    assert(Seq::<StmtV>::empty().push(st) =~= seq![st]);
    assert(spec_parse_stmts(t1, seq![st]) == Ok::<Seq<StmtV>, ParseErrorV>(seq![st]));
}

/// Parsing is a pure function of the text: any two results of parsing the
/// same text are the same, so repeated parses of identical input yield the
/// same AST or the same failure.
pub proof fn lemma_parse_deterministic(
    s: Seq<char>,
    r1: Result<Seq<StmtV>, ParseErrorV>,
    r2: Result<Seq<StmtV>, ParseErrorV>,
)
    requires
        r1 == spec_parse_program(lex_all(s, 0)),
        r2 == spec_parse_program(lex_all(s, 0)),
    ensures
        r1 == r2,
{
}

/// Subtraction associates to the left: a token stream `a - b - c` parses as
/// `(a - b) - c`, never as `a - (b - c)`, whatever the literals' values and
/// positions.
pub proof fn lemma_subtraction_left_associative(t: Seq<TokenV>, a: i64, b: i64, c: i64)
    requires
        t.len() == 6,
        t[0].kind == TokenKindV::Literal(LiteralKindV::Int(a)),
        t[1].kind == TokenKindV::Operator(Operator::Minus),
        t[2].kind == TokenKindV::Literal(LiteralKindV::Int(b)),
        t[3].kind == TokenKindV::Operator(Operator::Minus),
        t[4].kind == TokenKindV::Literal(LiteralKindV::Int(c)),
        t[5].kind is Eof,
    ensures
        spec_parse_program(t) == Ok::<Seq<StmtV>, ParseErrorV>(
            seq![
                StmtV::Expr(
                    ExprV::Binary {
                        op: BinOp::Sub,
                        left: Box::new(
                            ExprV::Binary {
                                op: BinOp::Sub,
                                left: Box::new(ExprV::Int(a)),
                                right: Box::new(ExprV::Int(b)),
                            },
                        ),
                        right: Box::new(ExprV::Int(c)),
                    },
                )
            ],
        ),
{
    let d1 = t.drop_first();
    let d2 = d1.drop_first();
    let d3 = d2.drop_first();
    let d4 = d3.drop_first();
    let d5 = d4.drop_first();
    assert(d1.len() == 5 && d1[0] == t[1] && d1[1] == t[2] && d1[2] == t[3] && d1[3] == t[4]
        && d1[4] == t[5]);
    assert(d2.len() == 4 && d2[0] == t[2] && d2[1] == t[3] && d2[2] == t[4] && d2[3] == t[5]);
    assert(d3.len() == 3 && d3[0] == t[3] && d3[1] == t[4] && d3[2] == t[5]);
    assert(d4.len() == 2 && d4[0] == t[4] && d4[1] == t[5]);
    assert(d5.len() == 1 && d5[0] == t[5]);
    let ea = ExprV::Int(a);
    let eb = ExprV::Int(b);
    let ec = ExprV::Int(c);
    let eab = ExprV::Binary { op: BinOp::Sub, left: Box::new(ea), right: Box::new(eb) };
    let eabc = ExprV::Binary { op: BinOp::Sub, left: Box::new(eab), right: Box::new(ec) };
    assert(spec_parse_factor(t) == Ok::<(ExprV, Seq<TokenV>), ParseErrorV>((ea, d1)));
    assert(spec_term_rest(d1, ea) == Ok::<(ExprV, Seq<TokenV>), ParseErrorV>((ea, d1)));
    assert(spec_parse_term(t) == Ok::<(ExprV, Seq<TokenV>), ParseErrorV>((ea, d1)));
    assert(spec_parse_factor(d2) == Ok::<(ExprV, Seq<TokenV>), ParseErrorV>((eb, d3)));
    assert(spec_term_rest(d3, eb) == Ok::<(ExprV, Seq<TokenV>), ParseErrorV>((eb, d3)));
    assert(spec_parse_term(d2) == Ok::<(ExprV, Seq<TokenV>), ParseErrorV>((eb, d3)));
    assert(spec_parse_factor(d4) == Ok::<(ExprV, Seq<TokenV>), ParseErrorV>((ec, d5)));
    assert(spec_term_rest(d5, ec) == Ok::<(ExprV, Seq<TokenV>), ParseErrorV>((ec, d5)));
    assert(spec_parse_term(d4) == Ok::<(ExprV, Seq<TokenV>), ParseErrorV>((ec, d5)));
    assert(spec_expr_rest(d5, eabc) == Ok::<(ExprV, Seq<TokenV>), ParseErrorV>((eabc, d5)));
    assert(spec_expr_rest(d3, eab) == Ok::<(ExprV, Seq<TokenV>), ParseErrorV>((eabc, d5)));
    assert(spec_expr_rest(d1, ea) == Ok::<(ExprV, Seq<TokenV>), ParseErrorV>((eabc, d5)));
    assert(spec_parse_expression(t) == Ok::<(ExprV, Seq<TokenV>), ParseErrorV>((eabc, d5)));
    assert(spec_parse_statement(t) == Ok::<(StmtV, Seq<TokenV>), ParseErrorV>(
        (StmtV::Expr(eabc), d5),
    ));
    let st = StmtV::Expr(eabc);
    assert(Seq::<StmtV>::empty().push(st) =~= seq![st]);
    assert(spec_parse_stmts(d5, seq![st]) == Ok::<Seq<StmtV>, ParseErrorV>(seq![st]));
}

/// Multiplication binds tighter than addition: a token stream `a + b * c`
/// parses as `a + (b * c)`, never as `(a + b) * c`, whatever the literals'
/// values and positions.
pub proof fn lemma_multiplication_binds_tighter(t: Seq<TokenV>, a: i64, b: i64, c: i64)
    requires
        t.len() == 6,
        t[0].kind == TokenKindV::Literal(LiteralKindV::Int(a)),
        t[1].kind == TokenKindV::Operator(Operator::Plus),
        t[2].kind == TokenKindV::Literal(LiteralKindV::Int(b)),
        t[3].kind == TokenKindV::Operator(Operator::Star),
        t[4].kind == TokenKindV::Literal(LiteralKindV::Int(c)),
        t[5].kind is Eof,
    ensures
        spec_parse_program(t) == Ok::<Seq<StmtV>, ParseErrorV>(
            seq![
                StmtV::Expr(
                    ExprV::Binary {
                        op: BinOp::Add,
                        left: Box::new(ExprV::Int(a)),
                        right: Box::new(
                            ExprV::Binary {
                                op: BinOp::Mul,
                                left: Box::new(ExprV::Int(b)),
                                right: Box::new(ExprV::Int(c)),
                            },
                        ),
                    },
                )
            ],
        ),
{
    let d1 = t.drop_first();
    let d2 = d1.drop_first();
    let d3 = d2.drop_first();
    let d4 = d3.drop_first();
    let d5 = d4.drop_first();
    assert(d1.len() == 5 && d1[0] == t[1] && d1[1] == t[2] && d1[2] == t[3] && d1[3] == t[4]
        && d1[4] == t[5]);
    assert(d2.len() == 4 && d2[0] == t[2] && d2[1] == t[3] && d2[2] == t[4] && d2[3] == t[5]);
    assert(d3.len() == 3 && d3[0] == t[3] && d3[1] == t[4] && d3[2] == t[5]);
    assert(d4.len() == 2 && d4[0] == t[4] && d4[1] == t[5]);
    assert(d5.len() == 1 && d5[0] == t[5]);
    let ea = ExprV::Int(a);
    let eb = ExprV::Int(b);
    let ec = ExprV::Int(c);
    let ebc = ExprV::Binary { op: BinOp::Mul, left: Box::new(eb), right: Box::new(ec) };
    let eabc = ExprV::Binary { op: BinOp::Add, left: Box::new(ea), right: Box::new(ebc) };
    assert(spec_parse_factor(t) == Ok::<(ExprV, Seq<TokenV>), ParseErrorV>((ea, d1)));
    assert(spec_term_rest(d1, ea) == Ok::<(ExprV, Seq<TokenV>), ParseErrorV>((ea, d1)));
    assert(spec_parse_term(t) == Ok::<(ExprV, Seq<TokenV>), ParseErrorV>((ea, d1)));
    assert(spec_parse_factor(d2) == Ok::<(ExprV, Seq<TokenV>), ParseErrorV>((eb, d3)));
    assert(spec_parse_factor(d4) == Ok::<(ExprV, Seq<TokenV>), ParseErrorV>((ec, d5)));
    assert(spec_term_rest(d5, ebc) == Ok::<(ExprV, Seq<TokenV>), ParseErrorV>((ebc, d5)));
    assert(spec_term_rest(d3, eb) == Ok::<(ExprV, Seq<TokenV>), ParseErrorV>((ebc, d5)));
    assert(spec_parse_term(d2) == Ok::<(ExprV, Seq<TokenV>), ParseErrorV>((ebc, d5)));
    assert(spec_expr_rest(d5, eabc) == Ok::<(ExprV, Seq<TokenV>), ParseErrorV>((eabc, d5)));
    assert(spec_expr_rest(d1, ea) == Ok::<(ExprV, Seq<TokenV>), ParseErrorV>((eabc, d5)));
    assert(spec_parse_expression(t) == Ok::<(ExprV, Seq<TokenV>), ParseErrorV>((eabc, d5)));
    assert(spec_parse_statement(t) == Ok::<(StmtV, Seq<TokenV>), ParseErrorV>(
        (StmtV::Expr(eabc), d5),
    ));
    let st = StmtV::Expr(eabc);
    assert(Seq::<StmtV>::empty().push(st) =~= seq![st]);
    assert(spec_parse_stmts(d5, seq![st]) == Ok::<Seq<StmtV>, ParseErrorV>(seq![st]));
}

/// Parentheses override precedence: a token stream `( a + b ) * c` parses as
/// `(a + b) * c`, the parenthesized sum becoming the left operand of the
/// product, whatever the literals' values and positions.
pub proof fn lemma_parentheses_override_precedence(t: Seq<TokenV>, a: i64, b: i64, c: i64)
    requires
        t.len() == 8,
        t[0].kind == TokenKindV::Delimiter(Delimiter::LParen),
        t[1].kind == TokenKindV::Literal(LiteralKindV::Int(a)),
        t[2].kind == TokenKindV::Operator(Operator::Plus),
        t[3].kind == TokenKindV::Literal(LiteralKindV::Int(b)),
        t[4].kind == TokenKindV::Delimiter(Delimiter::RParen),
        t[5].kind == TokenKindV::Operator(Operator::Star),
        t[6].kind == TokenKindV::Literal(LiteralKindV::Int(c)),
        t[7].kind is Eof,
    ensures
        spec_parse_program(t) == Ok::<Seq<StmtV>, ParseErrorV>(
            seq![
                StmtV::Expr(
                    ExprV::Binary {
                        op: BinOp::Mul,
                        left: Box::new(
                            ExprV::Binary {
                                op: BinOp::Add,
                                left: Box::new(ExprV::Int(a)),
                                right: Box::new(ExprV::Int(b)),
                            },
                        ),
                        right: Box::new(ExprV::Int(c)),
                    },
                )
            ],
        ),
{
    let d1 = t.drop_first();
    let d2 = d1.drop_first();
    let d3 = d2.drop_first();
    let d4 = d3.drop_first();
    let d5 = d4.drop_first();
    let d6 = d5.drop_first();
    let d7 = d6.drop_first();
    assert(d1.len() == 7 && d1[0] == t[1] && d1[1] == t[2] && d1[2] == t[3] && d1[3] == t[4]
        && d1[4] == t[5] && d1[5] == t[6] && d1[6] == t[7]);
    assert(d2.len() == 6 && d2[0] == t[2] && d2[1] == t[3] && d2[2] == t[4] && d2[3] == t[5]
        && d2[4] == t[6] && d2[5] == t[7]);
    assert(d3.len() == 5 && d3[0] == t[3] && d3[1] == t[4] && d3[2] == t[5] && d3[3] == t[6]
        && d3[4] == t[7]);
    assert(d4.len() == 4 && d4[0] == t[4] && d4[1] == t[5] && d4[2] == t[6] && d4[3] == t[7]);
    assert(d5.len() == 3 && d5[0] == t[5] && d5[1] == t[6] && d5[2] == t[7]);
    assert(d6.len() == 2 && d6[0] == t[6] && d6[1] == t[7]);
    assert(d7.len() == 1 && d7[0] == t[7]);
    let ea = ExprV::Int(a);
    let eb = ExprV::Int(b);
    let ec = ExprV::Int(c);
    let eab = ExprV::Binary { op: BinOp::Add, left: Box::new(ea), right: Box::new(eb) };
    let emul = ExprV::Binary { op: BinOp::Mul, left: Box::new(eab), right: Box::new(ec) };
    assert(spec_parse_factor(d1) == Ok::<(ExprV, Seq<TokenV>), ParseErrorV>((ea, d2)));
    assert(spec_term_rest(d2, ea) == Ok::<(ExprV, Seq<TokenV>), ParseErrorV>((ea, d2)));
    assert(spec_parse_term(d1) == Ok::<(ExprV, Seq<TokenV>), ParseErrorV>((ea, d2)));
    assert(spec_parse_factor(d3) == Ok::<(ExprV, Seq<TokenV>), ParseErrorV>((eb, d4)));
    assert(spec_term_rest(d4, eb) == Ok::<(ExprV, Seq<TokenV>), ParseErrorV>((eb, d4)));
    assert(spec_parse_term(d3) == Ok::<(ExprV, Seq<TokenV>), ParseErrorV>((eb, d4)));
    assert(spec_expr_rest(d4, eab) == Ok::<(ExprV, Seq<TokenV>), ParseErrorV>((eab, d4)));
    assert(spec_expr_rest(d2, ea) == Ok::<(ExprV, Seq<TokenV>), ParseErrorV>((eab, d4)));
    assert(spec_parse_expression(d1) == Ok::<(ExprV, Seq<TokenV>), ParseErrorV>((eab, d4)));
    assert(spec_parse_factor(t) == Ok::<(ExprV, Seq<TokenV>), ParseErrorV>((eab, d5)));
    assert(spec_parse_factor(d6) == Ok::<(ExprV, Seq<TokenV>), ParseErrorV>((ec, d7)));
    assert(spec_term_rest(d7, emul) == Ok::<(ExprV, Seq<TokenV>), ParseErrorV>((emul, d7)));
    assert(spec_term_rest(d5, eab) == Ok::<(ExprV, Seq<TokenV>), ParseErrorV>((emul, d7)));
    assert(spec_parse_term(t) == Ok::<(ExprV, Seq<TokenV>), ParseErrorV>((emul, d7)));
    assert(spec_expr_rest(d7, emul) == Ok::<(ExprV, Seq<TokenV>), ParseErrorV>((emul, d7)));
    assert(spec_parse_expression(t) == Ok::<(ExprV, Seq<TokenV>), ParseErrorV>((emul, d7)));
    assert(spec_parse_statement(t) == Ok::<(StmtV, Seq<TokenV>), ParseErrorV>(
        (StmtV::Expr(emul), d7),
    ));
    let st = StmtV::Expr(emul);
    assert(Seq::<StmtV>::empty().push(st) =~= seq![st]);
    assert(spec_parse_stmts(d7, seq![st]) == Ok::<Seq<StmtV>, ParseErrorV>(seq![st]));
}

} // verus!
