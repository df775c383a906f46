use toy_frontend::ast::{BinOp, Expr, Program, Stmt};
use toy_frontend::lexer::Lexer;
use toy_frontend::parser::{ParseError, ParseErrorKind, Parser};
use toy_frontend::tokens::{Delimiter, Keyword, LiteralKind, Operator, Span, TokenKind};

fn parse(src: &str) -> Result<Program, ParseError> {
    let mut parser = Parser::new(src);
    parser.parse_program()
}

fn token_kinds(src: &str) -> Vec<TokenKind> {
    let mut lexer = Lexer::new(src);
    let mut kinds = Vec::new();
    loop {
        let tok = lexer.next_token();
        let done = tok.kind == TokenKind::Eof;
        kinds.push(tok.kind);
        if done {
            return kinds;
        }
    }
}

fn lit(n: i64) -> Expr {
    Expr::Int(n)
}

fn bin(op: BinOp, left: Expr, right: Expr) -> Expr {
    Expr::Binary { op, left: Box::new(left), right: Box::new(right) }
}

#[test]
fn whitespace_only_yields_empty_program() {
    let program = parse("   \t\n  \r\n   ").unwrap();
    assert_eq!(program.statements.len(), 0);
}

#[test]
fn empty_input_yields_empty_program() {
    let program = parse("").unwrap();
    assert_eq!(program.statements.len(), 0);
}

#[test]
fn println_expression_token_kinds() {
    let kinds = token_kinds("println 1 + 2 * 3;");
    let expected = vec![
        TokenKind::Keyword(Keyword::Println),
        TokenKind::Literal(LiteralKind::Int(1)),
        TokenKind::Operator(Operator::Plus),
        TokenKind::Literal(LiteralKind::Int(2)),
        TokenKind::Operator(Operator::Star),
        TokenKind::Literal(LiteralKind::Int(3)),
        TokenKind::Delimiter(Delimiter::Semicolon),
        TokenKind::Eof,
    ];
    assert_eq!(kinds, expected);
}

#[test]
fn multiplication_binds_tighter_than_addition() {
    let program = parse("println 1 + 2 * 3;").unwrap();
    assert_eq!(program.statements.len(), 1);
    let expected = Stmt::Println(bin(BinOp::Add, lit(1), bin(BinOp::Mul, lit(2), lit(3))));
    assert_eq!(program.statements[0], expected);
}

#[test]
fn declaration_yields_name_and_initializer() {
    let program = parse("int x = 5;").unwrap();
    assert_eq!(program.statements.len(), 1);
    let expected = Stmt::Declaration(String::from("x"), lit(5));
    assert_eq!(program.statements[0], expected);
}

#[test]
fn parentheses_override_precedence() {
    let program = parse("(1 + 2) * 3").unwrap();
    assert_eq!(program.statements.len(), 1);
    let expected = Stmt::Expr(bin(BinOp::Mul, bin(BinOp::Add, lit(1), lit(2)), lit(3)));
    assert_eq!(program.statements[0], expected);
}

#[test]
fn declaration_missing_assign_fails() {
    let err = parse("int x 5;").unwrap_err();
    assert_eq!(err.kind, ParseErrorKind::ExpectedAssignAfterIdentifier);
    assert_eq!(err.found.kind, TokenKind::Literal(LiteralKind::Int(5)));
    assert_eq!(err.found.span, Span { line: 1, column: 6 });
}

#[test]
fn integer_literal_round_trip_is_exact() {
    for value in [0i64, 1, 7, 42, 1000000007, i64::MAX] {
        let text = format!("{}", value);
        let program = parse(&text).unwrap();
        assert_eq!(program.statements.len(), 1);
        assert_eq!(program.statements[0], Stmt::Expr(lit(value)));
    }
}

#[test]
fn integer_literal_overflow_falls_back_to_zero() {
    // One past i64::MAX: the scanner substitutes 0 rather than failing.
    let program = parse("9223372036854775808").unwrap();
    assert_eq!(program.statements[0], Stmt::Expr(lit(0)));
}

#[test]
fn repeated_parses_are_reproducible() {
    let a = parse("int x = 5; println x + 1;").unwrap();
    let b = parse("int x = 5; println x + 1;").unwrap();
    assert_eq!(a, b);
}

#[test]
fn subtraction_is_left_associative() {
    let program = parse("10 - 3 - 2").unwrap();
    let expected = Stmt::Expr(bin(BinOp::Sub, bin(BinOp::Sub, lit(10), lit(3)), lit(2)));
    assert_eq!(program.statements[0], expected);
}

#[test]
fn division_is_left_associative() {
    let program = parse("8 / 4 / 2").unwrap();
    let expected = Stmt::Expr(bin(BinOp::Div, bin(BinOp::Div, lit(8), lit(4)), lit(2)));
    assert_eq!(program.statements[0], expected);
}

#[test]
fn string_literal_is_variable_reference_in_factor_position() {
    let program = parse("println \"x\";").unwrap();
    let expected = Stmt::Println(Expr::Var(String::from("x")));
    assert_eq!(program.statements[0], expected);
}

#[test]
fn unterminated_string_ends_at_input_end() {
    let kinds = token_kinds("\"abc");
    let expected = vec![
        TokenKind::Literal(LiteralKind::Str(String::from("abc"))),
        TokenKind::Eof,
    ];
    assert_eq!(kinds, expected);
}

#[test]
fn string_quotes_are_consumed_and_excluded() {
    let kinds = token_kinds("\"hi\" \"\"");
    let expected = vec![
        TokenKind::Literal(LiteralKind::Str(String::from("hi"))),
        TokenKind::Literal(LiteralKind::Str(String::from(""))),
        TokenKind::Eof,
    ];
    assert_eq!(kinds, expected);
}

#[test]
fn unrecognized_character_lexes_to_not_found() {
    let kinds = token_kinds("@");
    assert_eq!(kinds, vec![TokenKind::NotFound, TokenKind::Eof]);
}

#[test]
fn not_found_token_fails_in_factor_position() {
    let err = parse("@").unwrap_err();
    assert_eq!(err.kind, ParseErrorKind::UnexpectedTokenInFactor);
    assert_eq!(err.found.kind, TokenKind::NotFound);
}

#[test]
fn reserved_keyword_fails_in_factor_position() {
    let err = parse("while").unwrap_err();
    assert_eq!(err.kind, ParseErrorKind::UnexpectedTokenInFactor);
    assert_eq!(err.found.kind, TokenKind::Keyword(Keyword::While));
}

#[test]
fn missing_right_paren_fails() {
    let err = parse("(1 + 2").unwrap_err();
    assert_eq!(err.kind, ParseErrorKind::ExpectedRParen);
    assert_eq!(err.found.kind, TokenKind::Eof);
}

#[test]
fn println_missing_semicolon_fails() {
    let err = parse("println 1").unwrap_err();
    assert_eq!(err.kind, ParseErrorKind::ExpectedSemicolonAfterPrintln);
    assert_eq!(err.found.kind, TokenKind::Eof);
}

#[test]
fn declaration_missing_identifier_fails() {
    let err = parse("int 5;").unwrap_err();
    assert_eq!(err.kind, ParseErrorKind::ExpectedIdentifierAfterInt);
    assert_eq!(err.found.kind, TokenKind::Literal(LiteralKind::Int(5)));
}

#[test]
fn declaration_missing_semicolon_fails() {
    let err = parse("int x = 5").unwrap_err();
    assert_eq!(err.kind, ParseErrorKind::ExpectedSemicolonAfterDeclaration);
    assert_eq!(err.found.kind, TokenKind::Eof);
}

#[test]
fn end_of_input_is_idempotent() {
    let mut lexer = Lexer::new("1");
    assert_eq!(lexer.next_token().kind, TokenKind::Literal(LiteralKind::Int(1)));
    assert_eq!(lexer.next_token().kind, TokenKind::Eof);
    assert_eq!(lexer.next_token().kind, TokenKind::Eof);
    assert_eq!(lexer.next_token().kind, TokenKind::Eof);
}

#[test]
fn equals_signs_are_never_combined() {
    let kinds = token_kinds("==");
    let expected = vec![
        TokenKind::Operator(Operator::Assign),
        TokenKind::Operator(Operator::Assign),
        TokenKind::Eof,
    ];
    assert_eq!(kinds, expected);
}

#[test]
fn comparison_and_brace_tokens_are_recognized() {
    let kinds = token_kinds("< > { } ,");
    let expected = vec![
        TokenKind::Operator(Operator::Lt),
        TokenKind::Operator(Operator::Gt),
        TokenKind::Delimiter(Delimiter::LBrace),
        TokenKind::Delimiter(Delimiter::RBrace),
        TokenKind::Delimiter(Delimiter::Comma),
        TokenKind::Eof,
    ];
    assert_eq!(kinds, expected);
}

#[test]
fn identifiers_take_underscores_and_digits() {
    let kinds = token_kinds("_a1 b_2");
    let expected = vec![
        TokenKind::Identifier(String::from("_a1")),
        TokenKind::Identifier(String::from("b_2")),
        TokenKind::Eof,
    ];
    assert_eq!(kinds, expected);
}

#[test]
fn keyword_match_is_exact() {
    let kinds = token_kinds("integer iff int");
    let expected = vec![
        TokenKind::Identifier(String::from("integer")),
        TokenKind::Identifier(String::from("iff")),
        TokenKind::Keyword(Keyword::Int),
        TokenKind::Eof,
    ];
    assert_eq!(kinds, expected);
}

#[test]
fn spans_track_lines_and_columns() {
    let mut lexer = Lexer::new("a\n b");
    let first = lexer.next_token();
    assert_eq!(first.kind, TokenKind::Identifier(String::from("a")));
    assert_eq!(first.span, Span { line: 1, column: 0 });
    let second = lexer.next_token();
    assert_eq!(second.kind, TokenKind::Identifier(String::from("b")));
    assert_eq!(second.span, Span { line: 2, column: 2 });
}

#[test]
fn multi_statement_program_keeps_order() {
    let program = parse("int x = 1; println x + 2; x * 3").unwrap();
    assert_eq!(program.statements.len(), 3);
    assert_eq!(program.statements[0], Stmt::Declaration(String::from("x"), lit(1)));
    assert_eq!(
        program.statements[1],
        Stmt::Println(bin(BinOp::Add, Expr::Var(String::from("x")), lit(2)))
    );
    assert_eq!(
        program.statements[2],
        Stmt::Expr(bin(BinOp::Mul, Expr::Var(String::from("x")), lit(3)))
    );
}

#[test]
fn nested_parentheses_parse() {
    let program = parse("((4))").unwrap();
    assert_eq!(program.statements[0], Stmt::Expr(lit(4)));
}

#[test]
fn declaration_initializer_uses_full_expression_grammar() {
    let program = parse("int y = (1 + 2) * x;").unwrap();
    let expected = Stmt::Declaration(
        String::from("y"),
        bin(BinOp::Mul, bin(BinOp::Add, lit(1), lit(2)), Expr::Var(String::from("x"))),
    );
    assert_eq!(program.statements[0], expected);
}

#[test]
fn failure_returns_no_partial_program() {
    // The first statement is fine; the second is malformed, and the whole
    // parse fails with the second statement's error.
    let err = parse("println 1; int x 5;").unwrap_err();
    assert_eq!(err.kind, ParseErrorKind::ExpectedAssignAfterIdentifier);
}

#[test]
fn leading_zeros_parse_as_value() {
    let program = parse("007").unwrap();
    assert_eq!(program.statements[0], Stmt::Expr(lit(7)));
}
