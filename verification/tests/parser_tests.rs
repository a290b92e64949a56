use envyc::error::{Error, Span};
use envyc::interner::Interner;
use envyc::lexer::token::{Token, TokenKind};
use envyc::lexer::Lexer;
use envyc::parser::expression::{
    Binary, BinaryOperation, Expression, ExpressionKind, Identifier, If, Let, Unary,
    UnaryOperation,
};
use envyc::parser::parselets::binary_parselet::{Associativity, BinaryParselet};
use envyc::parser::parselets::float_parselet::FloatParselet;
use envyc::parser::parselets::if_parselet::IfParselet;
use envyc::parser::parselets::prefix_parselet::PrefixParselet;
use envyc::parser::Parser;
use envyc::semantic_analyzer::types::Type;

fn tokens_of(source: &str) -> Vec<Token> {
    let mut interner = Interner::default();
    let (tokens, errors) = Lexer::new(0, source.as_bytes()).get_tokens(&mut interner);
    assert!(errors.is_empty());
    tokens.into_iter().filter(|token| !matches!(token.1, TokenKind::Whitespace(_))).collect()
}

fn parse(source: &str) -> Result<Expression, Error> {
    let tokens = tokens_of(source);
    let mut parser = Parser::new(tokens);
    parser.parse_expression(0, Span { file: 0, start: 0, end: 0 })
}

fn span(start: usize, end: usize) -> Span {
    Span { file: 0, start, end }
}

fn int_at(value: i64, start: usize) -> Expression {
    Expression::new(ExpressionKind::Int(value), span(start, start + 1))
}

fn name_at(id: usize, start: usize) -> Expression {
    Expression::new(ExpressionKind::Identifier(Identifier(id)), span(start, start + 1))
}

fn binary(operation: BinaryOperation, left: Expression, right: Expression, at: usize) -> Expression {
    Expression::new(
        ExpressionKind::Binary(Binary { operation, left: Box::new(left), right: Box::new(right) }),
        span(at, at + 1),
    )
}

#[test]
fn multiplication_binds_tighter_than_addition() {
    let expected = binary(
        BinaryOperation::Plus,
        int_at(1, 0),
        binary(BinaryOperation::Multiply, int_at(2, 4), int_at(3, 8), 6),
        2,
    );
    assert_eq!(parse("1 + 2 * 3"), Ok(expected));
}

#[test]
fn multiplication_on_the_left_is_grouped_first() {
    let expected = binary(
        BinaryOperation::Plus,
        binary(BinaryOperation::Multiply, int_at(1, 0), int_at(2, 4), 2),
        int_at(3, 8),
        6,
    );
    assert_eq!(parse("1 * 2 + 3"), Ok(expected));
}

#[test]
fn subtraction_groups_to_the_left() {
    let expected = binary(
        BinaryOperation::Minus,
        binary(BinaryOperation::Minus, int_at(1, 0), int_at(2, 4), 2),
        int_at(3, 8),
        6,
    );
    assert_eq!(parse("1 - 2 - 3"), Ok(expected));
}

#[test]
fn division_groups_to_the_left() {
    let expected = binary(
        BinaryOperation::Divide,
        binary(BinaryOperation::Divide, int_at(8, 0), int_at(4, 4), 2),
        int_at(2, 8),
        6,
    );
    assert_eq!(parse("8 / 4 / 2"), Ok(expected));
}

#[test]
fn parentheses_group_and_leave_no_node() {
    let expected = binary(
        BinaryOperation::Multiply,
        binary(BinaryOperation::Plus, int_at(1, 1), int_at(2, 5), 3),
        int_at(3, 10),
        8,
    );
    assert_eq!(parse("(1 + 2) * 3"), Ok(expected));
    assert_eq!(parse("((7))"), Ok(int_at(7, 2)));
}

#[test]
fn a_missing_closing_parenthesis_is_an_error() {
    assert_eq!(parse("(1 + 2"), Err(Error::UnexpectedEndOfInput(span(3, 4))));
    assert_eq!(
        parse("(1 2"),
        Err(Error::ExpectedKind {
            span: span(3, 4),
            expected: TokenKind::RightParenthesis,
            actual: TokenKind::IntegerLiteral(2),
        })
    );
}

#[test]
fn literals_become_leaves() {
    assert_eq!(parse("12"), Ok(Expression::new(ExpressionKind::Int(12), span(0, 2))));
    assert_eq!(parse("true"), Ok(Expression::new(ExpressionKind::Boolean(true), span(0, 4))));
    assert_eq!(parse("false"), Ok(Expression::new(ExpressionKind::Boolean(false), span(0, 5))));
    assert_eq!(parse("1.5"), Ok(Expression::new(ExpressionKind::Float(0), span(0, 3))));
    assert_eq!(parse("\"s\""), Ok(Expression::new(ExpressionKind::String(0), span(0, 3))));
    assert_eq!(parse("x"), Ok(name_at(0, 0)));
}

#[test]
fn float_parselet_reads_the_literal() {
    let mut parser = Parser::new(Vec::new());
    let token = (span(4, 7), TokenKind::FloatLiteral(2));
    assert_eq!(
        FloatParselet.parse(&mut parser, token),
        Ok(Expression::new(ExpressionKind::Float(2), span(4, 7)))
    );
}

#[test]
fn a_prefix_operator_binds_tighter_than_an_infix_one() {
    let negated = Expression::new(
        ExpressionKind::Unary(Unary { operation: UnaryOperation::Minus, expression: Box::new(int_at(1, 1)) }),
        span(0, 1),
    );
    assert_eq!(parse("-1 * 2"), Ok(binary(BinaryOperation::Multiply, negated, int_at(2, 5), 3)));
}

#[test]
fn prefix_operators_nest() {
    let inner = Expression::new(
        ExpressionKind::Unary(Unary {
            operation: UnaryOperation::Not,
            expression: Box::new(Expression::new(ExpressionKind::Boolean(true), span(8, 12))),
        }),
        span(4, 7),
    );
    let outer = Expression::new(
        ExpressionKind::Unary(Unary { operation: UnaryOperation::Not, expression: Box::new(inner) }),
        span(0, 3),
    );
    assert_eq!(parse("not not true"), Ok(outer));
    let plus = Expression::new(
        ExpressionKind::Unary(Unary { operation: UnaryOperation::Plus, expression: Box::new(int_at(5, 1)) }),
        span(0, 1),
    );
    assert_eq!(parse("+5"), Ok(plus));
}

#[test]
fn if_with_else_has_both_branches() {
    let expected = Expression::new(
        ExpressionKind::If(If {
            condition: Box::new(Expression::new(ExpressionKind::Boolean(true), span(3, 7))),
            then_branch: Box::new(int_at(1, 13)),
            else_branch: Some(Box::new(int_at(2, 20))),
        }),
        span(0, 2),
    );
    assert_eq!(parse("if true then 1 else 2"), Ok(expected));
}

#[test]
fn if_without_else_has_one_branch() {
    let expected = Expression::new(
        ExpressionKind::If(If {
            condition: Box::new(name_at(0, 3)),
            then_branch: Box::new(binary(BinaryOperation::Plus, int_at(1, 10), int_at(2, 14), 12)),
            else_branch: None,
        }),
        span(0, 2),
    );
    assert_eq!(parse("if x then 1 + 2"), Ok(expected));
}

#[test]
fn else_belongs_to_the_nearest_if() {
    let inner = Expression::new(
        ExpressionKind::If(If {
            condition: Box::new(name_at(1, 13)),
            then_branch: Box::new(int_at(1, 20)),
            else_branch: Some(Box::new(int_at(2, 27))),
        }),
        span(10, 12),
    );
    let outer = Expression::new(
        ExpressionKind::If(If {
            condition: Box::new(name_at(0, 3)),
            then_branch: Box::new(inner),
            else_branch: None,
        }),
        span(0, 2),
    );
    assert_eq!(parse("if a then if b then 1 else 2"), Ok(outer));
}

#[test]
fn if_without_then_is_one_error() {
    assert_eq!(
        parse("if true 1"),
        Err(Error::ExpectedKind {
            span: span(8, 9),
            expected: TokenKind::Then,
            actual: TokenKind::IntegerLiteral(1),
        })
    );
    assert_eq!(parse("if true"), Err(Error::UnexpectedEndOfInput(span(3, 7))));
    assert_eq!(parse("if"), Err(Error::UnexpectedEndOfInput(span(0, 2))));
    assert_eq!(parse("if true then"), Err(Error::UnexpectedEndOfInput(span(8, 12))));
    assert_eq!(parse("if true then 1 else"), Err(Error::UnexpectedEndOfInput(span(15, 19))));
}

#[test]
fn if_parselet_parses_what_follows_the_if() {
    let tokens = tokens_of("if true then 1");
    let token = tokens[0];
    let mut parser = Parser::new(tokens);
    assert!(parser.consume(token.0).is_ok());
    let parsed = IfParselet.parse(&mut parser, token);
    let expected = Expression::new(
        ExpressionKind::If(If {
            condition: Box::new(Expression::new(ExpressionKind::Boolean(true), span(3, 7))),
            then_branch: Box::new(int_at(1, 13)),
            else_branch: None,
        }),
        span(0, 2),
    );
    assert_eq!(parsed, Ok(expected));
    assert_eq!(parser.peek(), None);
}

#[test]
fn let_with_a_declared_type() {
    let expected = Expression::new(
        ExpressionKind::Let(Let {
            name: (span(4, 5), Identifier(0)),
            given_type: Some(Type::Float),
            expression: Box::new(int_at(1, 15)),
        }),
        span(0, 3),
    );
    assert_eq!(parse("let x: Float = 1"), Ok(expected));
}

#[test]
fn let_without_a_declared_type() {
    let expected = Expression::new(
        ExpressionKind::Let(Let {
            name: (span(4, 5), Identifier(0)),
            given_type: None,
            expression: Box::new(binary(BinaryOperation::Plus, int_at(1, 8), name_at(1, 12), 10)),
        }),
        span(0, 3),
    );
    assert_eq!(parse("let x = 1 + y"), Ok(expected));
}

#[test]
fn every_type_keyword_names_its_type() {
    for (word, ty) in [
        ("Void", Type::Void),
        ("Int", Type::Int),
        ("Float", Type::Float),
        ("Boolean", Type::Boolean),
        ("String", Type::String),
    ] {
        let parsed = parse(&format!("let x: {} = 1", word)).unwrap();
        match parsed.kind {
            ExpressionKind::Let(inner) => assert_eq!(inner.given_type, Some(ty)),
            _ => panic!("not a let"),
        }
    }
}

#[test]
fn a_malformed_let_is_an_error() {
    assert_eq!(
        parse("let 1 = 2"),
        Err(Error::ExpectedKind {
            span: span(4, 5),
            expected: TokenKind::Identifier(0),
            actual: TokenKind::IntegerLiteral(1),
        })
    );
    assert_eq!(parse("let x: y = 2"), Err(Error::UnexpectedToken(span(7, 8))));
    assert_eq!(
        parse("let x 2"),
        Err(Error::ExpectedKind {
            span: span(6, 7),
            expected: TokenKind::EqualSign,
            actual: TokenKind::IntegerLiteral(2),
        })
    );
    assert_eq!(parse("let x ="), Err(Error::UnexpectedEndOfInput(span(6, 7))));
    assert_eq!(parse("let x:"), Err(Error::UnexpectedEndOfInput(span(5, 6))));
    assert_eq!(parse("let"), Err(Error::UnexpectedEndOfInput(span(0, 3))));
}

#[test]
fn a_token_that_starts_no_expression_is_an_error() {
    assert_eq!(parse("* 2"), Err(Error::UnexpectedToken(span(0, 1))));
    assert_eq!(parse("1 + )"), Err(Error::UnexpectedToken(span(4, 5))));
    assert_eq!(parse("then"), Err(Error::UnexpectedToken(span(0, 4))));
}

#[test]
fn empty_input_is_an_error_at_the_given_place() {
    let mut parser = Parser::new(Vec::new());
    assert_eq!(parser.parse_expression(0, span(3, 9)), Err(Error::UnexpectedEndOfInput(span(3, 9))));
}

#[test]
fn parsing_stops_before_a_token_that_does_not_extend_the_expression() {
    let tokens = tokens_of("1 + 2 then 3");
    let mut parser = Parser::new(tokens);
    let parsed = parser.parse_expression(0, span(0, 0));
    assert_eq!(parsed, Ok(binary(BinaryOperation::Plus, int_at(1, 0), int_at(2, 4), 2)));
    assert_eq!(parser.peek(), Some((span(6, 10), TokenKind::Then)));
}

#[test]
fn a_higher_minimum_precedence_leaves_weaker_operators() {
    let tokens = tokens_of("1 * 2 + 3");
    let mut parser = Parser::new(tokens);
    let parsed = parser.parse_expression(1, span(0, 0));
    assert_eq!(parsed, Ok(binary(BinaryOperation::Multiply, int_at(1, 0), int_at(2, 4), 2)));
    assert_eq!(parser.peek(), Some((span(6, 7), TokenKind::Plus)));
}

#[test]
fn program_keeps_going_after_an_error() {
    let tokens = tokens_of("1 + 2 if true 3 4 * 5");
    let mut parser = Parser::new(tokens);
    let (expressions, errors) = parser.parse_program();
    assert_eq!(
        expressions,
        vec![
            binary(BinaryOperation::Plus, int_at(1, 0), int_at(2, 4), 2),
            binary(BinaryOperation::Multiply, int_at(4, 16), int_at(5, 20), 18),
        ]
    );
    assert_eq!(
        errors,
        vec![Error::ExpectedKind {
            span: span(14, 15),
            expected: TokenKind::Then,
            actual: TokenKind::IntegerLiteral(3),
        }]
    );
    assert_eq!(parser.peek(), None);
}

#[test]
fn program_of_nothing_is_empty() {
    let mut parser = Parser::new(Vec::new());
    let (expressions, errors) = parser.parse_program();
    assert!(expressions.is_empty());
    assert!(errors.is_empty());
}

#[test]
fn program_reports_every_token_that_starts_nothing() {
    let tokens = tokens_of(") then 7");
    let mut parser = Parser::new(tokens);
    let (expressions, errors) = parser.parse_program();
    assert_eq!(expressions, vec![int_at(7, 7)]);
    assert_eq!(errors, vec![Error::UnexpectedToken(span(0, 1)), Error::UnexpectedToken(span(2, 6))]);
}

#[test]
fn a_registered_operator_extends_the_grammar() {
    let tokens = tokens_of("1 % 2 % 3 + 4");
    let mut parser = Parser::new(tokens);
    parser.register_infix(
        TokenKind::PercentSign,
        BinaryParselet {
            operation: BinaryOperation::Divide,
            precedence: 2,
            associativity: Associativity::Right,
        },
    );
    let parsed = parser.parse_expression(0, span(0, 0));
    let expected = binary(
        BinaryOperation::Plus,
        binary(
            BinaryOperation::Divide,
            int_at(1, 0),
            binary(BinaryOperation::Divide, int_at(2, 4), int_at(3, 8), 6),
            2,
        ),
        int_at(4, 12),
        10,
    );
    assert_eq!(parsed, Ok(expected));
}

#[test]
fn a_registered_prefix_parselet_replaces_the_old_one() {
    let tokens = tokens_of("{ 1");
    let mut parser = Parser::new(tokens);
    assert_eq!(parser.parse_expression(0, span(0, 0)), Err(Error::UnexpectedToken(span(0, 1))));
    let tokens = tokens_of("{ 1");
    let mut parser = Parser::new(tokens);
    parser.register_prefix(TokenKind::LeftCurlyBrace, PrefixParselet::Unary(UnaryOperation::Minus));
    let expected = Expression::new(
        ExpressionKind::Unary(Unary { operation: UnaryOperation::Minus, expression: Box::new(int_at(1, 2)) }),
        span(0, 1),
    );
    assert_eq!(parser.parse_expression(0, span(0, 0)), Ok(expected));
}

#[test]
fn expect_takes_the_token_whatever_it_carries() {
    let tokens = tokens_of("abc 5");
    let mut parser = Parser::new(tokens);
    assert_eq!(
        parser.expect(TokenKind::Identifier(99), span(0, 0)),
        Ok((span(0, 3), TokenKind::Identifier(0)))
    );
    assert_eq!(
        parser.expect(TokenKind::Then, span(0, 3)),
        Err(Error::ExpectedKind {
            span: span(4, 5),
            expected: TokenKind::Then,
            actual: TokenKind::IntegerLiteral(5),
        })
    );
    assert_eq!(parser.expect(TokenKind::Then, span(4, 5)), Err(Error::UnexpectedEndOfInput(span(4, 5))));
    assert_eq!(parser.consume(span(1, 2)), Err(Error::UnexpectedEndOfInput(span(1, 2))));
}
