use envyc::environment::Environment;
use envyc::error::{Error, Span};
use envyc::interner::Interner;
use envyc::lexer::token::TokenKind;
use envyc::lexer::Lexer;
use envyc::parser::ast::{Function, Parameter, Program, Prototype};
use envyc::parser::expression::{Expression, ExpressionKind, Identifier, Unary, UnaryOperation};
use envyc::parser::typed_ast::TypedParameter;
use envyc::parser::typed_expression::{
    TypedBinary, TypedExpression, TypedExpressionKind, TypedIdentifier, TypedIf, TypedLet,
    TypedUnary,
};
use envyc::parser::expression::BinaryOperation;
use envyc::parser::Parser;
use envyc::semantic_analyzer::type_check::{get_type, TypeCheck, TypeCheckSpan};
use envyc::semantic_analyzer::types::Type;

fn parse(source: &str) -> Expression {
    let mut interner = Interner::default();
    let (tokens, errors) = Lexer::new(0, source.as_bytes()).get_tokens(&mut interner);
    assert!(errors.is_empty());
    let tokens = tokens.into_iter().filter(|token| !matches!(token.1, TokenKind::Whitespace(_))).collect();
    let mut parser = Parser::new(tokens);
    parser.parse_expression(0, Span { file: 0, start: 0, end: 0 }).unwrap()
}

fn check(source: &str) -> Result<TypedExpression, Error> {
    let mut env = Environment::new();
    env.new_scope();
    parse(source).check(&mut env)
}

fn type_of(source: &str) -> Result<Type, Error> {
    check(source).map(|typed| get_type(&typed.kind))
}

fn span(start: usize, end: usize) -> Span {
    Span { file: 0, start, end }
}

fn typed_int_at(value: i64, start: usize) -> TypedExpression {
    TypedExpression::new(TypedExpressionKind::Int(value), span(start, start + 1))
}

fn function(name: usize, parameters: Vec<Parameter>, body: Expression) -> Function {
    Function { prototype: Prototype { span: span(0, 0), name, parameters }, body }
}

#[test]
fn int_plus_float_is_unsupported() {
    assert_eq!(
        check("1 + 1.0"),
        Err(Error::UnsupportedOperation {
            operation_span: span(2, 3),
            operands: vec![(span(0, 1), Type::Int), (span(4, 7), Type::Float)],
        })
    );
}

#[test]
fn int_plus_int_is_int() {
    let expected = TypedExpression::new(
        TypedExpressionKind::Binary(TypedBinary {
            operation: BinaryOperation::Plus,
            left: Box::new(typed_int_at(1, 0)),
            right: Box::new(typed_int_at(1, 4)),
            ty: Type::Int,
        }),
        span(2, 3),
    );
    assert_eq!(check("1 + 1"), Ok(expected));
    assert_eq!(type_of("1 + 1"), Ok(Type::Int));
}

#[test]
fn arithmetic_keeps_the_type_of_its_operands() {
    assert_eq!(type_of("1 - 2"), Ok(Type::Int));
    assert_eq!(type_of("1 * 2"), Ok(Type::Int));
    assert_eq!(type_of("1 / 2"), Ok(Type::Int));
    assert_eq!(type_of("1.5 + 2.5"), Ok(Type::Float));
    assert_eq!(type_of("1.5 - 2.5"), Ok(Type::Float));
    assert_eq!(type_of("1.5 * 2.5"), Ok(Type::Float));
    assert_eq!(type_of("1.5 / 2.5"), Ok(Type::Float));
}

#[test]
fn arithmetic_on_other_types_is_unsupported() {
    assert_eq!(
        check("true + false"),
        Err(Error::UnsupportedOperation {
            operation_span: span(5, 6),
            operands: vec![(span(0, 4), Type::Boolean), (span(7, 12), Type::Boolean)],
        })
    );
    assert_eq!(
        check("\"a\" + \"b\""),
        Err(Error::UnsupportedOperation {
            operation_span: span(4, 5),
            operands: vec![(span(0, 3), Type::String), (span(6, 9), Type::String)],
        })
    );
    assert_eq!(
        check("2.0 * 1"),
        Err(Error::UnsupportedOperation {
            operation_span: span(4, 5),
            operands: vec![(span(0, 3), Type::Float), (span(6, 7), Type::Int)],
        })
    );
}

#[test]
fn literals_have_their_types() {
    assert_eq!(type_of("1"), Ok(Type::Int));
    assert_eq!(type_of("1.0"), Ok(Type::Float));
    assert_eq!(type_of("true"), Ok(Type::Boolean));
    assert_eq!(type_of("\"text\""), Ok(Type::String));
    let mut env = Environment::new();
    let letter = Expression::new(ExpressionKind::Char('c'), span(0, 1));
    assert_eq!(
        letter.check(&mut env),
        Ok(TypedExpression::new(TypedExpressionKind::Char('c'), span(0, 1)))
    );
    assert_eq!(get_type(&TypedExpressionKind::Char('c')), Type::Char);
}

#[test]
fn unary_operators_follow_their_table() {
    assert_eq!(type_of("-1"), Ok(Type::Int));
    assert_eq!(type_of("+1"), Ok(Type::Int));
    assert_eq!(type_of("-1.5"), Ok(Type::Float));
    assert_eq!(type_of("+1.5"), Ok(Type::Float));
    assert_eq!(type_of("not true"), Ok(Type::Boolean));
    assert_eq!(
        check("not 1"),
        Err(Error::UnsupportedOperation {
            operation_span: span(0, 3),
            operands: vec![(span(4, 5), Type::Int)],
        })
    );
    assert_eq!(
        check("-true"),
        Err(Error::UnsupportedOperation {
            operation_span: span(0, 1),
            operands: vec![(span(1, 5), Type::Boolean)],
        })
    );
    assert_eq!(
        check("+\"s\""),
        Err(Error::UnsupportedOperation {
            operation_span: span(0, 1),
            operands: vec![(span(1, 4), Type::String)],
        })
    );
}

#[test]
fn unary_keeps_the_checked_operand() {
    let expected = TypedExpression::new(
        TypedExpressionKind::Unary(TypedUnary {
            operation: UnaryOperation::Minus,
            expression: Box::new(typed_int_at(4, 1)),
            ty: Type::Int,
        }),
        span(0, 1),
    );
    assert_eq!(check("-4"), Ok(expected));
}

#[test]
fn if_with_equal_branches_has_their_type() {
    let expected = TypedExpression::new(
        TypedExpressionKind::If(TypedIf {
            condition: Box::new(TypedExpression::new(TypedExpressionKind::Boolean(true), span(3, 7))),
            then_branch: Box::new(typed_int_at(1, 13)),
            else_branch: Some(Box::new(typed_int_at(2, 20))),
            ty: Type::Int,
        }),
        span(0, 2),
    );
    assert_eq!(check("if true then 1 else 2"), Ok(expected));
}

#[test]
fn if_with_different_branches_is_a_conflict() {
    assert_eq!(
        check("if true then 1 else false"),
        Err(Error::ConflictingType {
            first_span: span(13, 14),
            first_type: Type::Int,
            second_span: span(20, 25),
            second_type: Type::Boolean,
        })
    );
}

#[test]
fn if_with_a_condition_that_is_no_boolean_is_a_mismatch() {
    assert_eq!(
        check("if 1 then 1 else 2"),
        Err(Error::TypeMismatch {
            span: span(3, 4),
            expected_type: Type::Boolean,
            actual_type: Type::Int,
        })
    );
}

#[test]
fn if_without_else_is_void() {
    assert_eq!(type_of("if true then 1"), Ok(Type::Void));
    assert_eq!(type_of("if not false then 1.5"), Ok(Type::Void));
}

#[test]
fn the_condition_is_judged_before_the_branches() {
    assert_eq!(
        check("if 1 then 1 + true else y"),
        Err(Error::TypeMismatch {
            span: span(3, 4),
            expected_type: Type::Boolean,
            actual_type: Type::Int,
        })
    );
}

#[test]
fn let_with_a_declared_type_that_differs_is_a_conflict() {
    assert_eq!(
        check("let x: Float = 1"),
        Err(Error::ConflictingType {
            first_span: span(4, 5),
            first_type: Type::Float,
            second_span: span(15, 16),
            second_type: Type::Int,
        })
    );
}

#[test]
fn let_has_the_type_of_its_initializer_and_binds_the_name() {
    let mut env = Environment::new();
    env.new_scope();
    let checked = parse("let x: Int = 1").check(&mut env);
    let expected = TypedExpression::new(
        TypedExpressionKind::Let(TypedLet {
            name: (span(4, 5), TypedIdentifier { id: 0, ty: Type::Int }),
            given_type: Some(Type::Int),
            expression: Box::new(typed_int_at(1, 13)),
            ty: Type::Int,
        }),
        span(0, 3),
    );
    assert_eq!(checked, Ok(expected));
    assert_eq!(env.get(0), Some(Type::Int));
}

#[test]
fn let_without_a_declared_type_infers_it() {
    let mut env = Environment::new();
    env.new_scope();
    let checked = parse("let x = 1.5").check(&mut env).unwrap();
    assert_eq!(get_type(&checked.kind), Type::Float);
    assert_eq!(env.get(0), Some(Type::Float));
}

#[test]
fn a_failed_let_binds_nothing() {
    let mut env = Environment::new();
    env.new_scope();
    assert!(parse("let x: Float = 1").check(&mut env).is_err());
    assert_eq!(env.get(0), None);
}

#[test]
fn a_name_resolves_to_its_binding() {
    let mut env = Environment::new();
    env.new_scope();
    env.define(0, Type::Float);
    let checked = parse("x").check(&mut env);
    assert_eq!(
        checked,
        Ok(TypedExpression::new(
            TypedExpressionKind::Identifier(TypedIdentifier { id: 0, ty: Type::Float }),
            span(0, 1),
        ))
    );
}

#[test]
fn an_unbound_name_is_undefined() {
    assert_eq!(check("x"), Err(Error::UndefinedVariable(span(0, 1))));
    assert_eq!(check("1 + x"), Err(Error::UndefinedVariable(span(4, 5))));
    let mut env = Environment::new();
    assert_eq!(
        Identifier(4).check_span(span(2, 3), &mut env),
        Err(Error::UndefinedVariable(span(2, 3)))
    );
}

#[test]
fn the_first_failure_inside_an_expression_is_reported() {
    assert_eq!(check("a + b"), Err(Error::UndefinedVariable(span(0, 1))));
    assert_eq!(
        check("(1 + true) * y"),
        Err(Error::UnsupportedOperation {
            operation_span: span(3, 4),
            operands: vec![(span(1, 2), Type::Int), (span(5, 9), Type::Boolean)],
        })
    );
}

#[test]
fn a_block_has_the_type_of_its_last_expression() {
    let block = Expression::new(
        ExpressionKind::Block(vec![parse("let x = 1"), parse("true"), parse("2.5")]),
        span(0, 1),
    );
    let mut env = Environment::new();
    env.new_scope();
    let checked = block.check(&mut env).unwrap();
    assert_eq!(get_type(&checked.kind), Type::Float);
    match checked.kind {
        TypedExpressionKind::Block(expressions) => assert_eq!(expressions.len(), 3),
        _ => panic!("not a block"),
    }
}

#[test]
fn an_empty_block_is_void() {
    let block = Expression::new(ExpressionKind::Block(Vec::new()), span(0, 2));
    let mut env = Environment::new();
    let checked = block.check(&mut env);
    assert_eq!(checked, Ok(TypedExpression::new(TypedExpressionKind::Block(Vec::new()), span(0, 2))));
    assert_eq!(get_type(&TypedExpressionKind::Block(Vec::new())), Type::Void);
}

#[test]
fn a_block_sees_what_its_earlier_expressions_bound() {
    let mut interner = Interner::default();
    let (tokens, _) = Lexer::new(0, b"let x = 1 x + 2").get_tokens(&mut interner);
    let tokens = tokens.into_iter().filter(|token| !matches!(token.1, TokenKind::Whitespace(_))).collect();
    let mut parser = Parser::new(tokens);
    let (expressions, errors) = parser.parse_program();
    assert!(errors.is_empty());
    let block = Expression::new(ExpressionKind::Block(expressions), span(0, 0));
    let mut env = Environment::new();
    env.new_scope();
    let checked = block.check(&mut env).unwrap();
    assert_eq!(get_type(&checked.kind), Type::Int);
}

#[test]
fn a_block_stops_at_its_first_failure() {
    let block = Expression::new(
        ExpressionKind::Block(vec![parse("1"), parse("not 1"), parse("let x = 1"), parse("y")]),
        span(0, 1),
    );
    let mut env = Environment::new();
    env.new_scope();
    assert_eq!(
        block.check(&mut env),
        Err(Error::UnsupportedOperation {
            operation_span: span(0, 3),
            operands: vec![(span(4, 5), Type::Int)],
        })
    );
    assert_eq!(env.get(0), None);
}

#[test]
fn check_span_checks_a_part_at_a_given_place() {
    let mut env = Environment::new();
    let operand = Expression::new(ExpressionKind::Int(3), span(5, 6));
    let unary = Unary { operation: UnaryOperation::Minus, expression: Box::new(operand) };
    let checked = unary.check_span(span(4, 5), &mut env).unwrap();
    assert_eq!(checked.span, span(4, 5));
    assert_eq!(get_type(&checked.kind), Type::Int);
}

#[test]
fn a_function_returns_the_type_of_its_body() {
    let mut interner = Interner::default();
    let (tokens, _) = Lexer::new(0, b"a + b").get_tokens(&mut interner);
    let tokens = tokens.into_iter().filter(|token| !matches!(token.1, TokenKind::Whitespace(_))).collect();
    let body = Parser::new(tokens).parse_expression(0, span(0, 0)).unwrap();
    let parameters = vec![
        Parameter { span: span(10, 11), ty: Type::Float, name: 0 },
        Parameter { span: span(12, 13), ty: Type::Float, name: 1 },
    ];
    let mut env = Environment::new();
    let checked = function(9, parameters, body).check(&mut env).unwrap();
    assert_eq!(checked.prototype.return_type, Type::Float);
    assert_eq!(checked.prototype.name, 9);
    assert_eq!(
        checked.prototype.parameters,
        vec![
            TypedParameter { span: span(10, 11), ty: Type::Float, name: 0 },
            TypedParameter { span: span(12, 13), ty: Type::Float, name: 1 },
        ]
    );
    assert_eq!(get_type(&checked.body.kind), Type::Float);
    assert_eq!(env.get(0), None);
    assert_eq!(env.get(1), None);
}

#[test]
fn a_void_parameter_is_illegal_before_the_body_is_checked() {
    let parameters = vec![
        Parameter { span: span(1, 2), ty: Type::Int, name: 0 },
        Parameter { span: span(3, 4), ty: Type::Void, name: 1 },
        Parameter { span: span(5, 6), ty: Type::Void, name: 2 },
    ];
    let mut env = Environment::new();
    let checked = function(0, parameters, parse("undefined + 1")).check(&mut env);
    assert_eq!(checked, Err(Error::IllegalType(span(3, 4))));
    assert_eq!(env.get(0), None);
}

#[test]
fn a_parameter_checks_to_itself() {
    let mut env = Environment::new();
    let parameter = Parameter { span: span(1, 2), ty: Type::Void, name: 4 };
    assert_eq!(
        parameter.check(&mut env),
        Ok(TypedParameter { span: span(1, 2), ty: Type::Void, name: 4 })
    );
}

#[test]
fn a_later_parameter_shadows_an_earlier_one_of_the_same_name() {
    let parameters = vec![
        Parameter { span: span(1, 2), ty: Type::Int, name: 0 },
        Parameter { span: span(3, 4), ty: Type::Boolean, name: 0 },
    ];
    let mut env = Environment::new();
    let checked = function(0, parameters, parse("x")).check(&mut env).unwrap();
    assert_eq!(checked.prototype.return_type, Type::Boolean);
}

#[test]
fn a_program_collects_the_errors_of_all_its_functions() {
    let program = Program {
        functions: vec![
            function(0, Vec::new(), parse("1 + true")),
            function(1, Vec::new(), parse("1 + 1")),
        ],
    };
    let mut env = Environment::new();
    let errors = program.check(&mut env).unwrap_err();
    assert_eq!(
        errors,
        vec![Error::UnsupportedOperation {
            operation_span: span(2, 3),
            operands: vec![(span(0, 1), Type::Int), (span(4, 8), Type::Boolean)],
        }]
    );
}

#[test]
fn a_program_checks_every_function_after_a_failure() {
    let program = Program {
        functions: vec![
            function(0, Vec::new(), parse("x")),
            function(1, Vec::new(), parse("1")),
            function(2, vec![Parameter { span: span(7, 8), ty: Type::Void, name: 0 }], parse("1")),
        ],
    };
    let mut env = Environment::new();
    assert_eq!(
        program.check(&mut env),
        Err(vec![Error::UndefinedVariable(span(0, 1)), Error::IllegalType(span(7, 8))])
    );
}

#[test]
fn a_program_without_errors_is_checked_whole() {
    let program = Program {
        functions: vec![
            function(0, Vec::new(), parse("1.5")),
            function(1, vec![Parameter { span: span(7, 8), ty: Type::Int, name: 0 }], parse("x * 2")),
        ],
    };
    let mut env = Environment::new();
    let checked = program.check(&mut env).unwrap();
    assert_eq!(checked.functions.len(), 2);
    assert_eq!(checked.functions[0].prototype.return_type, Type::Float);
    assert_eq!(checked.functions[1].prototype.return_type, Type::Int);
}

#[test]
fn the_bindings_of_one_function_are_not_seen_by_the_next() {
    let program = Program {
        functions: vec![
            function(0, vec![Parameter { span: span(7, 8), ty: Type::Int, name: 0 }], parse("x + true")),
            function(1, Vec::new(), parse("x")),
        ],
    };
    let mut env = Environment::new();
    let errors = program.check(&mut env).unwrap_err();
    assert_eq!(errors.len(), 2);
    assert_eq!(errors[1], Error::UndefinedVariable(span(0, 1)));
}

#[test]
fn a_sequence_of_expressions_collects_every_error() {
    let items = vec![parse("1"), parse("a"), parse("2"), parse("not 3")];
    let mut env = Environment::new();
    env.new_scope();
    assert_eq!(
        items.check(&mut env),
        Err(vec![
            Error::UndefinedVariable(span(0, 1)),
            Error::UnsupportedOperation {
                operation_span: span(0, 3),
                operands: vec![(span(4, 5), Type::Int)],
            },
        ])
    );
    let items = vec![parse("1"), parse("2.5")];
    let checked = items.check(&mut env).unwrap();
    assert_eq!(checked.len(), 2);
    assert_eq!(get_type(&checked[1].kind), Type::Float);
}

#[test]
fn an_empty_program_is_checked_to_an_empty_program() {
    let mut env = Environment::new();
    let checked = Program { functions: Vec::new() }.check(&mut env).unwrap();
    assert!(checked.functions.is_empty());
}
