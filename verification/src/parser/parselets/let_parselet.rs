//! The handler of `let`.

use crate::error::{outcome, Error, ErrorView, Span};
use crate::lexer::token::{Token, TokenKind};
use crate::parser::expression::{Expression, ExpressionKind, Identifier, Let};
use crate::parser::grammar::{parsed_binding, parsed_let, remaining, type_named};
use crate::parser::Parser;
use crate::semantic_analyzer::types::Type;
use vstd::prelude::*;

verus! {

/// The type that a type keyword names.
fn named_type(kind: TokenKind) -> (ty: Option<Type>)
    ensures
        ty == type_named(kind),
{
    match kind {
        TokenKind::Void => Some(Type::Void),
        TokenKind::Int => Some(Type::Int),
        TokenKind::Float => Some(Type::Float),
        TokenKind::Boolean => Some(Type::Boolean),
        TokenKind::String => Some(Type::String),
        _ => None,
    }
}

/// Parses what follows a `let`: the name, a type where a colon follows the
/// name, `=`, and the initializer.
pub struct LetParselet;

impl LetParselet {
    /// Parses the head of the binding, up to and with the `=`.
    fn binding(parser: &mut Parser, token: Token) -> (result: Result<
        ((Span, Identifier), Option<Type>, Span),
        Error,
    >)
        requires
            old(parser).well_formed(),
        ensures
            final(parser).well_formed(),
            final(parser).same_input(old(parser)),
            match result {
                Ok(binding) => parsed_binding(
                    old(parser).tokens(),
                    old(parser).position(),
                    token,
                ).result == Ok::<((Span, Identifier), Option<Type>, Span), ErrorView>(binding),
                Err(error) => parsed_binding(
                    old(parser).tokens(),
                    old(parser).position(),
                    token,
                ).result == Err::<((Span, Identifier), Option<Type>, Span), ErrorView>(
                    error.deep_view(),
                ),
            },
            final(parser).position() == old(parser).position() + parsed_binding(
                old(parser).tokens(),
                old(parser).position(),
                token,
            ).consumed,
    {
        let name = match parser.expect(TokenKind::Identifier(0), token.0) {
            Ok(name) => name,
            Err(error) => {
                return Err(error);
            },
        };
        let id: usize = match name.1 {
            TokenKind::Identifier(id) => id,
            _ => 0,
        };
        let bound = (name.0, Identifier(id));
        let mut given_type: Option<Type> = None;
        let mut last = name.0;
        match parser.peek() {
            Some((colon_span, TokenKind::Colon)) => {
                match parser.consume(name.0) {
                    Ok(_) => {},
                    Err(error) => {
                        return Err(error);
                    },
                }
                let declared = match parser.consume(colon_span) {
                    Ok(declared) => declared,
                    Err(error) => {
                        return Err(error);
                    },
                };
                match named_type(declared.1) {
                    Some(ty) => {
                        given_type = Some(ty);
                    },
                    None => {
                        return Err(Error::UnexpectedToken(declared.0));
                    },
                }
                last = declared.0;
            },
            _ => {},
        }
        match parser.expect(TokenKind::EqualSign, last) {
            Ok(equals) => Ok((bound, given_type, equals.0)),
            Err(error) => Err(error),
        }
    }

    /// Makes an expression of `token`, which the parser has just taken, and
    /// of what follows it.
    pub fn parse(&self, parser: &mut Parser, token: Token) -> (result: Result<Expression, Error>)
        requires
            old(parser).well_formed(),
        ensures
            final(parser).well_formed(),
            final(parser).same_input(old(parser)),
            outcome(result) == parsed_let(
                old(parser).grammar(),
                old(parser).tokens(),
                old(parser).position(),
                token,
            ).result,
            final(parser).position() == old(parser).position() + parsed_let(
                old(parser).grammar(),
                old(parser).tokens(),
                old(parser).position(),
                token,
            ).consumed,
        decreases remaining(old(parser).tokens(), old(parser).position()), 1int,
    {
        let (name, given_type, equals_span) = match LetParselet::binding(parser, token) {
            Ok(binding) => binding,
            Err(error) => {
                return Err(error);
            },
        };
        match parser.parse_expression(0, equals_span) {
            Ok(expression) => Ok(
                Expression {
                    kind: ExpressionKind::Let(
                        Let { name, given_type, expression: Box::new(expression) },
                    ),
                    span: token.0,
                },
            ),
            Err(error) => Err(error),
        }
    }
}

} // verus!
