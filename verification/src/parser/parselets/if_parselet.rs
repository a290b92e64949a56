//! The handler of `if`.

use crate::error::{outcome, Error};
use crate::lexer::token::{Token, TokenKind};
use crate::parser::expression::{Expression, ExpressionKind, If};
use crate::parser::grammar::{parsed_if, remaining};
use crate::parser::Parser;
use vstd::prelude::*;

verus! {

/// Parses what follows an `if`: the condition, `then`, a branch, and a
/// second branch where `else` follows.
pub struct IfParselet;

impl IfParselet {
    /// Makes an expression of `token`, which the parser has just taken, and
    /// of what follows it.
    pub fn parse(&self, parser: &mut Parser, token: Token) -> (result: Result<Expression, Error>)
        requires
            old(parser).well_formed(),
        ensures
            final(parser).well_formed(),
            final(parser).same_input(old(parser)),
            outcome(result) == parsed_if(
                old(parser).grammar(),
                old(parser).tokens(),
                old(parser).position(),
                token,
            ).result,
            final(parser).position() == old(parser).position() + parsed_if(
                old(parser).grammar(),
                old(parser).tokens(),
                old(parser).position(),
                token,
            ).consumed,
        decreases remaining(old(parser).tokens(), old(parser).position()), 1int,
    {
        let condition = match parser.parse_expression(0, token.0) {
            Ok(expression) => expression,
            Err(error) => {
                return Err(error);
            },
        };
        let then_span = match parser.expect(TokenKind::Then, condition.span) {
            Ok(then) => then.0,
            Err(error) => {
                return Err(error);
            },
        };
        let then_branch = match parser.parse_expression(0, then_span) {
            Ok(expression) => expression,
            Err(error) => {
                return Err(error);
            },
        };
        let mut else_branch: Option<Box<Expression>> = None;
        match parser.peek() {
            Some((_, TokenKind::Else)) => {
                let else_span = match parser.consume(then_span) {
                    Ok(token) => token.0,
                    Err(error) => {
                        return Err(error);
                    },
                };
                match parser.parse_expression(0, else_span) {
                    Ok(expression) => {
                        else_branch = Some(Box::new(expression));
                    },
                    Err(error) => {
                        return Err(error);
                    },
                }
            },
            _ => {},
        }
        Ok(
            Expression {
                kind: ExpressionKind::If(
                    If {
                        condition: Box::new(condition),
                        then_branch: Box::new(then_branch),
                        else_branch,
                    },
                ),
                span: token.0,
            },
        )
    }
}

} // verus!
