//! The handler of prefix operators.

use crate::error::{outcome, Error};
use crate::lexer::token::Token;
use crate::parser::expression::{Expression, ExpressionKind, Unary, UnaryOperation};
use crate::parser::grammar::{parsed_unary, remaining, UNARY_PRECEDENCE};
use crate::parser::Parser;
use vstd::prelude::*;

verus! {

/// Parses the operand of a prefix operator.
pub struct UnaryParselet {
    pub operation: UnaryOperation,
}

impl UnaryParselet {
    /// Makes an expression of `token`, which the parser has just taken, and
    /// of what follows it.
    pub fn parse(&self, parser: &mut Parser, token: Token) -> (result: Result<Expression, Error>)
        requires
            old(parser).well_formed(),
        ensures
            final(parser).well_formed(),
            final(parser).same_input(old(parser)),
            outcome(result) == parsed_unary(
                old(parser).grammar(),
                old(parser).tokens(),
                old(parser).position(),
                self.operation,
                token,
            ).result,
            final(parser).position() == old(parser).position() + parsed_unary(
                old(parser).grammar(),
                old(parser).tokens(),
                old(parser).position(),
                self.operation,
                token,
            ).consumed,
        decreases remaining(old(parser).tokens(), old(parser).position()), 1int,
    {
        match parser.parse_expression(UNARY_PRECEDENCE, token.0) {
            Ok(expression) => Ok(
                Expression {
                    kind: ExpressionKind::Unary(
                        Unary { operation: self.operation, expression: Box::new(expression) },
                    ),
                    span: token.0,
                },
            ),
            Err(error) => Err(error),
        }
    }
}

} // verus!
