//! The handler that extends an expression by a binary operator.

use crate::error::{outcome, Error};
use crate::lexer::token::Token;
use crate::parser::expression::{Binary, BinaryOperation, Expression, ExpressionKind};
use crate::parser::grammar::{parsed_binary, remaining};
use crate::parser::Parser;
use vstd::prelude::*;

verus! {

/// To which side operators of one precedence group.
#[derive(Clone, Copy, Debug, PartialEq, Eq, Structural)]
pub enum Associativity {
    Left,
    Right,
}

/// An infix operator: the operation it builds, how tightly it binds, and to
/// which side it groups with operators that bind as tightly.
#[derive(Clone, Copy, Debug, PartialEq, Eq, Structural)]
pub struct BinaryParselet {
    pub operation: BinaryOperation,
    pub precedence: usize,
    pub associativity: Associativity,
}

impl BinaryParselet {
    /// Parses the right operand of the operator `token`, and joins it to
    /// `left`.
    pub fn parse(&self, parser: &mut Parser, left: Expression, token: Token) -> (result: Result<
        Expression,
        Error,
    >)
        requires
            old(parser).well_formed(),
        ensures
            final(parser).well_formed(),
            final(parser).same_input(old(parser)),
            outcome(result) == parsed_binary(
                old(parser).grammar(),
                old(parser).tokens(),
                old(parser).position(),
                *self,
                left@,
                token,
            ).result,
            final(parser).position() == old(parser).position() + parsed_binary(
                old(parser).grammar(),
                old(parser).tokens(),
                old(parser).position(),
                *self,
                left@,
                token,
            ).consumed,
        decreases remaining(old(parser).tokens(), old(parser).position()), 1int,
    {
        match parser.parse_expression(self.precedence, token.0) {
            Ok(right) => Ok(
                Expression {
                    kind: ExpressionKind::Binary(
                        Binary {
                            operation: self.operation,
                            left: Box::new(left),
                            right: Box::new(right),
                        },
                    ),
                    span: token.0,
                },
            ),
            Err(error) => Err(error),
        }
    }
}

} // verus!
