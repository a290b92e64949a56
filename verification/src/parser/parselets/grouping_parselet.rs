//! The handler of parentheses.

use crate::error::{outcome, Error};
use crate::lexer::token::{Token, TokenKind};
use crate::parser::expression::Expression;
use crate::parser::grammar::{parsed_grouping, remaining};
use crate::parser::Parser;
use vstd::prelude::*;

verus! {

/// Parses the expression between a pair of parentheses.
pub struct GroupingParselet;

impl GroupingParselet {
    /// Makes an expression of `token`, which the parser has just taken, and
    /// of what follows it.
    pub fn parse(&self, parser: &mut Parser, token: Token) -> (result: Result<Expression, Error>)
        requires
            old(parser).well_formed(),
        ensures
            final(parser).well_formed(),
            final(parser).same_input(old(parser)),
            outcome(result) == parsed_grouping(
                old(parser).grammar(),
                old(parser).tokens(),
                old(parser).position(),
                token,
            ).result,
            final(parser).position() == old(parser).position() + parsed_grouping(
                old(parser).grammar(),
                old(parser).tokens(),
                old(parser).position(),
                token,
            ).consumed,
        decreases remaining(old(parser).tokens(), old(parser).position()), 1int,
    {
        let expression = match parser.parse_expression(0, token.0) {
            Ok(expression) => expression,
            Err(error) => {
                return Err(error);
            },
        };
        match parser.expect(TokenKind::RightParenthesis, expression.span) {
            Ok(_) => Ok(expression),
            Err(error) => Err(error),
        }
    }
}

} // verus!
