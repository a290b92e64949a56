//! The handler of float literals.

use crate::error::{outcome, Error, ErrorView};
use crate::lexer::token::{Token, TokenKind};
use crate::parser::expression::{Expression, ExpressionKind, ExpressionView};
use crate::parser::grammar::{leaf};
use crate::parser::Parser;
use vstd::prelude::*;

verus! {

/// Reads a float literal off its token.
pub struct FloatParselet;

impl FloatParselet {
    /// The leaf that `token` stands for. The parser is left as it is.
    pub fn parse(&self, parser: &mut Parser, token: Token) -> (result: Result<Expression, Error>)
        requires
            token.1 is FloatLiteral,
        ensures
            outcome(result) == Ok::<ExpressionView, ErrorView>(leaf(token)),
            *final(parser) == *old(parser),
    {
        match token.1 {
            TokenKind::FloatLiteral(value) => Ok(Expression { kind: ExpressionKind::Float(value), span: token.0 }),
            _ => Err(Error::UnexpectedToken(token.0)),
        }
    }
}

} // verus!
