//! The handlers that start an expression.

use crate::error::{outcome, Error, ErrorView};
use crate::lexer::token::{Token, TokenKind};
use crate::parser::expression::{
    Expression, ExpressionKind, ExpressionView, Identifier, UnaryOperation,
};
use crate::parser::grammar::{leaf};
use crate::parser::Parser;
use vstd::prelude::*;

verus! {

/// What can start an expression. Each stands for the handler of its name.
#[derive(Clone, Copy, Debug, PartialEq, Eq, Structural)]
pub enum PrefixParselet {
    Int,
    Float,
    Boolean,
    String,
    Identifier,
    Grouping,
    Unary(UnaryOperation),
    If,
    Let,
}

impl PrefixParselet {
    /// Whether the parselet can be registered for tokens of the given kind.
    /// A literal or a name is read off its own kind of token only; the
    /// others look at what follows the token, not at the token.
    pub open spec fn accepts(self, kind: TokenKind) -> bool {
        match self {
            PrefixParselet::Int => kind is IntegerLiteral,
            PrefixParselet::Float => kind is FloatLiteral,
            PrefixParselet::Boolean => kind is BooleanLiteral,
            PrefixParselet::String => kind is StringLiteral,
            PrefixParselet::Identifier => kind is Identifier,
            _ => true,
        }
    }
}

/// Reads an integer literal off its token.
pub struct IntParselet;

impl IntParselet {
    /// The leaf that `token` stands for. The parser is left as it is.
    pub fn parse(&self, parser: &mut Parser, token: Token) -> (result: Result<Expression, Error>)
        requires
            token.1 is IntegerLiteral,
        ensures
            outcome(result) == Ok::<ExpressionView, ErrorView>(leaf(token)),
            *final(parser) == *old(parser),
    {
        match token.1 {
            TokenKind::IntegerLiteral(value) => Ok(Expression { kind: ExpressionKind::Int(value), span: token.0 }),
            _ => Err(Error::UnexpectedToken(token.0)),
        }
    }
}

/// Reads a boolean literal off its token.
pub struct BooleanParselet;

impl BooleanParselet {
    /// The leaf that `token` stands for. The parser is left as it is.
    pub fn parse(&self, parser: &mut Parser, token: Token) -> (result: Result<Expression, Error>)
        requires
            token.1 is BooleanLiteral,
        ensures
            outcome(result) == Ok::<ExpressionView, ErrorView>(leaf(token)),
            *final(parser) == *old(parser),
    {
        match token.1 {
            TokenKind::BooleanLiteral(value) => Ok(Expression { kind: ExpressionKind::Boolean(value), span: token.0 }),
            _ => Err(Error::UnexpectedToken(token.0)),
        }
    }
}

/// Reads a string literal off its token.
pub struct StringParselet;

impl StringParselet {
    /// The leaf that `token` stands for. The parser is left as it is.
    pub fn parse(&self, parser: &mut Parser, token: Token) -> (result: Result<Expression, Error>)
        requires
            token.1 is StringLiteral,
        ensures
            outcome(result) == Ok::<ExpressionView, ErrorView>(leaf(token)),
            *final(parser) == *old(parser),
    {
        match token.1 {
            TokenKind::StringLiteral(value) => Ok(Expression { kind: ExpressionKind::String(value), span: token.0 }),
            _ => Err(Error::UnexpectedToken(token.0)),
        }
    }
}

/// Reads a name off its token.
pub struct IdentifierParselet;

impl IdentifierParselet {
    /// The leaf that `token` stands for. The parser is left as it is.
    pub fn parse(&self, parser: &mut Parser, token: Token) -> (result: Result<Expression, Error>)
        requires
            token.1 is Identifier,
        ensures
            outcome(result) == Ok::<ExpressionView, ErrorView>(leaf(token)),
            *final(parser) == *old(parser),
    {
        match token.1 {
            TokenKind::Identifier(value) => Ok(Expression { kind: ExpressionKind::Identifier(Identifier(value)), span: token.0 }),
            _ => Err(Error::UnexpectedToken(token.0)),
        }
    }
}

} // verus!
