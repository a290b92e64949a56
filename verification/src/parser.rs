//! The syntax tree and the precedence-climbing parser that builds it.
//!
//! The grammar is a pair of tables from the kind of a token to what handles
//! it: a prefix parselet starts an expression, an infix parselet extends the
//! expression to its left. A new operator is one more entry in a table.

pub mod ast;
pub mod expression;
pub mod grammar;
pub mod parselets;
pub mod precedence;
pub mod typed_ast;
pub mod typed_expression;

use crate::error::{outcome, Error, ErrorView, Span};
use crate::lexer::token::{Token, TokenKind, KIND_COUNT};
use crate::parser::expression::{BinaryOperation, Expression, ExpressionView, UnaryOperation};
use crate::parser::grammar::{
    consumed_token, default_grammar, expected_token, infix_at, parsed_expression, parsed_infix,
    parsed_prefix, parsed_program, remaining, Grammar, PRODUCT_PRECEDENCE, SUM_PRECEDENCE,
};
use crate::parser::parselets::binary_parselet::{Associativity, BinaryParselet};
use crate::parser::parselets::float_parselet::FloatParselet;
use crate::parser::parselets::grouping_parselet::GroupingParselet;
use crate::parser::parselets::if_parselet::IfParselet;
use crate::parser::parselets::let_parselet::LetParselet;
use crate::parser::parselets::prefix_parselet::{
    BooleanParselet, IdentifierParselet, IntParselet, PrefixParselet, StringParselet,
};
use crate::parser::parselets::unary_parselet::UnaryParselet;
use vstd::prelude::*;

verus! {

/// A result that holds a token, with the error taken as a mathematical value.
pub open spec fn token_outcome(result: Result<Token, Error>) -> Result<Token, ErrorView> {
    match result {
        Ok(token) => Ok(token),
        Err(error) => Err(error.deep_view()),
    }
}

/// A table with no entry for any kind.
fn empty_table<T>() -> (table: Vec<Option<T>>)
    ensures
        table@.len() == KIND_COUNT,
        forall|tag: int| 0 <= tag < KIND_COUNT ==> table@[tag] is None,
{
    let mut table: Vec<Option<T>> = Vec::new();
    while table.len() < KIND_COUNT
        invariant
            table@.len() <= KIND_COUNT,
            forall|tag: int| 0 <= tag < table@.len() ==> table@[tag] is None,
        decreases KIND_COUNT - table@.len(),
    {
        table.push(None);
    }
    table
}

/// A parser over a token sequence, with its grammar and its place in the
/// sequence.
pub struct Parser {
    tokens: Vec<Token>,
    position: usize,
    prefix: Vec<Option<PrefixParselet>>,
    infix: Vec<Option<BinaryParselet>>,
}

impl Parser {
    /// The tokens that the parser reads.
    pub closed spec fn tokens(&self) -> Seq<Token> {
        self.tokens@
    }

    /// How many tokens have been taken.
    pub closed spec fn position(&self) -> int {
        self.position as int
    }

    /// The tables of the parser.
    pub closed spec fn grammar(&self) -> Grammar {
        Grammar { prefix: self.prefix@, infix: self.infix@ }
    }

    /// The place lies inside the tokens, both tables have an entry for
    /// every kind, and a parselet stands only where it accepts the kind.
    pub closed spec fn well_formed(&self) -> bool {
        &&& self.position <= self.tokens@.len()
        &&& self.prefix@.len() == KIND_COUNT
        &&& self.infix@.len() == KIND_COUNT
        &&& forall|kind: TokenKind|
            (#[trigger] self.prefix@[kind.tag_of() as int]) matches Some(parselet)
                ==> parselet.accepts(kind)
    }

    /// Both parsers read the same tokens by the same grammar.
    pub open spec fn same_input(&self, other: &Parser) -> bool {
        self.tokens() == other.tokens() && self.grammar() == other.grammar()
    }

    /// What the prefix table holds for tokens of a kind is fit for them.
    pub proof fn lemma_prefix_accepts(&self, kind: TokenKind)
        requires
            self.well_formed(),
        ensures
            self.grammar().prefix[kind.tag_of() as int] matches Some(parselet)
                ==> parselet.accepts(kind),
    {
    }

    /// A parser at the start of `tokens`, with the default grammar.
    pub fn new(tokens: Vec<Token>) -> (parser: Parser)
        ensures
            parser.well_formed(),
            parser.tokens() == tokens@,
            parser.position() == 0,
            parser.grammar() == default_grammar(),
    {
        let mut prefix: Vec<Option<PrefixParselet>> = empty_table();
        let mut infix: Vec<Option<BinaryParselet>> = empty_table();
        prefix.set(TokenKind::IntegerLiteral(0).tag(), Some(PrefixParselet::Int));
        prefix.set(TokenKind::FloatLiteral(0).tag(), Some(PrefixParselet::Float));
        prefix.set(TokenKind::BooleanLiteral(false).tag(), Some(PrefixParselet::Boolean));
        prefix.set(TokenKind::StringLiteral(0).tag(), Some(PrefixParselet::String));
        prefix.set(TokenKind::Identifier(0).tag(), Some(PrefixParselet::Identifier));
        prefix.set(TokenKind::LeftParenthesis.tag(), Some(PrefixParselet::Grouping));
        prefix.set(TokenKind::Plus.tag(), Some(PrefixParselet::Unary(UnaryOperation::Plus)));
        prefix.set(TokenKind::Minus.tag(), Some(PrefixParselet::Unary(UnaryOperation::Minus)));
        prefix.set(TokenKind::Not.tag(), Some(PrefixParselet::Unary(UnaryOperation::Not)));
        prefix.set(TokenKind::If.tag(), Some(PrefixParselet::If));
        prefix.set(TokenKind::Let.tag(), Some(PrefixParselet::Let));
        infix.set(
            TokenKind::Plus.tag(),
            Some(
                BinaryParselet {
                    operation: BinaryOperation::Plus,
                    precedence: SUM_PRECEDENCE,
                    associativity: Associativity::Left,
                },
            ),
        );
        infix.set(
            TokenKind::Minus.tag(),
            Some(
                BinaryParselet {
                    operation: BinaryOperation::Minus,
                    precedence: SUM_PRECEDENCE,
                    associativity: Associativity::Left,
                },
            ),
        );
        infix.set(
            TokenKind::Star.tag(),
            Some(
                BinaryParselet {
                    operation: BinaryOperation::Multiply,
                    precedence: PRODUCT_PRECEDENCE,
                    associativity: Associativity::Left,
                },
            ),
        );
        infix.set(
            TokenKind::Slash.tag(),
            Some(
                BinaryParselet {
                    operation: BinaryOperation::Divide,
                    precedence: PRODUCT_PRECEDENCE,
                    associativity: Associativity::Left,
                },
            ),
        );
        assert(prefix@ =~= default_grammar().prefix);
        assert(infix@ =~= default_grammar().infix);
        Parser { tokens, position: 0, prefix, infix }
    }

    /// Makes `parselet` the handler of the tokens of `kind` that start an
    /// expression, in place of the one there was, if any.
    pub fn register_prefix(&mut self, kind: TokenKind, parselet: PrefixParselet)
        requires
            old(self).well_formed(),
            parselet.accepts(kind),
        ensures
            final(self).well_formed(),
            final(self).tokens() == old(self).tokens(),
            final(self).position() == old(self).position(),
            final(self).grammar().infix == old(self).grammar().infix,
            final(self).grammar().prefix == old(self).grammar().prefix.update(
                kind.tag_of() as int,
                Some(parselet),
            ),
    {
        self.prefix.set(kind.tag(), Some(parselet));
        assert forall|other: TokenKind|
            (#[trigger] self.prefix@[other.tag_of() as int]) is Some implies self.prefix@[other.tag_of() as int]->Some_0.accepts(
            other,
        ) by {
            if other.tag_of() == kind.tag_of() {
            } else {
                assert(self.prefix@[other.tag_of() as int] == old(self).prefix@[other.tag_of() as int]);
            }
        }
    }

    /// Makes `parselet` the handler of the tokens of `kind` that follow an
    /// expression, in place of the one there was, if any.
    pub fn register_infix(&mut self, kind: TokenKind, parselet: BinaryParselet)
        requires
            old(self).well_formed(),
        ensures
            final(self).well_formed(),
            final(self).tokens() == old(self).tokens(),
            final(self).position() == old(self).position(),
            final(self).grammar().prefix == old(self).grammar().prefix,
            final(self).grammar().infix == old(self).grammar().infix.update(
                kind.tag_of() as int,
                Some(parselet),
            ),
    {
        self.infix.set(kind.tag(), Some(parselet));
    }

    /// The next token, which stays where it is.
    pub fn peek(&self) -> (token: Option<Token>)
        requires
            self.well_formed(),
        ensures
            token == (if self.position() < self.tokens().len() {
                Some(self.tokens()[self.position()])
            } else {
                None
            }),
    {
        if self.position < self.tokens.len() {
            Some(self.tokens[self.position])
        } else {
            None
        }
    }

    /// Takes the next token. At the end of the input this is an error at
    /// `span`.
    pub fn consume(&mut self, span: Span) -> (result: Result<Token, Error>)
        requires
            old(self).well_formed(),
        ensures
            final(self).well_formed(),
            final(self).same_input(old(self)),
            token_outcome(result) == consumed_token(
                old(self).tokens(),
                old(self).position(),
                span,
            ).result,
            final(self).position() == old(self).position() + consumed_token(
                old(self).tokens(),
                old(self).position(),
                span,
            ).consumed,
    {
        if self.position < self.tokens.len() {
            let token = self.tokens[self.position];
            self.position = self.position + 1;
            Ok(token)
        } else {
            Err(Error::UnexpectedEndOfInput(span))
        }
    }

    /// Takes the next token, which must be of the kind `expected`, whatever
    /// it carries. At the end of the input this is an error at `span`.
    pub fn expect(&mut self, expected: TokenKind, span: Span) -> (result: Result<Token, Error>)
        requires
            old(self).well_formed(),
        ensures
            final(self).well_formed(),
            final(self).same_input(old(self)),
            token_outcome(result) == expected_token(
                old(self).tokens(),
                old(self).position(),
                expected,
                span,
            ).result,
            final(self).position() == old(self).position() + expected_token(
                old(self).tokens(),
                old(self).position(),
                expected,
                span,
            ).consumed,
    {
        if self.position < self.tokens.len() {
            let token = self.tokens[self.position];
            self.position = self.position + 1;
            if token.1.tag() == expected.tag() {
                Ok(token)
            } else {
                Err(Error::ExpectedKind { span: token.0, expected, actual: token.1 })
            }
        } else {
            Err(Error::UnexpectedEndOfInput(span))
        }
    }

    /// The infix operator that comes next, where it extends an expression
    /// parsed at `precedence`.
    fn next_infix(&self, precedence: usize) -> (next: Option<(Token, BinaryParselet)>)
        requires
            self.well_formed(),
        ensures
            next == infix_at(self.grammar(), self.tokens(), self.position(), precedence),
    {
        if self.position < self.tokens.len() {
            let token = self.tokens[self.position];
            match self.infix[token.1.tag()] {
                Some(rule) => {
                    if rule.precedence > precedence || (rule.precedence == precedence && (
                    match rule.associativity {
                        Associativity::Right => true,
                        Associativity::Left => false,
                    })) {
                        Some((token, rule))
                    } else {
                        None
                    }
                },
                None => None,
            }
        } else {
            None
        }
    }

    /// Hands `token` to its prefix parselet.
    fn parse_prefix(&mut self, parselet: PrefixParselet, token: Token) -> (result: Result<
        Expression,
        Error,
    >)
        requires
            old(self).well_formed(),
            parselet.accepts(token.1),
        ensures
            final(self).well_formed(),
            final(self).same_input(old(self)),
            outcome(result) == parsed_prefix(
                old(self).grammar(),
                old(self).tokens(),
                old(self).position(),
                parselet,
                token,
            ).result,
            final(self).position() == old(self).position() + parsed_prefix(
                old(self).grammar(),
                old(self).tokens(),
                old(self).position(),
                parselet,
                token,
            ).consumed,
        decreases remaining(old(self).tokens(), old(self).position()), 2int,
    {
        match parselet {
            PrefixParselet::Int => IntParselet.parse(self, token),
            PrefixParselet::Float => FloatParselet.parse(self, token),
            PrefixParselet::Boolean => BooleanParselet.parse(self, token),
            PrefixParselet::String => StringParselet.parse(self, token),
            PrefixParselet::Identifier => IdentifierParselet.parse(self, token),
            PrefixParselet::Grouping => GroupingParselet.parse(self, token),
            PrefixParselet::Unary(operation) => UnaryParselet { operation }.parse(self, token),
            PrefixParselet::If => IfParselet.parse(self, token),
            PrefixParselet::Let => LetParselet.parse(self, token),
        }
    }

    /// Parses an expression whose infix operators all bind tighter than
    /// `precedence`, or as tight and to the right. `span` is where an error
    /// is reported if the input has ended.
    pub fn parse_expression(&mut self, precedence: usize, span: Span) -> (result: Result<
        Expression,
        Error,
    >)
        requires
            old(self).well_formed(),
        ensures
            final(self).well_formed(),
            final(self).same_input(old(self)),
            outcome(result) == parsed_expression(
                old(self).grammar(),
                old(self).tokens(),
                old(self).position(),
                precedence,
                span,
            ).result,
            final(self).position() == old(self).position() + parsed_expression(
                old(self).grammar(),
                old(self).tokens(),
                old(self).position(),
                precedence,
                span,
            ).consumed,
        decreases remaining(old(self).tokens(), old(self).position()), 0int,
    {
        let ghost grammar = self.grammar();
        let ghost tokens = self.tokens();
        let ghost expected = parsed_expression(grammar, tokens, self.position(), precedence, span);
        let token = match self.consume(span) {
            Ok(token) => token,
            Err(error) => {
                return Err(error);
            },
        };
        let parselet = match self.prefix[token.1.tag()] {
            Some(parselet) => parselet,
            None => {
                return Err(Error::UnexpectedToken(token.0));
            },
        };
        let mut left = match self.parse_prefix(parselet, token) {
            Ok(expression) => expression,
            Err(error) => {
                return Err(error);
            },
        };
        let ghost start = self.position();
        let ghost head = left@;
        let mut next = self.next_infix(precedence);
        while next.is_some()
            invariant
                self.well_formed(),
                self.same_input(old(self)),
                grammar == self.grammar(),
                tokens == self.tokens(),
                old(self).position() < start <= self.position(),
                expected == parsed_expression(
                    old(self).grammar(),
                    old(self).tokens(),
                    old(self).position(),
                    precedence,
                    span,
                ),
                expected.result == parsed_infix(grammar, tokens, start, precedence, head).result,
                old(self).position() + expected.consumed == start + parsed_infix(
                    grammar,
                    tokens,
                    start,
                    precedence,
                    head,
                ).consumed,
                next == infix_at(grammar, tokens, self.position(), precedence),
                parsed_infix(grammar, tokens, start, precedence, head).result == parsed_infix(
                    grammar,
                    tokens,
                    self.position(),
                    precedence,
                    left@,
                ).result,
                start + parsed_infix(grammar, tokens, start, precedence, head).consumed
                    == self.position() + parsed_infix(
                    grammar,
                    tokens,
                    self.position(),
                    precedence,
                    left@,
                ).consumed,
            decreases remaining(tokens, self.position()),
        {
            let (operator, rule) = next.unwrap();
            let count: usize = self.tokens.len();
            assert(self.position < count);
            self.position = self.position + 1;
            match rule.parse(self, left, operator) {
                Ok(whole) => {
                    left = whole;
                },
                Err(error) => {
                    return Err(error);
                },
            }
            next = self.next_infix(precedence);
        }
        Ok(left)
    }

    /// Parses top-level expressions until the tokens are used up. Returns
    /// those that parsed and the errors of those that did not, each in the
    /// order of the source.
    pub fn parse_program(&mut self) -> (out: (Vec<Expression>, Vec<Error>))
        requires
            old(self).well_formed(),
        ensures
            final(self).well_formed(),
            final(self).same_input(old(self)),
            final(self).position() == final(self).tokens().len(),
            (out.0.deep_view(), out.1.deep_view()) == parsed_program(
                old(self).grammar(),
                old(self).tokens(),
                old(self).position(),
                Seq::empty(),
                Seq::empty(),
            ),
    {
        let mut expressions: Vec<Expression> = Vec::new();
        let mut errors: Vec<Error> = Vec::new();
        assert(expressions.deep_view() =~= Seq::<ExpressionView>::empty());
        assert(errors.deep_view() =~= Seq::<ErrorView>::empty());
        while self.position < self.tokens.len()
            invariant
                self.well_formed(),
                self.same_input(old(self)),
                parsed_program(
                    old(self).grammar(),
                    old(self).tokens(),
                    old(self).position(),
                    Seq::empty(),
                    Seq::empty(),
                ) == parsed_program(
                    self.grammar(),
                    self.tokens(),
                    self.position(),
                    expressions.deep_view(),
                    errors.deep_view(),
                ),
            decreases remaining(self.tokens(), self.position()),
        {
            let span = self.tokens[self.position].0;
            let ghost earlier_expressions = expressions.deep_view();
            let ghost earlier_errors = errors.deep_view();
            match self.parse_expression(0, span) {
                Ok(expression) => {
                    expressions.push(expression);
                    assert(expressions.deep_view() =~= earlier_expressions.push(expression@));
                },
                Err(error) => {
                    errors.push(error);
                    assert(errors.deep_view() =~= earlier_errors.push(error.deep_view()));
                },
            }
        }
        (expressions, errors)
    }
}

} // verus!
