//! The grammar: what parsing a token sequence leads to, as mathematical
//! functions of the tables and the tokens.

use crate::error::{ErrorView, Span};
use crate::lexer::token::{Token, TokenKind, KIND_COUNT};
use crate::parser::expression::{
    node, BinaryOperation, ExpressionKindView, ExpressionView, Identifier, UnaryOperation,
};
use crate::parser::parselets::binary_parselet::{Associativity, BinaryParselet};
use crate::parser::parselets::prefix_parselet::PrefixParselet;
use crate::semantic_analyzer::types::Type;
use vstd::prelude::*;

verus! {


/// How tightly the additive operators bind.
pub const SUM_PRECEDENCE: usize = 1;

/// How tightly the multiplicative operators bind.
pub const PRODUCT_PRECEDENCE: usize = 2;

/// How tightly a prefix operator binds its operand.
pub const UNARY_PRECEDENCE: usize = 3;

/// The two tables of a grammar, each indexed by the number of a token kind.
pub struct Grammar {
    pub prefix: Seq<Option<PrefixParselet>>,
    pub infix: Seq<Option<BinaryParselet>>,
}

/// The result of parsing from some position, and how many tokens it took.
pub struct Parsed<T> {
    pub result: Result<T, ErrorView>,
    pub consumed: nat,
}

/// How many tokens stand at and behind `pos`.
pub open spec fn remaining(tokens: Seq<Token>, pos: int) -> nat {
    if pos <= tokens.len() {
        (tokens.len() - pos) as nat
    } else {
        0
    }
}

/// The type that a type keyword names.
pub open spec fn type_named(kind: TokenKind) -> Option<Type> {
    match kind {
        TokenKind::Void => Some(Type::Void),
        TokenKind::Int => Some(Type::Int),
        TokenKind::Float => Some(Type::Float),
        TokenKind::Boolean => Some(Type::Boolean),
        TokenKind::String => Some(Type::String),
        _ => None,
    }
}

/// The token at `pos`, which `consume` takes: at the end of the input it is
/// an error at `span`, the place of the token before.
pub open spec fn consumed_token(tokens: Seq<Token>, pos: int, span: Span) -> Parsed<Token> {
    if 0 <= pos < tokens.len() {
        Parsed { result: Ok(tokens[pos]), consumed: 1 }
    } else {
        Parsed { result: Err(ErrorView::UnexpectedEndOfInput(span)), consumed: 0 }
    }
}

/// The token at `pos`, which must be of the kind `expected` whatever it
/// carries. A token of another kind is taken too, and is an error.
pub open spec fn expected_token(tokens: Seq<Token>, pos: int, expected: TokenKind, span: Span) -> Parsed<
    Token,
> {
    if 0 <= pos < tokens.len() {
        let token = tokens[pos];
        Parsed {
            result: if token.1.tag_of() == expected.tag_of() {
                Ok(token)
            } else {
                Err(ErrorView::ExpectedKind { span: token.0, expected, actual: token.1 })
            },
            consumed: 1,
        }
    } else {
        Parsed { result: Err(ErrorView::UnexpectedEndOfInput(span)), consumed: 0 }
    }
}

/// A failed parse that took `consumed` tokens.
pub open spec fn failed<T>(error: ErrorView, consumed: nat) -> Parsed<T> {
    Parsed { result: Err(error), consumed }
}

/// The leaf that a literal or a name token stands for.
pub open spec fn leaf(token: Token) -> ExpressionView {
    node(
        match token.1 {
            TokenKind::IntegerLiteral(value) => ExpressionKindView::Int(value),
            TokenKind::FloatLiteral(id) => ExpressionKindView::Float(id),
            TokenKind::BooleanLiteral(value) => ExpressionKindView::Boolean(value),
            TokenKind::StringLiteral(id) => ExpressionKindView::String(id),
            TokenKind::Identifier(id) => ExpressionKindView::Identifier(Identifier(id)),
            _ => arbitrary(),
        },
        token.0,
    )
}

/// Whether an infix operator of the given rule extends an expression that
/// is parsed at the minimum precedence `precedence`: it binds tighter, or as
/// tight and to the right.
pub open spec fn extends(rule: BinaryParselet, precedence: usize) -> bool {
    rule.precedence > precedence || (rule.precedence == precedence && rule.associativity
        == Associativity::Right)
}

/// An expression parsed from `pos` on: one token is taken and handed to its
/// prefix parselet, and the result is extended by infix operators as long as
/// the next token is one that `extends` allows. `span` is the place of the
/// token before `pos`, where a missing token is reported.
pub open spec fn parsed_expression(
    grammar: Grammar,
    tokens: Seq<Token>,
    pos: int,
    precedence: usize,
    span: Span,
) -> Parsed<ExpressionView>
    decreases remaining(tokens, pos), 0int,
{
    if 0 <= pos < tokens.len() {
        let token = tokens[pos];
        match grammar.prefix[token.1.tag_of() as int] {
            None => failed(ErrorView::UnexpectedToken(token.0), 1),
            Some(parselet) => {
                let head = parsed_prefix(grammar, tokens, pos + 1, parselet, token);
                match head.result {
                    Err(error) => failed(error, 1 + head.consumed),
                    Ok(left) => {
                        let tail = parsed_infix(
                            grammar,
                            tokens,
                            pos + 1 + head.consumed,
                            precedence,
                            left,
                        );
                        Parsed { result: tail.result, consumed: 1 + head.consumed + tail.consumed }
                    },
                }
            },
        }
    } else {
        failed(ErrorView::UnexpectedEndOfInput(span), 0)
    }
}

/// What the prefix parselet makes of `token`, with the tokens from `pos` on
/// behind it.
pub open spec fn parsed_prefix(
    grammar: Grammar,
    tokens: Seq<Token>,
    pos: int,
    parselet: PrefixParselet,
    token: Token,
) -> Parsed<ExpressionView>
    decreases remaining(tokens, pos), 2int,
{
    match parselet {
        PrefixParselet::Int | PrefixParselet::Float | PrefixParselet::Boolean
        | PrefixParselet::String | PrefixParselet::Identifier => Parsed {
            result: Ok(leaf(token)),
            consumed: 0,
        },
        PrefixParselet::Grouping => parsed_grouping(grammar, tokens, pos, token),
        PrefixParselet::Unary(operation) => parsed_unary(grammar, tokens, pos, operation, token),
        PrefixParselet::If => parsed_if(grammar, tokens, pos, token),
        PrefixParselet::Let => parsed_let(grammar, tokens, pos, token),
    }
}

/// An expression in parentheses: the expression itself, once the closing
/// parenthesis is found behind it.
pub open spec fn parsed_grouping(grammar: Grammar, tokens: Seq<Token>, pos: int, token: Token) -> Parsed<
    ExpressionView,
>
    decreases remaining(tokens, pos), 1int,
{
    let inner = parsed_expression(grammar, tokens, pos, 0, token.0);
    match inner.result {
        Err(error) => failed(error, inner.consumed),
        Ok(expression) => {
            let close = expected_token(
                tokens,
                pos + inner.consumed,
                TokenKind::RightParenthesis,
                expression.span,
            );
            match close.result {
                Err(error) => failed(error, inner.consumed + close.consumed),
                Ok(_) => Parsed { result: Ok(expression), consumed: inner.consumed + close.consumed },
            }
        },
    }
}

/// A prefix operator and its operand.
pub open spec fn parsed_unary(
    grammar: Grammar,
    tokens: Seq<Token>,
    pos: int,
    operation: UnaryOperation,
    token: Token,
) -> Parsed<ExpressionView>
    decreases remaining(tokens, pos), 1int,
{
    let operand = parsed_expression(grammar, tokens, pos, UNARY_PRECEDENCE, token.0);
    match operand.result {
        Err(error) => failed(error, operand.consumed),
        Ok(expression) => Parsed {
            result: Ok(
                node(
                    ExpressionKindView::Unary { operation, expression: Box::new(expression) },
                    token.0,
                ),
            ),
            consumed: operand.consumed,
        },
    }
}

/// An `if`: a condition, `then`, a branch, and where `else` follows, a
/// second branch. The node stands at the `if`.
pub open spec fn parsed_if(grammar: Grammar, tokens: Seq<Token>, pos: int, token: Token) -> Parsed<
    ExpressionView,
>
    decreases remaining(tokens, pos), 1int,
{
    let first = parsed_expression(grammar, tokens, pos, 0, token.0);
    match first.result {
        Err(error) => failed(error, first.consumed),
        Ok(condition) => {
            let then_at = pos + first.consumed;
            let then = expected_token(tokens, then_at, TokenKind::Then, condition.span);
            match then.result {
                Err(error) => failed(error, first.consumed + then.consumed),
                Ok(then_token) => {
                    let second = parsed_expression(grammar, tokens, then_at + 1, 0, then_token.0);
                    let else_at = then_at + 1 + second.consumed;
                    match second.result {
                        Err(error) => failed(error, first.consumed + 1 + second.consumed),
                        Ok(then_branch) => if 0 <= else_at < tokens.len() && tokens[else_at].1
                            == TokenKind::Else {
                            let third = parsed_expression(
                                grammar,
                                tokens,
                                else_at + 1,
                                0,
                                tokens[else_at].0,
                            );
                            let consumed = first.consumed + 1 + second.consumed + 1
                                + third.consumed;
                            match third.result {
                                Err(error) => failed(error, consumed),
                                Ok(else_branch) => Parsed {
                                    result: Ok(
                                        node(
                                            ExpressionKindView::If {
                                                condition: Box::new(condition),
                                                then_branch: Box::new(then_branch),
                                                else_branch: Some(Box::new(else_branch)),
                                            },
                                            token.0,
                                        ),
                                    ),
                                    consumed,
                                },
                            }
                        } else {
                            Parsed {
                                result: Ok(
                                    node(
                                        ExpressionKindView::If {
                                            condition: Box::new(condition),
                                            then_branch: Box::new(then_branch),
                                            else_branch: None,
                                        },
                                        token.0,
                                    ),
                                ),
                                consumed: first.consumed + 1 + second.consumed,
                            }
                        },
                    }
                },
            }
        },
    }
}

/// The head of a `let`, up to and with the `=`: the name, and the declared
/// type where a colon follows the name.
pub open spec fn parsed_binding(tokens: Seq<Token>, pos: int, token: Token) -> Parsed<
    ((Span, Identifier), Option<Type>, Span),
> {
    let name = expected_token(tokens, pos, TokenKind::Identifier(0), token.0);
    match name.result {
        Err(error) => failed(error, name.consumed),
        Ok(name_token) => {
            let bound = (name_token.0, Identifier(name_token.1->Identifier_0));
            if 0 <= pos + 1 < tokens.len() && tokens[pos + 1].1 == TokenKind::Colon {
                let colon = tokens[pos + 1];
                let declared = consumed_token(tokens, pos + 2, colon.0);
                match declared.result {
                    Err(error) => failed(error, 2 + declared.consumed),
                    Ok(type_token) => match type_named(type_token.1) {
                        None => failed(ErrorView::UnexpectedToken(type_token.0), 3),
                        Some(ty) => {
                            let equals = expected_token(
                                tokens,
                                pos + 3,
                                TokenKind::EqualSign,
                                type_token.0,
                            );
                            match equals.result {
                                Err(error) => failed(error, 3 + equals.consumed),
                                Ok(equals_token) => Parsed {
                                    result: Ok((bound, Some(ty), equals_token.0)),
                                    consumed: 4,
                                },
                            }
                        },
                    },
                }
            } else {
                let equals = expected_token(tokens, pos + 1, TokenKind::EqualSign, name_token.0);
                match equals.result {
                    Err(error) => failed(error, 1 + equals.consumed),
                    Ok(equals_token) => Parsed {
                        result: Ok((bound, None, equals_token.0)),
                        consumed: 2,
                    },
                }
            }
        },
    }
}

/// A `let`: a name, an optional type behind a colon, `=`, and the
/// initializer. The node stands at the `let`.
pub open spec fn parsed_let(grammar: Grammar, tokens: Seq<Token>, pos: int, token: Token) -> Parsed<
    ExpressionView,
>
    decreases remaining(tokens, pos), 1int,
{
    let head = parsed_binding(tokens, pos, token);
    match head.result {
        Err(error) => failed(error, head.consumed),
        Ok(binding) => {
            let value = parsed_expression(grammar, tokens, pos + head.consumed, 0, binding.2);
            match value.result {
                Err(error) => failed(error, head.consumed + value.consumed),
                Ok(expression) => Parsed {
                    result: Ok(
                        node(
                            ExpressionKindView::Let {
                                name: binding.0,
                                given_type: binding.1,
                                expression: Box::new(expression),
                            },
                            token.0,
                        ),
                    ),
                    consumed: head.consumed + value.consumed,
                },
            }
        },
    }
}

/// The infix operator at `pos` and its rule, where there is one that
/// extends an expression parsed at `precedence`.
pub open spec fn infix_at(grammar: Grammar, tokens: Seq<Token>, pos: int, precedence: usize) -> Option<
    (Token, BinaryParselet),
> {
    if 0 <= pos < tokens.len() {
        match grammar.infix[tokens[pos].1.tag_of() as int] {
            Some(rule) => if extends(rule, precedence) {
                Some((tokens[pos], rule))
            } else {
                None
            },
            None => None,
        }
    } else {
        None
    }
}

/// The expression `left`, extended by the infix operators that follow at
/// `pos` for as long as `extends` allows it.
pub open spec fn parsed_infix(
    grammar: Grammar,
    tokens: Seq<Token>,
    pos: int,
    precedence: usize,
    left: ExpressionView,
) -> Parsed<ExpressionView>
    decreases remaining(tokens, pos), 3int,
{
    match infix_at(grammar, tokens, pos, precedence) {
        Some((token, rule)) => {
            let extended = parsed_binary(grammar, tokens, pos + 1, rule, left, token);
            match extended.result {
                Err(error) => failed(error, 1 + extended.consumed),
                Ok(whole) => {
                    let rest = parsed_infix(
                        grammar,
                        tokens,
                        pos + 1 + extended.consumed,
                        precedence,
                        whole,
                    );
                    Parsed { result: rest.result, consumed: 1 + extended.consumed + rest.consumed }
                },
            }
        },
        None => Parsed { result: Ok(left), consumed: 0 },
    }
}

/// A binary operation: the right operand is parsed at the operator's own
/// precedence, and the node stands at the operator.
pub open spec fn parsed_binary(
    grammar: Grammar,
    tokens: Seq<Token>,
    pos: int,
    rule: BinaryParselet,
    left: ExpressionView,
    token: Token,
) -> Parsed<ExpressionView>
    decreases remaining(tokens, pos), 1int,
{
    let operand = parsed_expression(grammar, tokens, pos, rule.precedence, token.0);
    match operand.result {
        Err(error) => failed(error, operand.consumed),
        Ok(right) => Parsed {
            result: Ok(
                node(
                    ExpressionKindView::Binary {
                        operation: rule.operation,
                        left: Box::new(left),
                        right: Box::new(right),
                    },
                    token.0,
                ),
            ),
            consumed: operand.consumed,
        },
    }
}

/// The top-level expressions of a token sequence, and the errors of those
/// that did not parse. After an error the parse goes on with the token
/// behind the place where it was found.
pub open spec fn parsed_program(
    grammar: Grammar,
    tokens: Seq<Token>,
    pos: int,
    expressions: Seq<ExpressionView>,
    errors: Seq<ErrorView>,
) -> (Seq<ExpressionView>, Seq<ErrorView>)
    decreases remaining(tokens, pos),
{
    if 0 <= pos < tokens.len() {
        let next = parsed_expression(grammar, tokens, pos, 0, tokens[pos].0);
        match next.result {
            Ok(expression) => parsed_program(
                grammar,
                tokens,
                pos + next.consumed,
                expressions.push(expression),
                errors,
            ),
            Err(error) => parsed_program(
                grammar,
                tokens,
                pos + next.consumed,
                expressions,
                errors.push(error),
            ),
        }
    } else {
        (expressions, errors)
    }
}

/// A parse takes at least one token where there is one to take: no input is
/// looked at twice.
pub proof fn lemma_parse_advances(
    grammar: Grammar,
    tokens: Seq<Token>,
    pos: int,
    precedence: usize,
    span: Span,
)
    requires
        0 <= pos < tokens.len(),
    ensures
        parsed_expression(grammar, tokens, pos, precedence, span).consumed >= 1,
{
}

/// The prefix parselet that the default grammar has for the kind numbered
/// `tag`.
pub open spec fn default_prefix(tag: int) -> Option<PrefixParselet> {
    if tag == TokenKind::IntegerLiteral(0).tag_of() {
        Some(PrefixParselet::Int)
    } else if tag == TokenKind::FloatLiteral(0).tag_of() {
        Some(PrefixParselet::Float)
    } else if tag == TokenKind::BooleanLiteral(false).tag_of() {
        Some(PrefixParselet::Boolean)
    } else if tag == TokenKind::StringLiteral(0).tag_of() {
        Some(PrefixParselet::String)
    } else if tag == TokenKind::Identifier(0).tag_of() {
        Some(PrefixParselet::Identifier)
    } else if tag == TokenKind::LeftParenthesis.tag_of() {
        Some(PrefixParselet::Grouping)
    } else if tag == TokenKind::Plus.tag_of() {
        Some(PrefixParselet::Unary(UnaryOperation::Plus))
    } else if tag == TokenKind::Minus.tag_of() {
        Some(PrefixParselet::Unary(UnaryOperation::Minus))
    } else if tag == TokenKind::Not.tag_of() {
        Some(PrefixParselet::Unary(UnaryOperation::Not))
    } else if tag == TokenKind::If.tag_of() {
        Some(PrefixParselet::If)
    } else if tag == TokenKind::Let.tag_of() {
        Some(PrefixParselet::Let)
    } else {
        None
    }
}

/// A left-associative operator of the given precedence.
pub open spec fn left_binary(operation: BinaryOperation, precedence: usize) -> BinaryParselet {
    BinaryParselet { operation, precedence, associativity: Associativity::Left }
}

/// The infix parselet that the default grammar has for the kind numbered
/// `tag`: the four arithmetic operators, which group to the left, the
/// multiplicative ones binding tighter than the additive ones.
pub open spec fn default_infix(tag: int) -> Option<BinaryParselet> {
    if tag == TokenKind::Plus.tag_of() {
        Some(left_binary(BinaryOperation::Plus, SUM_PRECEDENCE))
    } else if tag == TokenKind::Minus.tag_of() {
        Some(left_binary(BinaryOperation::Minus, SUM_PRECEDENCE))
    } else if tag == TokenKind::Star.tag_of() {
        Some(left_binary(BinaryOperation::Multiply, PRODUCT_PRECEDENCE))
    } else if tag == TokenKind::Slash.tag_of() {
        Some(left_binary(BinaryOperation::Divide, PRODUCT_PRECEDENCE))
    } else {
        None
    }
}

/// The grammar that a new parser has.
pub open spec fn default_grammar() -> Grammar {
    Grammar {
        prefix: Seq::new(KIND_COUNT as nat, |tag: int| default_prefix(tag)),
        infix: Seq::new(KIND_COUNT as nat, |tag: int| default_infix(tag)),
    }
}

} // verus!
