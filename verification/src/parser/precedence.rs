//! How operators group: the law of precedence climbing for two operators
//! between three operands.

use crate::error::Span;
use crate::lexer::token::Token;
use crate::parser::expression::{node, BinaryOperation, ExpressionKindView, ExpressionView};
use crate::parser::parselets::prefix_parselet::PrefixParselet;
use crate::parser::grammar::{
    extends, infix_at, leaf, parsed_binary, parsed_expression, parsed_infix, parsed_prefix,
    Grammar, Parsed,
};
use vstd::prelude::*;

verus! {

/// Whether the grammar reads a token of this kind as a leaf: a literal or a
/// name.
pub open spec fn reads_leaf(grammar: Grammar, token: Token) -> bool {
    match grammar.prefix[token.1.tag_of() as int] {
        Some(PrefixParselet::Int) | Some(PrefixParselet::Float) | Some(PrefixParselet::Boolean)
        | Some(PrefixParselet::String) | Some(PrefixParselet::Identifier) => true,
        _ => false,
    }
}

/// The node of a binary operation at `span`.
pub open spec fn binary_node(
    operation: BinaryOperation,
    left: ExpressionView,
    right: ExpressionView,
    span: Span,
) -> ExpressionView {
    node(
        ExpressionKindView::Binary { operation, left: Box::new(left), right: Box::new(right) },
        span,
    )
}

/// A parse that passed with the given tree and took `consumed` tokens.
pub open spec fn passed(tree: ExpressionView, consumed: nat) -> Parsed<ExpressionView> {
    Parsed { result: Ok(tree), consumed }
}

/// A leaf at the end of the input, or before a token that does not extend
/// it, parses to itself.
pub proof fn lemma_last_operand(
    grammar: Grammar,
    tokens: Seq<Token>,
    pos: int,
    precedence: usize,
    span: Span,
)
    requires
        0 <= pos < tokens.len(),
        reads_leaf(grammar, tokens[pos]),
        infix_at(grammar, tokens, pos + 1, precedence) is None,
    ensures
        parsed_expression(grammar, tokens, pos, precedence, span) == passed(leaf(tokens[pos]), 1),
{
    let parselet = grammar.prefix[tokens[pos].1.tag_of() as int]->Some_0;
    assert(parsed_prefix(grammar, tokens, pos + 1, parselet, tokens[pos]) == passed(
        leaf(tokens[pos]),
        0,
    ));
    assert(parsed_infix(grammar, tokens, pos + 1, precedence, leaf(tokens[pos])) == passed(
        leaf(tokens[pos]),
        0,
    ));
}

/// Two operators between three operands. The second operator takes the
/// middle operand where it binds tighter than the first, or as tight and to
/// the right; otherwise the first operator takes it, and the second joins
/// what the first has made. So of two operators of one precedence that
/// group to the left, the left one is applied first.
pub proof fn lemma_precedence_climbing(
    grammar: Grammar,
    a: Token,
    first: Token,
    b: Token,
    second: Token,
    c: Token,
    span: Span,
)
    requires
        reads_leaf(grammar, a),
        reads_leaf(grammar, b),
        reads_leaf(grammar, c),
        grammar.infix[first.1.tag_of() as int] is Some,
        grammar.infix[second.1.tag_of() as int] is Some,
        extends(grammar.infix[first.1.tag_of() as int]->Some_0, 0),
        extends(grammar.infix[second.1.tag_of() as int]->Some_0, 0),
    ensures
        ({
            let outer = grammar.infix[first.1.tag_of() as int]->Some_0;
            let inner = grammar.infix[second.1.tag_of() as int]->Some_0;
            let parsed = parsed_expression(grammar, seq![a, first, b, second, c], 0, 0, span);
            parsed == passed(
                if extends(inner, outer.precedence) {
                    binary_node(
                        outer.operation,
                        leaf(a),
                        binary_node(inner.operation, leaf(b), leaf(c), second.0),
                        first.0,
                    )
                } else {
                    binary_node(
                        inner.operation,
                        binary_node(outer.operation, leaf(a), leaf(b), first.0),
                        leaf(c),
                        second.0,
                    )
                },
                5,
            )
        }),
{
    let tokens = seq![a, first, b, second, c];
    let outer = grammar.infix[first.1.tag_of() as int]->Some_0;
    let inner = grammar.infix[second.1.tag_of() as int]->Some_0;
    let head = grammar.prefix[a.1.tag_of() as int]->Some_0;
    assert(parsed_prefix(grammar, tokens, 1, head, a) == passed(leaf(a), 0));
    assert(infix_at(grammar, tokens, 1, 0) == Some((first, outer)));
    assert(tokens[4] == c);
    assert(infix_at(grammar, tokens, 5, inner.precedence) is None);
    assert(infix_at(grammar, tokens, 5, 0) is None);
    if extends(inner, outer.precedence) {
        lemma_last_operand(grammar, tokens, 4, inner.precedence, second.0);
        assert(parsed_binary(grammar, tokens, 4, inner, leaf(b), second) == passed(
            binary_node(inner.operation, leaf(b), leaf(c), second.0),
            1,
        ));
        let right = binary_node(inner.operation, leaf(b), leaf(c), second.0);
        assert(infix_at(grammar, tokens, 5, outer.precedence) is None);
        assert(parsed_infix(grammar, tokens, 5, outer.precedence, right) == passed(right, 0));
        assert(infix_at(grammar, tokens, 3, outer.precedence) == Some((second, inner)));
        assert(parsed_infix(grammar, tokens, 3, outer.precedence, leaf(b)) == passed(right, 2));
        let middle = grammar.prefix[b.1.tag_of() as int]->Some_0;
        assert(parsed_prefix(grammar, tokens, 3, middle, b) == passed(leaf(b), 0));
        assert(parsed_expression(grammar, tokens, 2, outer.precedence, first.0) == passed(right, 3));
        let whole = binary_node(outer.operation, leaf(a), right, first.0);
        assert(parsed_binary(grammar, tokens, 2, outer, leaf(a), first) == passed(whole, 3));
        assert(parsed_infix(grammar, tokens, 5, 0, whole) == passed(whole, 0));
        assert(parsed_infix(grammar, tokens, 1, 0, leaf(a)) == passed(whole, 4));
    } else {
        assert(infix_at(grammar, tokens, 3, outer.precedence) is None);
        lemma_last_operand(grammar, tokens, 2, outer.precedence, first.0);
        let left = binary_node(outer.operation, leaf(a), leaf(b), first.0);
        assert(parsed_binary(grammar, tokens, 2, outer, leaf(a), first) == passed(left, 1));
        lemma_last_operand(grammar, tokens, 4, inner.precedence, second.0);
        let whole = binary_node(inner.operation, left, leaf(c), second.0);
        assert(parsed_binary(grammar, tokens, 4, inner, left, second) == passed(whole, 1));
        assert(parsed_infix(grammar, tokens, 5, 0, whole) == passed(whole, 0));
        assert(infix_at(grammar, tokens, 3, 0) == Some((second, inner)));
        assert(parsed_infix(grammar, tokens, 3, 0, left) == passed(whole, 2));
        assert(parsed_infix(grammar, tokens, 1, 0, leaf(a)) == passed(whole, 4));
    }
}

} // verus!
