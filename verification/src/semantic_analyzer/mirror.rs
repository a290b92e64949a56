//! What a check keeps: the checked tree mirrors the tree it was made from,
//! and only the innermost scope is written to.

use crate::parser::expression::{ExpressionKindView, ExpressionView, Identifier};
use crate::parser::typed_expression::{TypedExpressionKindView, TypedExpressionView};
use crate::semantic_analyzer::rules::{
    binds, checked_block_from, checked_expression, same_outer_scopes, Scopes,
};
use vstd::prelude::*;

verus! {

/// The tree that is left when the types are taken off a checked tree.
pub open spec fn erased(checked: TypedExpressionView) -> ExpressionView
    decreases checked,
{
    ExpressionView {
        span: checked.span,
        kind: match checked.kind {
            TypedExpressionKindView::Int(value) => ExpressionKindView::Int(value),
            TypedExpressionKindView::Float(id) => ExpressionKindView::Float(id),
            TypedExpressionKindView::Boolean(value) => ExpressionKindView::Boolean(value),
            TypedExpressionKindView::Char(value) => ExpressionKindView::Char(value),
            TypedExpressionKindView::String(id) => ExpressionKindView::String(id),
            TypedExpressionKindView::Identifier(name) => ExpressionKindView::Identifier(
                Identifier(name.id),
            ),
            TypedExpressionKindView::Unary { operation, expression, .. } => ExpressionKindView::Unary {
                operation,
                expression: Box::new(erased(*expression)),
            },
            TypedExpressionKindView::Binary { operation, left, right, .. } => ExpressionKindView::Binary {
                operation,
                left: Box::new(erased(*left)),
                right: Box::new(erased(*right)),
            },
            TypedExpressionKindView::If { condition, then_branch, else_branch, .. } => ExpressionKindView::If {
                condition: Box::new(erased(*condition)),
                then_branch: Box::new(erased(*then_branch)),
                else_branch: match else_branch {
                    Some(branch) => Some(Box::new(erased(*branch))),
                    None => None,
                },
            },
            TypedExpressionKindView::Let { name, given_type, expression, .. } => ExpressionKindView::Let {
                name: (name.0, Identifier(name.1.id)),
                given_type,
                expression: Box::new(erased(*expression)),
            },
            TypedExpressionKindView::Block(expressions) => ExpressionKindView::Block(
                Seq::new(
                    expressions.len(),
                    |i: int|
                        if 0 <= i < expressions.len() {
                            erased(expressions[i])
                        } else {
                            arbitrary()
                        },
                ),
            ),
        },
    }
}

/// Whether one of the expressions from `start` on holds a `let`.
pub open spec fn binds_from(expressions: Seq<ExpressionView>, start: int) -> bool {
    exists|i: int| start <= i < expressions.len() && binds(#[trigger] expressions[i])
}

/// A check that passes gives a tree that differs from the one it was given
/// only in the types that it adds: the same nodes at the same places. Pass
/// or fail, it leaves the number of scopes as it was and writes to none but
/// the innermost.
pub proof fn lemma_check_mirrors(expression: ExpressionView, scopes: Scopes)
    requires
        binds(expression) ==> scopes.len() > 0,
    ensures
        same_outer_scopes(checked_expression(expression, scopes).scopes, scopes),
        checked_expression(expression, scopes).result matches Ok(checked) ==> erased(checked)
            == expression,
    decreases expression, 0int,
{
    match expression.kind {
        ExpressionKindView::Unary { operation, expression: operand } => {
            lemma_check_mirrors(*operand, scopes);
        },
        ExpressionKindView::Binary { operation, left, right } => {
            lemma_check_mirrors(*left, scopes);
            let first = checked_expression(*left, scopes);
            if first.result is Ok {
                lemma_check_mirrors(*right, first.scopes);
            }
        },
        ExpressionKindView::If { condition, then_branch, else_branch } => {
            lemma_check_mirrors(*condition, scopes);
            let first = checked_expression(*condition, scopes);
            if first.result is Ok {
                lemma_check_mirrors(*then_branch, first.scopes);
                let second = checked_expression(*then_branch, first.scopes);
                if second.result is Ok && else_branch is Some {
                    lemma_check_mirrors(*else_branch->Some_0, second.scopes);
                }
            }
        },
        ExpressionKindView::Let { name, given_type, expression: initializer } => {
            lemma_check_mirrors(*initializer, scopes);
        },
        ExpressionKindView::Block(expressions) => {
            if binds_from(expressions, 0) {
                let i = choose|i: int| 0 <= i < expressions.len() && binds(#[trigger] expressions[i]);
                assert(binds(expression));
            }
            lemma_check_block_mirrors(expressions, 0, Seq::empty(), scopes);
            let inner = checked_block_from(expressions, 0, Seq::empty(), scopes);
            if inner.result is Ok {
                let values = inner.result->Ok_0;
                let checked = checked_expression(expression, scopes).result->Ok_0;
                assert(erased(checked).kind->Block_0 =~= expressions);
            }
        },
        _ => {},
    }
}

/// The same for the expressions of a block from `start` on: each checked
/// expression mirrors the expression at its place.
pub proof fn lemma_check_block_mirrors(
    expressions: Seq<ExpressionView>,
    start: int,
    done: Seq<TypedExpressionView>,
    scopes: Scopes,
)
    requires
        0 <= start <= expressions.len(),
        binds_from(expressions, start) ==> scopes.len() > 0,
    ensures
        same_outer_scopes(checked_block_from(expressions, start, done, scopes).scopes, scopes),
        checked_block_from(expressions, start, done, scopes).result matches Ok(values) ==> {
            &&& values.len() == done.len() + expressions.len() - start
            &&& done.is_prefix_of(values)
            &&& forall|j: int|
                done.len() <= j < values.len() ==> erased(#[trigger] values[j]) == expressions[start
                    + j - done.len()]
        },
    decreases expressions, expressions.len() - start,
{
    if start < expressions.len() {
        if binds(expressions[start]) {
            assert(binds_from(expressions, start));
        }
        lemma_check_mirrors(expressions[start], scopes);
        let next = checked_expression(expressions[start], scopes);
        if next.result is Ok {
            let value = next.result->Ok_0;
            if binds_from(expressions, start + 1) {
                let i = choose|i: int|
                    start + 1 <= i < expressions.len() && binds(#[trigger] expressions[i]);
                assert(binds_from(expressions, start));
            }
            lemma_check_block_mirrors(expressions, start + 1, done.push(value), next.scopes);
            let out = checked_block_from(expressions, start, done, scopes);
            if out.result is Ok {
                let values = out.result->Ok_0;
                assert(values[done.len() as int] == done.push(value)[done.len() as int]);
            }
        }
    }
}

} // verus!
