//! The checker: it walks the syntax tree, consults and extends the scopes,
//! and builds the typed tree that the typing rules describe.

use crate::environment::Environment;
use crate::error::{outcome, Error, ErrorView, Span};
use crate::parser::ast::{Function, Parameter, Program};
use crate::parser::expression::{
    lemma_block_view, node, Binary, BinaryOperation, Expression, ExpressionKind,
    ExpressionKindView, Identifier, If, Let, Unary, UnaryOperation,
};
use crate::parser::typed_ast::{
    TypedFunction, TypedFunctionView, TypedParameter, TypedProgram, TypedPrototype,
};
use crate::parser::typed_expression::{
    lemma_typed_block_view, TypedBinary, TypedExpression, TypedExpressionKind,
    TypedExpressionView, TypedIdentifier, TypedIf, TypedLet, TypedUnary,
};
use crate::semantic_analyzer::rules::{
    binary_result_type, binds, checked_block, checked_block_from, checked_expression,
    checked_function, checked_program, checks_to, failures, first_void, passes,
    same_outer_scopes, type_of, typed_parameter, unary_result_type, with_parameters, Checked,
    Scopes,
};
use crate::semantic_analyzer::types::Type;
use vstd::prelude::*;

verus! {

/// The type that a checked node carries.
pub fn get_type(typed_expression_kind: &TypedExpressionKind) -> (ty: Type)
    ensures
        ty == type_of(typed_expression_kind@),
    decreases typed_expression_kind,
{
    match typed_expression_kind {
        TypedExpressionKind::Int(_) => Type::Int,
        TypedExpressionKind::Float(_) => Type::Float,
        TypedExpressionKind::Boolean(_) => Type::Boolean,
        TypedExpressionKind::Char(_) => Type::Char,
        TypedExpressionKind::String(_) => Type::String,
        TypedExpressionKind::Identifier(inner) => inner.ty,
        TypedExpressionKind::Unary(inner) => inner.ty,
        TypedExpressionKind::Binary(inner) => inner.ty,
        TypedExpressionKind::If(inner) => inner.ty,
        TypedExpressionKind::Let(inner) => inner.ty,
        TypedExpressionKind::Block(expressions) => {
            let count: usize = expressions.len();
            if count == 0 {
                Type::Void
            } else {
                get_type(&expressions[count - 1].kind)
            }
        },
    }
}

fn unary_type(operation: UnaryOperation, operand: Type) -> (ty: Option<Type>)
    ensures
        ty == unary_result_type(operation, operand),
{
    match (operation, operand) {
        (UnaryOperation::Plus, Type::Int) => Some(Type::Int),
        (UnaryOperation::Plus, Type::Float) => Some(Type::Float),
        (UnaryOperation::Minus, Type::Int) => Some(Type::Int),
        (UnaryOperation::Minus, Type::Float) => Some(Type::Float),
        (UnaryOperation::Not, Type::Boolean) => Some(Type::Boolean),
        _ => None,
    }
}

fn binary_type(operation: BinaryOperation, left: Type, right: Type) -> (ty: Option<Type>)
    ensures
        ty == binary_result_type(operation, left, right),
{
    match (operation, left, right) {
        (BinaryOperation::Plus, Type::Int, Type::Int) => Some(Type::Int),
        (BinaryOperation::Plus, Type::Float, Type::Float) => Some(Type::Float),
        (BinaryOperation::Minus, Type::Int, Type::Int) => Some(Type::Int),
        (BinaryOperation::Minus, Type::Float, Type::Float) => Some(Type::Float),
        (BinaryOperation::Multiply, Type::Int, Type::Int) => Some(Type::Int),
        (BinaryOperation::Multiply, Type::Float, Type::Float) => Some(Type::Float),
        (BinaryOperation::Divide, Type::Int, Type::Int) => Some(Type::Int),
        (BinaryOperation::Divide, Type::Float, Type::Float) => Some(Type::Float),
        _ => None,
    }
}

/// Checks an expression: the typed tree, or the first error met.
pub fn check_expression(expression: Expression, env: &mut Environment<Type>) -> (result: Result<
    TypedExpression,
    Error,
>)
    requires
        binds(expression@) ==> old(env)@.len() > 0,
    ensures
        checks_to(result, final(env)@, expression@, old(env)@),
    decreases expression,
{
    let Expression { kind, span } = expression;
    match kind {
        ExpressionKind::Int(value) => Ok(TypedExpression { kind: TypedExpressionKind::Int(value), span }),
        ExpressionKind::Float(id) => Ok(TypedExpression { kind: TypedExpressionKind::Float(id), span }),
        ExpressionKind::Boolean(value) => Ok(
            TypedExpression { kind: TypedExpressionKind::Boolean(value), span },
        ),
        ExpressionKind::Char(value) => Ok(TypedExpression { kind: TypedExpressionKind::Char(value), span }),
        ExpressionKind::String(id) => Ok(TypedExpression { kind: TypedExpressionKind::String(id), span }),
        ExpressionKind::Identifier(inner) => check_identifier(inner, span, env),
        ExpressionKind::Unary(inner) => check_unary(inner, span, env),
        ExpressionKind::Binary(inner) => check_binary(inner, span, env),
        ExpressionKind::If(inner) => check_if(inner, span, env),
        ExpressionKind::Let(inner) => check_let(inner, span, env),
        ExpressionKind::Block(expressions) => {
            proof {
                lemma_block_view(expressions);
                let views = expressions.deep_view();
                assert(expression@.kind == ExpressionKindView::Block(views));
                if exists|i: int| 0 <= i < views.len() && binds(#[trigger] views[i]) {
                    let i = choose|i: int| 0 <= i < views.len() && binds(#[trigger] views[i]);
                    let whole = expression@;
                    assert(0 <= i < whole.kind->Block_0.len() && binds(whole.kind->Block_0[i]));
                }
            }
            match check_block(expressions, env) {
                Ok(values) => {
                    proof {
                        lemma_typed_block_view(values);
                    }
                    Ok(TypedExpression { kind: TypedExpressionKind::Block(values), span })
                },
                Err(error) => Err(error),
            }
        },
    }
}

/// The items in the opposite order.
fn reversed<T>(items: Vec<T>) -> (out: Vec<T>)
    ensures
        out@ == items@.reverse(),
{
    let ghost all = items@;
    let mut items = items;
    let mut out: Vec<T> = Vec::new();
    while items.len() > 0
        invariant
            items@.len() + out@.len() == all.len(),
            items@ == all.take(items@.len() as int),
            forall|j: int| 0 <= j < out@.len() ==> out@[j] == all[all.len() - 1 - j],
        decreases items.len(),
    {
        match items.pop() {
            Some(item) => {
                out.push(item);
            },
            None => {},
        }
    }
    assert(out@ =~= all.reverse());
    out
}

/// Checks the expressions of a block in order, up to the first that fails.
pub fn check_block(expressions: Vec<Expression>, env: &mut Environment<Type>) -> (result: Result<
    Vec<TypedExpression>,
    Error,
>)
    requires
        (exists|i: int|
            0 <= i < expressions.deep_view().len() && binds(#[trigger] expressions.deep_view()[i]))
            ==> old(env)@.len() > 0,
    ensures
        outcome(result) == checked_block(expressions.deep_view(), old(env)@).result,
        final(env)@ == checked_block(expressions.deep_view(), old(env)@).scopes,
        same_outer_scopes(final(env)@, old(env)@),
    decreases expressions,
{
    let ghost all = expressions.deep_view();
    let ghost before = env@;
    let count: usize = expressions.len();
    let mut pending = reversed(expressions);
    let mut done: Vec<TypedExpression> = Vec::new();
    let mut index: usize = 0;
    assert(done.deep_view() =~= Seq::<TypedExpressionView>::empty());
    while index < count
        invariant
            all == expressions.deep_view(),
            before == old(env)@,
            count == expressions.len(),
            count == all.len(),
            index <= count,
            pending@.len() == count - index,
            forall|j: int| 0 <= j < pending@.len() ==> pending@[j] == expressions@[count - 1 - j],
            same_outer_scopes(env@, before),
            (exists|i: int| 0 <= i < all.len() && binds(#[trigger] all[i])) ==> before.len() > 0,
            checked_block(all, before) == checked_block_from(
                all,
                index as int,
                done.deep_view(),
                env@,
            ),
        decreases count - index,
    {
        match pending.pop() {
            Some(expression) => {
                assert(expression == expressions@[index as int]);
                assert(all[index as int] == expression@);
                let ghost earlier = done.deep_view();
                match check_expression(expression, env) {
                    Ok(value) => {
                        done.push(value);
                        assert(done.deep_view() =~= earlier.push(value@));
                    },
                    Err(error) => {
                        return Err(error);
                    },
                }
            },
            None => {},
        }
        index = index + 1;
    }
    Ok(done)
}

/// Resolves a name in the scopes.
pub fn check_identifier(inner: Identifier, span: Span, env: &mut Environment<Type>) -> (result: Result<
    TypedExpression,
    Error,
>)
    ensures
        checks_to(result, final(env)@, node(ExpressionKindView::Identifier(inner), span), old(env)@),
{
    match env.get(inner.0) {
        Some(ty) => Ok(
            TypedExpression {
                kind: TypedExpressionKind::Identifier(TypedIdentifier { id: inner.0, ty }),
                span,
            },
        ),
        None => Err(Error::UndefinedVariable(span)),
    }
}

/// Checks a unary operation: the operand first, then the operator against
/// the operand's type.
pub fn check_unary(inner: Unary, span: Span, env: &mut Environment<Type>) -> (result: Result<
    TypedExpression,
    Error,
>)
    requires
        binds(node(inner@, span)) ==> old(env)@.len() > 0,
    ensures
        checks_to(result, final(env)@, node(inner@, span), old(env)@),
    decreases inner,
{
    let Unary { operation, expression } = inner;
    let typed_expression = match check_expression(*expression, env) {
        Ok(value) => value,
        Err(error) => {
            return Err(error);
        },
    };
    let expression_type = get_type(&typed_expression.kind);
    match unary_type(operation, expression_type) {
        Some(operation_ty) => Ok(
            TypedExpression {
                kind: TypedExpressionKind::Unary(
                    TypedUnary {
                        operation,
                        expression: Box::new(typed_expression),
                        ty: operation_ty,
                    },
                ),
                span,
            },
        ),
        None => {
            let operands = vec![(typed_expression.span, expression_type)];
            assert(operands@ =~= seq![(typed_expression.span, expression_type)]);
            Err(Error::UnsupportedOperation { operation_span: span, operands })
        },
    }
}

/// Checks a binary operation: the left operand, then the right one, then the
/// operator against both types.
pub fn check_binary(inner: Binary, span: Span, env: &mut Environment<Type>) -> (result: Result<
    TypedExpression,
    Error,
>)
    requires
        binds(node(inner@, span)) ==> old(env)@.len() > 0,
    ensures
        checks_to(result, final(env)@, node(inner@, span), old(env)@),
    decreases inner,
{
    let Binary { operation, left, right } = inner;
    let typed_left = match check_expression(*left, env) {
        Ok(value) => value,
        Err(error) => {
            return Err(error);
        },
    };
    let typed_right = match check_expression(*right, env) {
        Ok(value) => value,
        Err(error) => {
            return Err(error);
        },
    };
    let left_type = get_type(&typed_left.kind);
    let right_type = get_type(&typed_right.kind);
    match binary_type(operation, left_type, right_type) {
        Some(result_type) => Ok(
            TypedExpression {
                kind: TypedExpressionKind::Binary(
                    TypedBinary {
                        operation,
                        left: Box::new(typed_left),
                        right: Box::new(typed_right),
                        ty: result_type,
                    },
                ),
                span,
            },
        ),
        None => {
            let operands = vec![(typed_left.span, left_type), (typed_right.span, right_type)];
            assert(operands@ =~= seq![
                (typed_left.span, left_type),
                (typed_right.span, right_type),
            ]);
            Err(Error::UnsupportedOperation { operation_span: span, operands })
        },
    }
}

/// Checks an `if`: the condition, which must be a `Boolean`, then the
/// branches, which must agree where there are two.
pub fn check_if(inner: If, span: Span, env: &mut Environment<Type>) -> (result: Result<
    TypedExpression,
    Error,
>)
    requires
        binds(node(inner@, span)) ==> old(env)@.len() > 0,
    ensures
        checks_to(result, final(env)@, node(inner@, span), old(env)@),
    decreases inner,
{
    let If { condition, then_branch, else_branch } = inner;
    let typed_condition = match check_expression(*condition, env) {
        Ok(value) => value,
        Err(error) => {
            return Err(error);
        },
    };
    let condition_type = get_type(&typed_condition.kind);
    if condition_type != Type::Boolean {
        return Err(
            Error::TypeMismatch {
                span: typed_condition.span,
                expected_type: Type::Boolean,
                actual_type: condition_type,
            },
        );
    }
    let typed_then = match check_expression(*then_branch, env) {
        Ok(value) => value,
        Err(error) => {
            return Err(error);
        },
    };
    let then_type = get_type(&typed_then.kind);
    match else_branch {
        Some(branch) => {
            let typed_else = match check_expression(*branch, env) {
                Ok(value) => value,
                Err(error) => {
                    return Err(error);
                },
            };
            let else_type = get_type(&typed_else.kind);
            if then_type == else_type {
                Ok(
                    TypedExpression {
                        kind: TypedExpressionKind::If(
                            TypedIf {
                                condition: Box::new(typed_condition),
                                then_branch: Box::new(typed_then),
                                else_branch: Some(Box::new(typed_else)),
                                ty: then_type,
                            },
                        ),
                        span,
                    },
                )
            } else {
                Err(
                    Error::ConflictingType {
                        first_span: typed_then.span,
                        first_type: then_type,
                        second_span: typed_else.span,
                        second_type: else_type,
                    },
                )
            }
        },
        None => Ok(
            TypedExpression {
                kind: TypedExpressionKind::If(
                    TypedIf {
                        condition: Box::new(typed_condition),
                        then_branch: Box::new(typed_then),
                        else_branch: None,
                        ty: Type::Void,
                    },
                ),
                span,
            },
        ),
    }
}

/// Checks a `let`: the initializer, then the declared type against its type,
/// and binds the name in the innermost scope.
pub fn check_let(inner: Let, span: Span, env: &mut Environment<Type>) -> (result: Result<
    TypedExpression,
    Error,
>)
    requires
        old(env)@.len() > 0,
    ensures
        checks_to(result, final(env)@, node(inner@, span), old(env)@),
    decreases inner,
{
    let Let { name, given_type, expression } = inner;
    let typed_expression = match check_expression(*expression, env) {
        Ok(value) => value,
        Err(error) => {
            return Err(error);
        },
    };
    let expression_type = get_type(&typed_expression.kind);
    match given_type {
        Some(declared) => {
            if expression_type != declared {
                return Err(
                    Error::ConflictingType {
                        first_span: name.0,
                        first_type: declared,
                        second_span: typed_expression.span,
                        second_type: expression_type,
                    },
                );
            }
        },
        None => {},
    }
    let (identifier_span, Identifier(identifier_id)) = name;
    let typed_name = (identifier_span, TypedIdentifier { id: identifier_id, ty: expression_type });
    env.define(identifier_id, expression_type);
    Ok(
        TypedExpression {
            kind: TypedExpressionKind::Let(
                TypedLet {
                    name: typed_name,
                    given_type,
                    expression: Box::new(typed_expression),
                    ty: expression_type,
                },
            ),
            span,
        },
    )
}

/// What can be type checked on its own: `check` turns the value into its
/// checked form or reports why it has none.
pub trait TypeCheck: Sized {
    type Output: DeepView;

    type Error: DeepView;

    /// The scopes in which `check` may be called on this value.
    spec fn checkable(&self, scopes: Scopes) -> bool;

    /// What `check` leads to in the given scopes.
    spec fn checked(&self, scopes: Scopes) -> Checked<
        <Self::Output as DeepView>::V,
        <Self::Error as DeepView>::V,
    >;

    fn check(self, env: &mut Environment<Type>) -> (result: Result<Self::Output, Self::Error>)
        requires
            self.checkable(old(env)@),
        ensures
            outcome(result) == self.checked(old(env)@).result,
            final(env)@ == self.checked(old(env)@).scopes,
    ;
}

/// What can be type checked once it is told where it stands in the source.
pub trait TypeCheckSpan: Sized {
    type Output: DeepView;

    type Error: DeepView;

    /// The scopes in which `check_span` may be called on this value.
    spec fn checkable_at(&self, span: Span, scopes: Scopes) -> bool;

    /// What `check_span` leads to in the given scopes.
    spec fn checked_at(&self, span: Span, scopes: Scopes) -> Checked<
        <Self::Output as DeepView>::V,
        <Self::Error as DeepView>::V,
    >;

    fn check_span(self, span: Span, env: &mut Environment<Type>) -> (result: Result<
        Self::Output,
        Self::Error,
    >)
        requires
            self.checkable_at(span, old(env)@),
        ensures
            outcome(result) == self.checked_at(span, old(env)@).result,
            final(env)@ == self.checked_at(span, old(env)@).scopes,
    ;
}

/// The scopes in which the item at index `count` is checked: those that the
/// items before it have left, one after the other.
pub open spec fn scopes_before<T: TypeCheck>(items: Seq<T>, count: int, scopes: Scopes) -> Scopes
    decreases count,
{
    if count <= 0 {
        scopes
    } else {
        items[count - 1].checked(scopes_before(items, count - 1, scopes)).scopes
    }
}

/// What checking the item at `index` leads to, after the items before it.
pub open spec fn item_checked<T: TypeCheck>(items: Seq<T>, index: int, scopes: Scopes) -> Checked<
    <T::Output as DeepView>::V,
    <T::Error as DeepView>::V,
> {
    items[index].checked(scopes_before(items, index, scopes))
}

/// The checked forms of those of the first `count` items that pass, in order.
pub open spec fn values_upto<T: TypeCheck>(items: Seq<T>, count: int, scopes: Scopes) -> Seq<
    <T::Output as DeepView>::V,
>
    decreases count,
{
    if count <= 0 {
        Seq::empty()
    } else {
        let earlier = values_upto(items, count - 1, scopes);
        match item_checked(items, count - 1, scopes).result {
            Ok(value) => earlier.push(value),
            Err(_) => earlier,
        }
    }
}

/// The errors of those of the first `count` items that fail, in order.
pub open spec fn errors_upto<T: TypeCheck>(items: Seq<T>, count: int, scopes: Scopes) -> Seq<
    <T::Error as DeepView>::V,
>
    decreases count,
{
    if count <= 0 {
        Seq::empty()
    } else {
        let earlier = errors_upto(items, count - 1, scopes);
        match item_checked(items, count - 1, scopes).result {
            Ok(_) => earlier,
            Err(error) => earlier.push(error),
        }
    }
}

/// Every item of a sequence is checked, also after one has failed. The
/// whole fails with all the errors, in order, if there is any; otherwise it
/// gives all the checked forms.
impl<T: TypeCheck> TypeCheck for Vec<T> {
    type Output = Vec<T::Output>;

    type Error = Vec<T::Error>;

    open spec fn checkable(&self, scopes: Scopes) -> bool {
        forall|index: int|
            0 <= index < self@.len() ==> (#[trigger] self@[index]).checkable(
                scopes_before(self@, index, scopes),
            )
    }

    open spec fn checked(&self, scopes: Scopes) -> Checked<
        Seq<<T::Output as DeepView>::V>,
        Seq<<T::Error as DeepView>::V>,
    > {
        let count = self@.len() as int;
        let errors = errors_upto(self@, count, scopes);
        Checked {
            result: if errors.len() > 0 {
                Err(errors)
            } else {
                Ok(values_upto(self@, count, scopes))
            },
            scopes: scopes_before(self@, count, scopes),
        }
    }

    fn check(self, env: &mut Environment<Type>) -> (result: Result<Vec<T::Output>, Vec<T::Error>>) {
        let ghost all = self@;
        let ghost before = env@;
        let count: usize = self.len();
        let mut pending = reversed(self);
        let mut results: Vec<T::Output> = Vec::new();
        let mut errors: Vec<T::Error> = Vec::new();
        let mut index: usize = 0;
        assert(results.deep_view() =~= values_upto(all, 0, before));
        assert(errors.deep_view() =~= errors_upto(all, 0, before));
        while index < count
            invariant
                all == self@,
                before == old(env)@,
                count == all.len(),
                index <= count,
                self.checkable(before),
                pending@.len() == count - index,
                forall|j: int| 0 <= j < pending@.len() ==> pending@[j] == all[count - 1 - j],
                env@ == scopes_before(all, index as int, before),
                results.deep_view() == values_upto(all, index as int, before),
                errors.deep_view() == errors_upto(all, index as int, before),
            decreases count - index,
        {
            match pending.pop() {
                Some(value) => {
                    assert(value == all[index as int]);
                    let ghost earlier_results = results.deep_view();
                    let ghost earlier_errors = errors.deep_view();
                    match value.check(env) {
                        Ok(checked) => {
                            results.push(checked);
                            assert(results.deep_view() =~= earlier_results.push(
                                checked.deep_view(),
                            ));
                        },
                        Err(error) => {
                            errors.push(error);
                            assert(errors.deep_view() =~= earlier_errors.push(error.deep_view()));
                        },
                    }
                },
                None => {},
            }
            index = index + 1;
        }
        if !errors.is_empty() {
            Err(errors)
        } else {
            Ok(results)
        }
    }
}

impl TypeCheck for Expression {
    type Output = TypedExpression;

    type Error = Error;

    open spec fn checkable(&self, scopes: Scopes) -> bool {
        binds(self@) ==> scopes.len() > 0
    }

    open spec fn checked(&self, scopes: Scopes) -> Checked<TypedExpressionView, ErrorView> {
        checked_expression(self@, scopes)
    }

    fn check(self, env: &mut Environment<Type>) -> (result: Result<TypedExpression, Error>)
        ensures
            same_outer_scopes(final(env)@, old(env)@),
    {
        check_expression(self, env)
    }
}

impl TypeCheck for Parameter {
    type Output = TypedParameter;

    type Error = Error;

    open spec fn checkable(&self, scopes: Scopes) -> bool {
        true
    }

    open spec fn checked(&self, scopes: Scopes) -> Checked<TypedParameter, ErrorView> {
        Checked { result: Ok(typed_parameter(*self)), scopes }
    }

    fn check(self, env: &mut Environment<Type>) -> (result: Result<TypedParameter, Error>) {
        Ok(TypedParameter::new(self.span, self.ty, self.name))
    }
}

impl TypeCheck for Function {
    type Output = TypedFunction;

    type Error = Error;

    open spec fn checkable(&self, scopes: Scopes) -> bool {
        true
    }

    /// A function is checked in a scope of its own, which is closed again
    /// whether the check passes or fails.
    open spec fn checked(&self, scopes: Scopes) -> Checked<TypedFunctionView, ErrorView> {
        Checked { result: checked_function(self@, scopes), scopes }
    }

    fn check(self, env: &mut Environment<Type>) -> (result: Result<TypedFunction, Error>) {
        let ghost before = env@;
        let Function { prototype, body } = self;
        let ghost parameters = prototype.parameters@;
        env.new_scope();
        let ghost opened = env@;
        let mut typed_params: Vec<TypedParameter> = Vec::new();
        let count: usize = prototype.parameters.len();
        let mut index: usize = 0;
        assert(typed_params@ =~= parameters.take(0).map_values(|p: Parameter| typed_parameter(p)));
        while index < count
            invariant
                parameters == prototype.parameters@,
                parameters == self@.prototype.parameters,
                before == old(env)@,
                count == parameters.len(),
                index <= count,
                opened == before.push(Map::empty()),
                env@ == with_parameters(parameters, index as int, opened),
                env@.len() == before.len() + 1,
                env@.drop_last() == before,
                first_void(parameters, 0) == first_void(parameters, index as int),
                typed_params@ == parameters.take(index as int).map_values(
                    |p: Parameter| typed_parameter(p),
                ),
            decreases count - index,
        {
            let parameter = prototype.parameters[index];
            if parameter.ty == Type::Void {
                env.remove_top_scope();
                return Err(Error::IllegalType(parameter.span));
            } else {
                let ghost earlier = env@;
                env.define(parameter.name, parameter.ty);
                assert(env@.drop_last() =~= earlier.drop_last());
                typed_params.push(TypedParameter::new(parameter.span, parameter.ty, parameter.name));
                assert(typed_params@ =~= parameters.take(index + 1).map_values(
                    |p: Parameter| typed_parameter(p),
                ));
            }
            index = index + 1;
        }
        assert(parameters.take(count as int) =~= parameters);
        let ghost inner = env@;
        match check_expression(body, env) {
            Ok(typed_body) => {
                let return_type = get_type(&typed_body.kind);
                let typed_function = TypedFunction::new(
                    TypedPrototype::new(prototype.span, prototype.name, typed_params, return_type),
                    typed_body,
                );
                assert(env@.drop_last() =~= inner.drop_last());
                env.remove_top_scope();
                Ok(typed_function)
            },
            Err(error) => {
                assert(env@.drop_last() =~= inner.drop_last());
                env.remove_top_scope();
                Err(error)
            },
        }
    }
}

/// The functions of a sequence are checked each on its own: every one of
/// them in the scopes that the first was checked in, which it leaves as they
/// were. So a function that fails does not keep a later one from being
/// checked, nor changes what the later one is checked to.
pub proof fn lemma_functions_checked_alone(functions: Seq<Function>, count: int, scopes: Scopes)
    requires
        0 <= count <= functions.len(),
    ensures
        scopes_before(functions, count, scopes) == scopes,
        errors_upto(functions, count, scopes) == failures(
            Seq::new(functions.len(), |i: int| functions[i]@),
            count,
            scopes,
        ),
        values_upto(functions, count, scopes) == passes(
            Seq::new(functions.len(), |i: int| functions[i]@),
            count,
            scopes,
        ),
    decreases count,
{
    if count > 0 {
        lemma_functions_checked_alone(functions, count - 1, scopes);
        assert(item_checked(functions, count - 1, scopes) == functions[count - 1].checked(scopes));
    }
}

impl TypeCheck for Program {
    type Output = TypedProgram;

    type Error = Vec<Error>;

    open spec fn checkable(&self, scopes: Scopes) -> bool {
        true
    }

    /// Checking a program leaves the scopes as they were.
    open spec fn checked(&self, scopes: Scopes) -> Checked<Seq<TypedFunctionView>, Seq<ErrorView>> {
        Checked { result: checked_program(self@, scopes), scopes }
    }

    fn check(self, env: &mut Environment<Type>) -> (result: Result<TypedProgram, Vec<Error>>) {
        proof {
            lemma_functions_checked_alone(self.functions@, self.functions@.len() as int, env@);
            assert(self.functions.deep_view() =~= Seq::new(
                self.functions@.len(),
                |i: int| self.functions@[i]@,
            ));
        }
        match self.functions.check(env) {
            Ok(functions) => Ok(TypedProgram { functions }),
            Err(errors) => Err(errors),
        }
    }
}

impl TypeCheckSpan for Identifier {
    type Output = TypedExpression;

    type Error = Error;

    open spec fn checkable_at(&self, span: Span, scopes: Scopes) -> bool {
        true
    }

    open spec fn checked_at(&self, span: Span, scopes: Scopes) -> Checked<
        TypedExpressionView,
        ErrorView,
    > {
        checked_expression(node(ExpressionKindView::Identifier(*self), span), scopes)
    }

    fn check_span(self, span: Span, env: &mut Environment<Type>) -> (result: Result<
        TypedExpression,
        Error,
    >) {
        check_identifier(self, span, env)
    }
}

impl TypeCheckSpan for Unary {
    type Output = TypedExpression;

    type Error = Error;

    open spec fn checkable_at(&self, span: Span, scopes: Scopes) -> bool {
        binds(node(self@, span)) ==> scopes.len() > 0
    }

    open spec fn checked_at(&self, span: Span, scopes: Scopes) -> Checked<
        TypedExpressionView,
        ErrorView,
    > {
        checked_expression(node(self@, span), scopes)
    }

    fn check_span(self, span: Span, env: &mut Environment<Type>) -> (result: Result<
        TypedExpression,
        Error,
    >) {
        check_unary(self, span, env)
    }
}

impl TypeCheckSpan for Binary {
    type Output = TypedExpression;

    type Error = Error;

    open spec fn checkable_at(&self, span: Span, scopes: Scopes) -> bool {
        binds(node(self@, span)) ==> scopes.len() > 0
    }

    open spec fn checked_at(&self, span: Span, scopes: Scopes) -> Checked<
        TypedExpressionView,
        ErrorView,
    > {
        checked_expression(node(self@, span), scopes)
    }

    fn check_span(self, span: Span, env: &mut Environment<Type>) -> (result: Result<
        TypedExpression,
        Error,
    >) {
        check_binary(self, span, env)
    }
}

impl TypeCheckSpan for If {
    type Output = TypedExpression;

    type Error = Error;

    open spec fn checkable_at(&self, span: Span, scopes: Scopes) -> bool {
        binds(node(self@, span)) ==> scopes.len() > 0
    }

    open spec fn checked_at(&self, span: Span, scopes: Scopes) -> Checked<
        TypedExpressionView,
        ErrorView,
    > {
        checked_expression(node(self@, span), scopes)
    }

    fn check_span(self, span: Span, env: &mut Environment<Type>) -> (result: Result<
        TypedExpression,
        Error,
    >) {
        check_if(self, span, env)
    }
}

impl TypeCheckSpan for Let {
    type Output = TypedExpression;

    type Error = Error;

    open spec fn checkable_at(&self, span: Span, scopes: Scopes) -> bool {
        scopes.len() > 0
    }

    open spec fn checked_at(&self, span: Span, scopes: Scopes) -> Checked<
        TypedExpressionView,
        ErrorView,
    > {
        checked_expression(node(self@, span), scopes)
    }

    fn check_span(self, span: Span, env: &mut Environment<Type>) -> (result: Result<
        TypedExpression,
        Error,
    >) {
        check_let(self, span, env)
    }
}

} // verus!
