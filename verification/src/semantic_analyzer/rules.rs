//! The typing rules: what checking an expression, a function or a program
//! leads to, as mathematical functions of the tree and the scopes.

use crate::environment::{bind, lookup};
use crate::error::{outcome, Error, ErrorView, Span};
use crate::parser::ast::{FunctionView, Parameter};
use crate::parser::expression::{
    BinaryOperation, ExpressionKindView, ExpressionView, Identifier, UnaryOperation,
};
use crate::parser::typed_ast::{TypedFunctionView, TypedParameter, TypedPrototypeView};
use crate::parser::typed_expression::{
    TypedExpression, TypedExpressionKindView, TypedExpressionView, TypedIdentifier,
};
use crate::semantic_analyzer::types::Type;
use vstd::prelude::*;

verus! {


/// The scopes that a check runs in, from the outermost to the innermost.
pub type Scopes = Seq<Map<usize, Type>>;

/// What a check leads to: its result, and the scopes that it leaves behind.
pub struct Checked<T, E> {
    pub result: Result<T, E>,
    pub scopes: Scopes,
}

/// The type that a checked node carries. A block has the type of its last
/// expression, and an empty block has type `Void`.
pub open spec fn type_of(kind: TypedExpressionKindView) -> Type
    decreases kind,
{
    match kind {
        TypedExpressionKindView::Int(_) => Type::Int,
        TypedExpressionKindView::Float(_) => Type::Float,
        TypedExpressionKindView::Boolean(_) => Type::Boolean,
        TypedExpressionKindView::Char(_) => Type::Char,
        TypedExpressionKindView::String(_) => Type::String,
        TypedExpressionKindView::Identifier(name) => name.ty,
        TypedExpressionKindView::Unary { ty, .. } => ty,
        TypedExpressionKindView::Binary { ty, .. } => ty,
        TypedExpressionKindView::If { ty, .. } => ty,
        TypedExpressionKindView::Let { ty, .. } => ty,
        TypedExpressionKindView::Block(expressions) => if expressions.len() == 0 {
            Type::Void
        } else {
            type_of(expressions[expressions.len() - 1].kind)
        },
    }
}

/// The type of a unary operation on an operand of type `operand`, where the
/// operation is defined: the sign operators keep an `Int` or a `Float` as it
/// is, and `not` takes a `Boolean` to a `Boolean`.
pub open spec fn unary_result_type(operation: UnaryOperation, operand: Type) -> Option<Type> {
    match operation {
        UnaryOperation::Plus | UnaryOperation::Minus => if operand == Type::Int || operand
            == Type::Float {
            Some(operand)
        } else {
            None
        },
        UnaryOperation::Not => if operand == Type::Boolean {
            Some(Type::Boolean)
        } else {
            None
        },
    }
}

/// The type of a binary operation, where it is defined: both operands are
/// `Int` or both are `Float`, and the result has their type. Nothing is
/// promoted.
pub open spec fn binary_result_type(operation: BinaryOperation, left: Type, right: Type) -> Option<
    Type,
> {
    if left == right && (left == Type::Int || left == Type::Float) {
        Some(left)
    } else {
        None
    }
}

/// A node of the checked tree.
pub open spec fn typed(span: Span, kind: TypedExpressionKindView) -> TypedExpressionView {
    TypedExpressionView { kind, span }
}

/// A name resolves to its nearest binding, or is undefined.
pub open spec fn identifier_rule(span: Span, name: Identifier, scopes: Scopes) -> Result<
    TypedExpressionView,
    ErrorView,
> {
    match lookup(scopes, name.0) {
        Some(ty) => Ok(
            typed(span, TypedExpressionKindView::Identifier(TypedIdentifier { id: name.0, ty })),
        ),
        None => Err(ErrorView::UndefinedVariable(span)),
    }
}

/// A unary operation on a checked operand.
pub open spec fn unary_rule(span: Span, operation: UnaryOperation, operand: TypedExpressionView) -> Result<
    TypedExpressionView,
    ErrorView,
> {
    match unary_result_type(operation, type_of(operand.kind)) {
        Some(ty) => Ok(
            typed(
                span,
                TypedExpressionKindView::Unary { operation, expression: Box::new(operand), ty },
            ),
        ),
        None => Err(
            ErrorView::UnsupportedOperation {
                operation_span: span,
                operands: seq![(operand.span, type_of(operand.kind))],
            },
        ),
    }
}

/// A binary operation on checked operands.
pub open spec fn binary_rule(
    span: Span,
    operation: BinaryOperation,
    left: TypedExpressionView,
    right: TypedExpressionView,
) -> Result<TypedExpressionView, ErrorView> {
    match binary_result_type(operation, type_of(left.kind), type_of(right.kind)) {
        Some(ty) => Ok(
            typed(
                span,
                TypedExpressionKindView::Binary {
                    operation,
                    left: Box::new(left),
                    right: Box::new(right),
                    ty,
                },
            ),
        ),
        None => Err(
            ErrorView::UnsupportedOperation {
                operation_span: span,
                operands: seq![
                    (left.span, type_of(left.kind)),
                    (right.span, type_of(right.kind)),
                ],
            },
        ),
    }
}

/// The condition of an `if` must be a `Boolean`.
pub open spec fn condition_rule(condition: TypedExpressionView) -> Option<ErrorView> {
    if type_of(condition.kind) == Type::Boolean {
        None
    } else {
        Some(
            ErrorView::TypeMismatch {
                span: condition.span,
                expected_type: Type::Boolean,
                actual_type: type_of(condition.kind),
            },
        )
    }
}

/// An `if` with checked parts: with an else branch both branches must have
/// one type, which is the type of the whole; without one the whole is `Void`.
pub open spec fn if_rule(
    span: Span,
    condition: TypedExpressionView,
    then_branch: TypedExpressionView,
    else_branch: Option<TypedExpressionView>,
) -> Result<TypedExpressionView, ErrorView> {
    match else_branch {
        Some(other) => if type_of(then_branch.kind) == type_of(other.kind) {
            Ok(
                typed(
                    span,
                    TypedExpressionKindView::If {
                        condition: Box::new(condition),
                        then_branch: Box::new(then_branch),
                        else_branch: Some(Box::new(other)),
                        ty: type_of(then_branch.kind),
                    },
                ),
            )
        } else {
            Err(
                ErrorView::ConflictingType {
                    first_span: then_branch.span,
                    first_type: type_of(then_branch.kind),
                    second_span: other.span,
                    second_type: type_of(other.kind),
                },
            )
        },
        None => Ok(
            typed(
                span,
                TypedExpressionKindView::If {
                    condition: Box::new(condition),
                    then_branch: Box::new(then_branch),
                    else_branch: None,
                    ty: Type::Void,
                },
            ),
        ),
    }
}

/// A `let` with a checked initializer: a declared type must be the
/// initializer's type, which is also the type of the name and of the whole.
pub open spec fn let_rule(
    span: Span,
    name: (Span, Identifier),
    given_type: Option<Type>,
    value: TypedExpressionView,
) -> Result<TypedExpressionView, ErrorView> {
    let ty = type_of(value.kind);
    if given_type is Some && given_type != Some(ty) {
        Err(
            ErrorView::ConflictingType {
                first_span: name.0,
                first_type: given_type->Some_0,
                second_span: value.span,
                second_type: ty,
            },
        )
    } else {
        Ok(
            typed(
                span,
                TypedExpressionKindView::Let {
                    name: (name.0, TypedIdentifier { id: name.1.0, ty }),
                    given_type,
                    expression: Box::new(value),
                    ty,
                },
            ),
        )
    }
}

/// Arithmetic does not mix types: a binary operation has a type exactly
/// where both operands are `Int`, or both are `Float`, and then it has the
/// type of its operands.
pub proof fn lemma_no_promotion(operation: BinaryOperation, left: Type, right: Type)
    ensures
        binary_result_type(operation, Type::Int, Type::Int) == Some(Type::Int),
        binary_result_type(operation, Type::Float, Type::Float) == Some(Type::Float),
        left != right ==> binary_result_type(operation, left, right) is None,
        binary_result_type(operation, left, right) is Some ==> left == right && (left == Type::Int
            || left == Type::Float),
{
}

/// A binary operation on checked operands passes with the type of the
/// table, or fails as an unsupported operation that names both operands.
pub proof fn lemma_binary_rule(
    span: Span,
    operation: BinaryOperation,
    left: TypedExpressionView,
    right: TypedExpressionView,
)
    ensures
        match binary_rule(span, operation, left, right) {
            Ok(checked) => Some(type_of(checked.kind)) == binary_result_type(
                operation,
                type_of(left.kind),
                type_of(right.kind),
            ),
            Err(error) => {
                &&& binary_result_type(operation, type_of(left.kind), type_of(right.kind)) is None
                &&& error == ErrorView::UnsupportedOperation {
                    operation_span: span,
                    operands: seq![
                        (left.span, type_of(left.kind)),
                        (right.span, type_of(right.kind)),
                    ],
                }
            },
        },
{
}

/// An `if` with checked parts has the type of its branches where it has two
/// that agree, fails with a conflict that names both where it has two that
/// differ, and is `Void` where it has one.
pub proof fn lemma_if_rule(
    span: Span,
    condition: TypedExpressionView,
    then_branch: TypedExpressionView,
    else_branch: Option<TypedExpressionView>,
)
    ensures
        match if_rule(span, condition, then_branch, else_branch) {
            Ok(checked) => match else_branch {
                Some(other) => type_of(then_branch.kind) == type_of(other.kind) && type_of(
                    checked.kind,
                ) == type_of(then_branch.kind),
                None => type_of(checked.kind) == Type::Void,
            },
            Err(error) => {
                &&& else_branch is Some
                &&& type_of(then_branch.kind) != type_of(else_branch->Some_0.kind)
                &&& error == ErrorView::ConflictingType {
                    first_span: then_branch.span,
                    first_type: type_of(then_branch.kind),
                    second_span: else_branch->Some_0.span,
                    second_type: type_of(else_branch->Some_0.kind),
                }
            },
        },
        condition_rule(condition) is Some <==> type_of(condition.kind) != Type::Boolean,
{
}

/// A `let` with a checked initializer fails exactly where a type is
/// declared that is not the initializer's, with a conflict between the
/// two; otherwise it has the initializer's type.
pub proof fn lemma_let_rule(
    span: Span,
    name: (Span, Identifier),
    given_type: Option<Type>,
    value: TypedExpressionView,
)
    ensures
        match let_rule(span, name, given_type, value) {
            Ok(checked) => {
                &&& given_type is Some ==> given_type == Some(type_of(value.kind))
                &&& type_of(checked.kind) == type_of(value.kind)
            },
            Err(error) => {
                &&& given_type is Some
                &&& given_type != Some(type_of(value.kind))
                &&& error == ErrorView::ConflictingType {
                    first_span: name.0,
                    first_type: given_type->Some_0,
                    second_span: value.span,
                    second_type: type_of(value.kind),
                }
            },
        },
{
}

/// A failed check, which leaves the scopes as they were when it failed.
pub open spec fn failed<T>(error: ErrorView, scopes: Scopes) -> Checked<T, ErrorView> {
    Checked { result: Err(error), scopes }
}

/// What checking `expression` in `scopes` leads to. Parts are checked in the
/// order in which they are written, each in the scopes that the one before
/// left, and the first failure is the failure of the whole.
pub open spec fn checked_expression(expression: ExpressionView, scopes: Scopes) -> Checked<
    TypedExpressionView,
    ErrorView,
>
    decreases expression, 0int,
{
    let span = expression.span;
    match expression.kind {
        ExpressionKindView::Int(value) => Checked {
            result: Ok(typed(span, TypedExpressionKindView::Int(value))),
            scopes,
        },
        ExpressionKindView::Float(id) => Checked {
            result: Ok(typed(span, TypedExpressionKindView::Float(id))),
            scopes,
        },
        ExpressionKindView::Boolean(value) => Checked {
            result: Ok(typed(span, TypedExpressionKindView::Boolean(value))),
            scopes,
        },
        ExpressionKindView::Char(value) => Checked {
            result: Ok(typed(span, TypedExpressionKindView::Char(value))),
            scopes,
        },
        ExpressionKindView::String(id) => Checked {
            result: Ok(typed(span, TypedExpressionKindView::String(id))),
            scopes,
        },
        ExpressionKindView::Identifier(name) => Checked {
            result: identifier_rule(span, name, scopes),
            scopes,
        },
        ExpressionKindView::Unary { operation, expression: operand } => {
            let inner = checked_expression(*operand, scopes);
            match inner.result {
                Err(error) => failed(error, inner.scopes),
                Ok(value) => Checked {
                    result: unary_rule(span, operation, value),
                    scopes: inner.scopes,
                },
            }
        },
        ExpressionKindView::Binary { operation, left, right } => {
            let first = checked_expression(*left, scopes);
            match first.result {
                Err(error) => failed(error, first.scopes),
                Ok(left_value) => {
                    let second = checked_expression(*right, first.scopes);
                    match second.result {
                        Err(error) => failed(error, second.scopes),
                        Ok(right_value) => Checked {
                            result: binary_rule(span, operation, left_value, right_value),
                            scopes: second.scopes,
                        },
                    }
                },
            }
        },
        ExpressionKindView::If { condition, then_branch, else_branch } => {
            let first = checked_expression(*condition, scopes);
            match first.result {
                Err(error) => failed(error, first.scopes),
                Ok(condition_value) => match condition_rule(condition_value) {
                    Some(error) => failed(error, first.scopes),
                    None => {
                        let second = checked_expression(*then_branch, first.scopes);
                        match second.result {
                            Err(error) => failed(error, second.scopes),
                            Ok(then_value) => match else_branch {
                                None => Checked {
                                    result: if_rule(span, condition_value, then_value, None),
                                    scopes: second.scopes,
                                },
                                Some(other) => {
                                    let third = checked_expression(*other, second.scopes);
                                    match third.result {
                                        Err(error) => failed(error, third.scopes),
                                        Ok(else_value) => Checked {
                                            result: if_rule(
                                                span,
                                                condition_value,
                                                then_value,
                                                Some(else_value),
                                            ),
                                            scopes: third.scopes,
                                        },
                                    }
                                },
                            },
                        }
                    },
                },
            }
        },
        ExpressionKindView::Let { name, given_type, expression: initializer } => {
            let inner = checked_expression(*initializer, scopes);
            match inner.result {
                Err(error) => failed(error, inner.scopes),
                Ok(value) => {
                    let result = let_rule(span, name, given_type, value);
                    Checked {
                        result,
                        scopes: if result is Ok {
                            bind(inner.scopes, name.1.0, type_of(value.kind))
                        } else {
                            inner.scopes
                        },
                    }
                },
            }
        },
        ExpressionKindView::Block(expressions) => {
            let inner = checked_block_from(expressions, 0, Seq::empty(), scopes);
            match inner.result {
                Err(error) => failed(error, inner.scopes),
                Ok(values) => Checked {
                    result: Ok(typed(span, TypedExpressionKindView::Block(values))),
                    scopes: inner.scopes,
                },
            }
        },
    }
}

/// What checking the expressions of a block leads to: they are checked in
/// order, and the first failure ends the check.
pub open spec fn checked_block(expressions: Seq<ExpressionView>, scopes: Scopes) -> Checked<
    Seq<TypedExpressionView>,
    ErrorView,
>
{
    checked_block_from(expressions, 0, Seq::empty(), scopes)
}

/// What checking the expressions from index `start` on leads to, where those
/// before it have been checked to `done` and have left `scopes`.
pub open spec fn checked_block_from(
    expressions: Seq<ExpressionView>,
    start: int,
    done: Seq<TypedExpressionView>,
    scopes: Scopes,
) -> Checked<Seq<TypedExpressionView>, ErrorView>
    decreases expressions, expressions.len() - start,
{
    if 0 <= start < expressions.len() {
        let next = checked_expression(expressions[start], scopes);
        match next.result {
            Err(error) => failed(error, next.scopes),
            Ok(value) => checked_block_from(expressions, start + 1, done.push(value), next.scopes),
        }
    } else {
        Checked { result: Ok(done), scopes }
    }
}

/// Whether the expression holds a `let` anywhere in it. Only such an
/// expression writes to the scopes, and so needs a scope to write to.
pub open spec fn binds(expression: ExpressionView) -> bool
    decreases expression,
{
    match expression.kind {
        ExpressionKindView::Unary { expression: operand, .. } => binds(*operand),
        ExpressionKindView::Binary { left, right, .. } => binds(*left) || binds(*right),
        ExpressionKindView::If { condition, then_branch, else_branch } => {
            ||| binds(*condition)
            ||| binds(*then_branch)
            ||| match else_branch {
                Some(other) => binds(*other),
                None => false,
            }
        },
        ExpressionKindView::Let { .. } => true,
        ExpressionKindView::Block(expressions) => exists|i: int|
            0 <= i < expressions.len() && binds(#[trigger] expressions[i]),
        _ => false,
    }
}

/// `result` and `after` are what checking `expression` in the scopes `before`
/// leads to. The number of scopes is unchanged.
pub open spec fn checks_to(
    result: Result<TypedExpression, Error>,
    after: Scopes,
    expression: ExpressionView,
    before: Scopes,
) -> bool {
    let expected = checked_expression(expression, before);
    &&& outcome(result) == expected.result
    &&& after == expected.scopes
    &&& same_outer_scopes(after, before)
}

/// Both stacks have the same number of scopes, and they differ at most in
/// the innermost one.
pub open spec fn same_outer_scopes(after: Scopes, before: Scopes) -> bool {
    &&& after.len() == before.len()
    &&& forall|i: int| 0 <= i < before.len() - 1 ==> after[i] == before[i]
}

/// The first parameter, from index `start` on, that is declared `Void`.
pub open spec fn first_void(parameters: Seq<Parameter>, start: int) -> Option<Parameter>
    decreases parameters.len() - start,
{
    if 0 <= start < parameters.len() {
        if parameters[start].ty == Type::Void {
            Some(parameters[start])
        } else {
            first_void(parameters, start + 1)
        }
    } else {
        None
    }
}

/// The scopes after the first `count` parameters are bound, in order, in the
/// innermost scope.
pub open spec fn with_parameters(parameters: Seq<Parameter>, count: int, scopes: Scopes) -> Scopes
    decreases count,
{
    if count <= 0 {
        scopes
    } else {
        bind(
            with_parameters(parameters, count - 1, scopes),
            parameters[count - 1].name,
            parameters[count - 1].ty,
        )
    }
}

/// A parameter as it stands in the checked tree.
pub open spec fn typed_parameter(parameter: Parameter) -> TypedParameter {
    TypedParameter { span: parameter.span, ty: parameter.ty, name: parameter.name }
}

/// What checking a function leads to. A parameter declared `Void` is an
/// illegal type, reported at the first such parameter and before the body is
/// looked at. Otherwise the body is checked in a new scope that binds the
/// parameters, and its type is the function's return type.
pub open spec fn checked_function(function: FunctionView, scopes: Scopes) -> Result<
    TypedFunctionView,
    ErrorView,
> {
    let parameters = function.prototype.parameters;
    match first_void(parameters, 0) {
        Some(parameter) => Err(ErrorView::IllegalType(parameter.span)),
        None => {
            let inner = with_parameters(
                parameters,
                parameters.len() as int,
                scopes.push(Map::empty()),
            );
            match checked_expression(function.body, inner).result {
                Err(error) => Err(error),
                Ok(body) => Ok(
                    TypedFunctionView {
                        prototype: TypedPrototypeView {
                            span: function.prototype.span,
                            name: function.prototype.name,
                            parameters: parameters.map_values(|p: Parameter| typed_parameter(p)),
                            return_type: type_of(body.kind),
                        },
                        body,
                    },
                ),
            }
        },
    }
}

/// The errors of those of the first `count` functions that fail, each
/// checked on its own in `scopes`, in order.
pub open spec fn failures(functions: Seq<FunctionView>, count: int, scopes: Scopes) -> Seq<ErrorView>
    decreases count,
{
    if count <= 0 {
        Seq::empty()
    } else {
        let earlier = failures(functions, count - 1, scopes);
        match checked_function(functions[count - 1], scopes) {
            Ok(_) => earlier,
            Err(error) => earlier.push(error),
        }
    }
}

/// The checked forms of those of the first `count` functions that pass,
/// each checked on its own in `scopes`, in order.
pub open spec fn passes(functions: Seq<FunctionView>, count: int, scopes: Scopes) -> Seq<
    TypedFunctionView,
>
    decreases count,
{
    if count <= 0 {
        Seq::empty()
    } else {
        let earlier = passes(functions, count - 1, scopes);
        match checked_function(functions[count - 1], scopes) {
            Ok(function) => earlier.push(function),
            Err(_) => earlier,
        }
    }
}

/// What checking a program leads to. Every function is checked, on its own
/// and in the scopes of the program, whatever became of the functions
/// before it. If any fails, the program fails with the errors of all that
/// fail; otherwise it is the checked functions.
pub open spec fn checked_program(functions: Seq<FunctionView>, scopes: Scopes) -> Result<
    Seq<TypedFunctionView>,
    Seq<ErrorView>,
> {
    let errors = failures(functions, functions.len() as int, scopes);
    if errors.len() > 0 {
        Err(errors)
    } else {
        Ok(passes(functions, functions.len() as int, scopes))
    }
}

/// A function with a parameter declared `Void` fails with an illegal type at
/// the first such parameter, whatever its body holds.
pub proof fn lemma_void_parameter_is_illegal(function: FunctionView, scopes: Scopes, index: int)
    requires
        0 <= index < function.prototype.parameters.len(),
        function.prototype.parameters[index].ty == Type::Void,
    ensures
        exists|first: int|
            {
                &&& 0 <= first <= index
                &&& function.prototype.parameters[first].ty == Type::Void
                &&& forall|earlier: int|
                    0 <= earlier < first ==> function.prototype.parameters[earlier].ty
                        != Type::Void
                &&& checked_function(function, scopes) == Err::<TypedFunctionView, ErrorView>(
                    ErrorView::IllegalType(#[trigger] function.prototype.parameters[first].span),
                )
            },
{
    let parameters = function.prototype.parameters;
    lemma_first_void(parameters, 0, index);
    let first = choose|first: int|
        {
            &&& 0 <= first <= index
            &&& parameters[first].ty == Type::Void
            &&& forall|earlier: int| 0 <= earlier < first ==> parameters[earlier].ty != Type::Void
            &&& first_void(parameters, 0) == Some(#[trigger] parameters[first])
        };
    assert(checked_function(function, scopes) == Err::<TypedFunctionView, ErrorView>(
        ErrorView::IllegalType(function.prototype.parameters[first].span),
    ));
}

/// Where a parameter at or behind `start` is declared `Void`, `first_void`
/// finds the first such parameter.
pub proof fn lemma_first_void(parameters: Seq<Parameter>, start: int, index: int)
    requires
        0 <= start <= index < parameters.len(),
        parameters[index].ty == Type::Void,
    ensures
        exists|first: int|
            {
                &&& start <= first <= index
                &&& parameters[first].ty == Type::Void
                &&& forall|earlier: int|
                    start <= earlier < first ==> parameters[earlier].ty != Type::Void
                &&& first_void(parameters, start) == Some(#[trigger] parameters[first])
            },
    decreases parameters.len() - start,
{
    if parameters[start].ty == Type::Void {
        assert(first_void(parameters, start) == Some(parameters[start]));
    } else {
        lemma_first_void(parameters, start + 1, index);
        let first = choose|first: int|
            {
                &&& start + 1 <= first <= index
                &&& parameters[first].ty == Type::Void
                &&& forall|earlier: int|
                    start + 1 <= earlier < first ==> parameters[earlier].ty != Type::Void
                &&& first_void(parameters, start + 1) == Some(#[trigger] parameters[first])
            };
        assert(first_void(parameters, start) == Some(parameters[first]));
    }
}

} // verus!
