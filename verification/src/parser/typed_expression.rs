//! The syntax tree of expressions after type checking: every node carries
//! the type that was resolved for it.

use crate::error::Span;
use crate::parser::expression::{BinaryOperation, UnaryOperation};
use crate::semantic_analyzer::types::Type;
use vstd::prelude::*;

verus! {

/// A name and the type that it resolved to.
#[derive(Clone, Copy, Debug, PartialEq, Eq, Structural)]
pub struct TypedIdentifier {
    pub id: usize,
    pub ty: Type,
}

/// A checked prefix operation and its operand.
#[derive(Debug, PartialEq)]
pub struct TypedUnary {
    pub operation: UnaryOperation,
    pub expression: Box<TypedExpression>,
    pub ty: Type,
}

/// A checked binary operation and its two operands.
#[derive(Debug, PartialEq)]
pub struct TypedBinary {
    pub operation: BinaryOperation,
    pub left: Box<TypedExpression>,
    pub right: Box<TypedExpression>,
    pub ty: Type,
}

/// A checked conditional: the second branch is there where an `else` was written.
#[derive(Debug, PartialEq)]
pub struct TypedIf {
    pub condition: Box<TypedExpression>,
    pub then_branch: Box<TypedExpression>,
    pub else_branch: Option<Box<TypedExpression>>,
    pub ty: Type,
}

/// A checked binding of a name to the value of an initializer.
#[derive(Debug, PartialEq)]
pub struct TypedLet {
    pub name: (Span, TypedIdentifier),
    pub given_type: Option<Type>,
    pub expression: Box<TypedExpression>,
    pub ty: Type,
}

/// Every form that a checked expression can take.
#[derive(Debug, PartialEq)]
pub enum TypedExpressionKind {
    Int(i64),
    Float(usize),
    Boolean(bool),
    Char(char),
    String(usize),
    Identifier(TypedIdentifier),
    Unary(TypedUnary),
    Binary(TypedBinary),
    If(TypedIf),
    Let(TypedLet),
    Block(Vec<TypedExpression>),
}

/// A node of the checked tree: what it is and where it was written.
#[derive(Debug, PartialEq)]
pub struct TypedExpression {
    pub kind: TypedExpressionKind,
    pub span: Span,
}

/// The mathematical value of an [`TypedExpressionKind`].
#[allow(inconsistent_fields)]
pub enum TypedExpressionKindView {
    Int(i64),
    Float(usize),
    Boolean(bool),
    Char(char),
    String(usize),
    Identifier(TypedIdentifier),
    Unary { operation: UnaryOperation, expression: Box<TypedExpressionView>, ty: Type },
    Binary {
        operation: BinaryOperation,
        left: Box<TypedExpressionView>,
        right: Box<TypedExpressionView>,
        ty: Type,
    },
    If {
        condition: Box<TypedExpressionView>,
        then_branch: Box<TypedExpressionView>,
        else_branch: Option<Box<TypedExpressionView>>,
        ty: Type,
    },
    Let {
        name: (Span, TypedIdentifier),
        given_type: Option<Type>,
        expression: Box<TypedExpressionView>,
        ty: Type,
    },
    Block(Seq<TypedExpressionView>),
}

/// The mathematical value of an [`TypedExpression`].
pub struct TypedExpressionView {
    pub kind: TypedExpressionKindView,
    pub span: Span,
}

impl TypedExpressionKind {
    /// The kind as a mathematical value.
    pub open spec fn view(&self) -> TypedExpressionKindView
        decreases self,
    {
        match self {
            TypedExpressionKind::Int(value) => TypedExpressionKindView::Int(*value),
            TypedExpressionKind::Float(id) => TypedExpressionKindView::Float(*id),
            TypedExpressionKind::Boolean(value) => TypedExpressionKindView::Boolean(*value),
            TypedExpressionKind::Char(value) => TypedExpressionKindView::Char(*value),
            TypedExpressionKind::String(id) => TypedExpressionKindView::String(*id),
            TypedExpressionKind::Identifier(name) => TypedExpressionKindView::Identifier(*name),
            TypedExpressionKind::Unary(inner) => TypedExpressionKindView::Unary {
                operation: inner.operation,
                expression: Box::new(TypedExpressionView { kind: (*inner.expression).kind.view(), span: (*inner.expression).span }),
                ty: inner.ty,
            },
            TypedExpressionKind::Binary(inner) => TypedExpressionKindView::Binary {
                operation: inner.operation,
                left: Box::new(TypedExpressionView { kind: (*inner.left).kind.view(), span: (*inner.left).span }),
                right: Box::new(TypedExpressionView { kind: (*inner.right).kind.view(), span: (*inner.right).span }),
                ty: inner.ty,
            },
            TypedExpressionKind::If(inner) => TypedExpressionKindView::If {
                condition: Box::new(TypedExpressionView { kind: (*inner.condition).kind.view(), span: (*inner.condition).span }),
                then_branch: Box::new(TypedExpressionView { kind: (*inner.then_branch).kind.view(), span: (*inner.then_branch).span }),
                else_branch: match inner.else_branch {
                    Some(branch) => Some(Box::new(TypedExpressionView { kind: (*branch).kind.view(), span: (*branch).span })),
                    None => None,
                },
                ty: inner.ty,
            },
            TypedExpressionKind::Let(inner) => TypedExpressionKindView::Let {
                name: inner.name,
                given_type: inner.given_type,
                expression: Box::new(TypedExpressionView { kind: (*inner.expression).kind.view(), span: (*inner.expression).span }),
                ty: inner.ty,
            },
            TypedExpressionKind::Block(expressions) => TypedExpressionKindView::Block(
                Seq::new(
                    expressions.len() as nat,
                    |i: int|
                        if 0 <= i < expressions.len() {
                            TypedExpressionView { kind: expressions[i].kind.view(), span: expressions[i].span }
                        } else {
                            arbitrary()
                        },
                ),
            ),
        }
    }
}

impl TypedExpression {
    /// The tree as a mathematical value.
    pub open spec fn view(&self) -> TypedExpressionView {
        TypedExpressionView { kind: self.kind.view(), span: self.span }
    }
}

impl TypedUnary {
    /// The operation as the kind of node that it makes.
    pub open spec fn view(&self) -> TypedExpressionKindView {
        TypedExpressionKindView::Unary {
            operation: self.operation,
            expression: Box::new((*self.expression).view()),
            ty: self.ty,
        }
    }
}

impl TypedBinary {
    /// The operation as the kind of node that it makes.
    pub open spec fn view(&self) -> TypedExpressionKindView {
        TypedExpressionKindView::Binary {
            operation: self.operation,
            left: Box::new((*self.left).view()),
            right: Box::new((*self.right).view()),
            ty: self.ty,
        }
    }
}

impl TypedIf {
    /// The conditional as the kind of node that it makes.
    pub open spec fn view(&self) -> TypedExpressionKindView {
        TypedExpressionKindView::If {
            condition: Box::new((*self.condition).view()),
            then_branch: Box::new((*self.then_branch).view()),
            else_branch: match self.else_branch {
                Some(branch) => Some(Box::new((*branch).view())),
                None => None,
            },
            ty: self.ty,
        }
    }
}

impl TypedLet {
    /// The binding as the kind of node that it makes.
    pub open spec fn view(&self) -> TypedExpressionKindView {
        TypedExpressionKindView::Let {
            name: self.name,
            given_type: self.given_type,
            expression: Box::new((*self.expression).view()),
            ty: self.ty,
        }
    }
}

/// The view of a block is the views of its expressions.
pub proof fn lemma_typed_block_view(expressions: Vec<TypedExpression>)
    ensures
        TypedExpressionKind::Block(expressions)@ == TypedExpressionKindView::Block(expressions.deep_view()),
{
    assert(TypedExpressionKind::Block(expressions)@->Block_0 =~= expressions.deep_view());
}

impl DeepView for TypedExpression {
    type V = TypedExpressionView;

    open spec fn deep_view(&self) -> TypedExpressionView {
        self.view()
    }
}

impl TypedExpression {
    /// A node of the given kind at the given place.
    pub fn new(kind: TypedExpressionKind, span: Span) -> (expression: TypedExpression)
        ensures
            expression == (TypedExpression { kind, span }),
    {
        TypedExpression { kind, span }
    }
}

} // verus!
