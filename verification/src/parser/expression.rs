//! The untyped syntax tree of expressions.

use crate::error::Span;
use crate::semantic_analyzer::types::Type;
use vstd::prelude::*;

verus! {

/// The operators that take one operand.
#[derive(Clone, Copy, Debug, PartialEq, Eq, Structural)]
pub enum UnaryOperation {
    Plus,
    Minus,
    Not,
}

/// The operators that take two operands.
#[derive(Clone, Copy, Debug, PartialEq, Eq, Structural)]
pub enum BinaryOperation {
    Plus,
    Minus,
    Multiply,
    Divide,
}

/// A name, by the id under which its text is interned.
#[derive(Clone, Copy, Debug, PartialEq, Eq, Structural)]
pub struct Identifier(pub usize);

/// A prefix operation and its operand.
#[derive(Debug, PartialEq)]
pub struct Unary {
    pub operation: UnaryOperation,
    pub expression: Box<Expression>,
}

/// A binary operation and its two operands.
#[derive(Debug, PartialEq)]
pub struct Binary {
    pub operation: BinaryOperation,
    pub left: Box<Expression>,
    pub right: Box<Expression>,
}

/// A conditional: the second branch is there where an `else` was written.
#[derive(Debug, PartialEq)]
pub struct If {
    pub condition: Box<Expression>,
    pub then_branch: Box<Expression>,
    pub else_branch: Option<Box<Expression>>,
}

/// A binding of a name to the value of an initializer.
#[derive(Debug, PartialEq)]
pub struct Let {
    pub name: (Span, Identifier),
    pub given_type: Option<Type>,
    pub expression: Box<Expression>,
}

/// Every form that an expression can take. Float and string literals hold the
/// id under which their text is interned.
#[derive(Debug, PartialEq)]
pub enum ExpressionKind {
    Int(i64),
    Float(usize),
    Boolean(bool),
    Char(char),
    String(usize),
    Identifier(Identifier),
    Unary(Unary),
    Binary(Binary),
    If(If),
    Let(Let),
    Block(Vec<Expression>),
}

/// A node of the syntax tree: what it is and where it was written. A
/// composite node owns its children.
#[derive(Debug, PartialEq)]
pub struct Expression {
    pub kind: ExpressionKind,
    pub span: Span,
}

/// The mathematical value of an [`ExpressionKind`].
#[allow(inconsistent_fields)]
pub enum ExpressionKindView {
    Int(i64),
    Float(usize),
    Boolean(bool),
    Char(char),
    String(usize),
    Identifier(Identifier),
    Unary { operation: UnaryOperation, expression: Box<ExpressionView> },
    Binary { operation: BinaryOperation, left: Box<ExpressionView>, right: Box<ExpressionView> },
    If {
        condition: Box<ExpressionView>,
        then_branch: Box<ExpressionView>,
        else_branch: Option<Box<ExpressionView>>,
    },
    Let { name: (Span, Identifier), given_type: Option<Type>, expression: Box<ExpressionView> },
    Block(Seq<ExpressionView>),
}

/// The mathematical value of an [`Expression`].
pub struct ExpressionView {
    pub kind: ExpressionKindView,
    pub span: Span,
}

impl ExpressionKind {
    /// The kind as a mathematical value.
    pub open spec fn view(&self) -> ExpressionKindView
        decreases self,
    {
        match self {
            ExpressionKind::Int(value) => ExpressionKindView::Int(*value),
            ExpressionKind::Float(id) => ExpressionKindView::Float(*id),
            ExpressionKind::Boolean(value) => ExpressionKindView::Boolean(*value),
            ExpressionKind::Char(value) => ExpressionKindView::Char(*value),
            ExpressionKind::String(id) => ExpressionKindView::String(*id),
            ExpressionKind::Identifier(name) => ExpressionKindView::Identifier(*name),
            ExpressionKind::Unary(inner) => ExpressionKindView::Unary {
                operation: inner.operation,
                expression: Box::new(ExpressionView { kind: (*inner.expression).kind.view(), span: (*inner.expression).span }),
            },
            ExpressionKind::Binary(inner) => ExpressionKindView::Binary {
                operation: inner.operation,
                left: Box::new(ExpressionView { kind: (*inner.left).kind.view(), span: (*inner.left).span }),
                right: Box::new(ExpressionView { kind: (*inner.right).kind.view(), span: (*inner.right).span }),
            },
            ExpressionKind::If(inner) => ExpressionKindView::If {
                condition: Box::new(ExpressionView { kind: (*inner.condition).kind.view(), span: (*inner.condition).span }),
                then_branch: Box::new(ExpressionView { kind: (*inner.then_branch).kind.view(), span: (*inner.then_branch).span }),
                else_branch: match inner.else_branch {
                    Some(branch) => Some(Box::new(ExpressionView { kind: (*branch).kind.view(), span: (*branch).span })),
                    None => None,
                },
            },
            ExpressionKind::Let(inner) => ExpressionKindView::Let {
                name: inner.name,
                given_type: inner.given_type,
                expression: Box::new(ExpressionView { kind: (*inner.expression).kind.view(), span: (*inner.expression).span }),
            },
            ExpressionKind::Block(expressions) => ExpressionKindView::Block(
                Seq::new(
                    expressions.len() as nat,
                    |i: int|
                        if 0 <= i < expressions.len() {
                            ExpressionView { kind: expressions[i].kind.view(), span: expressions[i].span }
                        } else {
                            arbitrary()
                        },
                ),
            ),
        }
    }
}

impl Expression {
    /// The tree as a mathematical value.
    pub open spec fn view(&self) -> ExpressionView {
        ExpressionView { kind: self.kind.view(), span: self.span }
    }
}

impl Unary {
    /// The operation as the kind of node that it makes.
    pub open spec fn view(&self) -> ExpressionKindView {
        ExpressionKindView::Unary {
            operation: self.operation,
            expression: Box::new((*self.expression).view()),
        }
    }
}

impl Binary {
    /// The operation as the kind of node that it makes.
    pub open spec fn view(&self) -> ExpressionKindView {
        ExpressionKindView::Binary {
            operation: self.operation,
            left: Box::new((*self.left).view()),
            right: Box::new((*self.right).view()),
        }
    }
}

impl If {
    /// The conditional as the kind of node that it makes.
    pub open spec fn view(&self) -> ExpressionKindView {
        ExpressionKindView::If {
            condition: Box::new((*self.condition).view()),
            then_branch: Box::new((*self.then_branch).view()),
            else_branch: match self.else_branch {
                Some(branch) => Some(Box::new((*branch).view())),
                None => None,
            },
        }
    }
}

impl Let {
    /// The binding as the kind of node that it makes.
    pub open spec fn view(&self) -> ExpressionKindView {
        ExpressionKindView::Let {
            name: self.name,
            given_type: self.given_type,
            expression: Box::new((*self.expression).view()),
        }
    }
}

/// The view of a block is the views of its expressions.
pub proof fn lemma_block_view(expressions: Vec<Expression>)
    ensures
        ExpressionKind::Block(expressions)@ == ExpressionKindView::Block(expressions.deep_view()),
{
    assert(ExpressionKind::Block(expressions)@->Block_0 =~= expressions.deep_view());
}

/// A node of the tree.
pub open spec fn node(kind: ExpressionKindView, span: Span) -> ExpressionView {
    ExpressionView { kind, span }
}

impl DeepView for Expression {
    type V = ExpressionView;

    open spec fn deep_view(&self) -> ExpressionView {
        self.view()
    }
}

impl Expression {
    /// A node of the given kind at the given place.
    pub fn new(kind: ExpressionKind, span: Span) -> (expression: Expression)
        ensures
            expression == (Expression { kind, span }),
    {
        Expression { kind, span }
    }
}

} // verus!
