//! The declarations that stand above expressions: programs, functions and
//! their prototypes.

use crate::error::Span;
use crate::parser::expression::{Expression, ExpressionView};
use crate::semantic_analyzer::types::Type;
use vstd::prelude::*;

verus! {

/// A parameter of a function: its name, by interned id, and declared type.
#[derive(Clone, Copy, Debug, PartialEq, Eq, Structural)]
pub struct Parameter {
    pub span: Span,
    pub ty: Type,
    pub name: usize,
}

/// The head of a function: its name and its parameters in order.
#[derive(Debug, PartialEq)]
pub struct Prototype {
    pub span: Span,
    pub name: usize,
    pub parameters: Vec<Parameter>,
}

/// A function: its head and the expression that is its body.
#[derive(Debug, PartialEq)]
pub struct Function {
    pub prototype: Prototype,
    pub body: Expression,
}

/// The functions of one source file, in the order in which they were written.
#[derive(Debug, PartialEq)]
pub struct Program {
    pub functions: Vec<Function>,
}

/// The mathematical value of a [`Prototype`].
pub struct PrototypeView {
    pub span: Span,
    pub name: usize,
    pub parameters: Seq<Parameter>,
}

/// The mathematical value of a [`Function`].
pub struct FunctionView {
    pub prototype: PrototypeView,
    pub body: ExpressionView,
}

impl DeepView for Parameter {
    type V = Parameter;

    open spec fn deep_view(&self) -> Parameter {
        *self
    }
}

impl Prototype {
    /// The prototype as a mathematical value.
    pub open spec fn view(&self) -> PrototypeView {
        PrototypeView { span: self.span, name: self.name, parameters: self.parameters@ }
    }
}

impl Function {
    /// The function as a mathematical value.
    pub open spec fn view(&self) -> FunctionView {
        FunctionView { prototype: self.prototype@, body: self.body@ }
    }
}

impl DeepView for Function {
    type V = FunctionView;

    open spec fn deep_view(&self) -> FunctionView {
        self.view()
    }
}

impl Program {
    /// The functions of the program as mathematical values.
    pub open spec fn view(&self) -> Seq<FunctionView> {
        self.functions.deep_view()
    }
}

impl DeepView for Program {
    type V = Seq<FunctionView>;

    open spec fn deep_view(&self) -> Seq<FunctionView> {
        self.view()
    }
}

} // verus!
