//! The declarations after type checking: every parameter keeps its declared
//! type and every prototype carries the type that its body resolved to.

use crate::error::Span;
use crate::parser::typed_expression::{TypedExpression, TypedExpressionView};
use crate::semantic_analyzer::types::Type;
use vstd::prelude::*;

verus! {

/// A parameter with its declared type.
#[derive(Clone, Copy, Debug, PartialEq, Eq, Structural)]
pub struct TypedParameter {
    pub span: Span,
    pub ty: Type,
    pub name: usize,
}

/// The head of a checked function, with the type that its body has.
#[derive(Debug, PartialEq)]
pub struct TypedPrototype {
    pub span: Span,
    pub name: usize,
    pub parameters: Vec<TypedParameter>,
    pub return_type: Type,
}

/// A checked function.
#[derive(Debug, PartialEq)]
pub struct TypedFunction {
    pub prototype: TypedPrototype,
    pub body: TypedExpression,
}

/// The checked functions of a program, in order.
#[derive(Debug, PartialEq)]
pub struct TypedProgram {
    pub functions: Vec<TypedFunction>,
}

/// The mathematical value of a [`TypedPrototype`].
pub struct TypedPrototypeView {
    pub span: Span,
    pub name: usize,
    pub parameters: Seq<TypedParameter>,
    pub return_type: Type,
}

/// The mathematical value of a [`TypedFunction`].
pub struct TypedFunctionView {
    pub prototype: TypedPrototypeView,
    pub body: TypedExpressionView,
}

impl TypedParameter {
    /// A parameter of the given name and type, written at `span`.
    pub fn new(span: Span, ty: Type, name: usize) -> (parameter: TypedParameter)
        ensures
            parameter == (TypedParameter { span, ty, name }),
    {
        TypedParameter { span, ty, name }
    }
}

impl DeepView for TypedParameter {
    type V = TypedParameter;

    open spec fn deep_view(&self) -> TypedParameter {
        *self
    }
}

impl TypedPrototype {
    /// The prototype as a mathematical value.
    pub open spec fn view(&self) -> TypedPrototypeView {
        TypedPrototypeView {
            span: self.span,
            name: self.name,
            parameters: self.parameters@,
            return_type: self.return_type,
        }
    }

    /// The head of a function of the given name, parameters and return type.
    pub fn new(span: Span, name: usize, parameters: Vec<TypedParameter>, return_type: Type) -> (prototype:
        TypedPrototype)
        ensures
            prototype == (TypedPrototype { span, name, parameters, return_type }),
    {
        TypedPrototype { span, name, parameters, return_type }
    }
}

impl TypedFunction {
    /// The function as a mathematical value.
    pub open spec fn view(&self) -> TypedFunctionView {
        TypedFunctionView { prototype: self.prototype@, body: self.body@ }
    }

    /// A function of the given head and body.
    pub fn new(prototype: TypedPrototype, body: TypedExpression) -> (function: TypedFunction)
        ensures
            function == (TypedFunction { prototype, body }),
    {
        TypedFunction { prototype, body }
    }
}

impl DeepView for TypedFunction {
    type V = TypedFunctionView;

    open spec fn deep_view(&self) -> TypedFunctionView {
        self.view()
    }
}

impl TypedProgram {
    /// The functions of the program as mathematical values.
    pub open spec fn view(&self) -> Seq<TypedFunctionView> {
        self.functions.deep_view()
    }
}

impl DeepView for TypedProgram {
    type V = Seq<TypedFunctionView>;

    open spec fn deep_view(&self) -> Seq<TypedFunctionView> {
        self.view()
    }
}

} // verus!
