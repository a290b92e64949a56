//! The types that an expression of the language can have.

use vstd::prelude::*;

verus! {

/// A type of the language. Types are equal exactly when they are the same
/// variant; there is no subtyping and no conversion between them.
#[derive(Clone, Copy, Debug, PartialEq, Eq, Structural)]
pub enum Type {
    Void,
    Int,
    Float,
    Boolean,
    Char,
    String,
}

} // verus!
