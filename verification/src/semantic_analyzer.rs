//! Scope-aware type checking of the syntax tree.

pub mod mirror;
pub mod rules;
pub mod type_check;
pub mod types;
