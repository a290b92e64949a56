//! The handlers that the parser's tables hold.

pub mod binary_parselet;
pub mod float_parselet;
pub mod grouping_parselet;
pub mod if_parselet;
pub mod let_parselet;
pub mod prefix_parselet;
pub mod unary_parselet;
