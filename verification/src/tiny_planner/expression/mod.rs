use vstd::prelude::*;

pub mod column;
pub mod constant;
pub mod scalar;

pub use column::Column;
pub use constant::Constant;
pub use scalar::{BuiltinFunc, IsNullFunc, ScalarFunc};

verus! {

/// Expression represents all scalar expression in SQL, not including aggregation function. There are
/// two ways to evaluate a expression: row-based and chunk-based (vectorized). In a row-based manner,
/// the expression actually transforms a input row into a single column of value. In a chunk-based
/// manner, the expression transforms the whole chunk into another chunk of column.
pub enum Expression {
    Column(Column),
    Constant(Constant),
    ScalarFunc(ScalarFunc),
}

} // verus!
