use crate::tiny_planner::types::FieldType;
use vstd::prelude::*;

verus! {

/// ScalarFunc is the function that returns a value
pub struct ScalarFunc {
    pub return_type: FieldType,
    pub func: BuiltinFunc,
}

pub enum BuiltinFunc {
    IsNull(IsNullFunc),
}

impl ScalarFunc {
    pub fn new(return_type: FieldType, func: BuiltinFunc) -> (scalar: Self)
        ensures
            scalar.return_type == return_type,
            scalar.func == func,
    {
        ScalarFunc { return_type, func }
    }
}

pub struct IsNullFunc {}

} // verus!
