use vstd::prelude::*;

verus! {

/// The operators of unary and binary operation expressions.
#[derive(Clone, Copy, Debug, PartialEq, Eq, Structural)]
pub enum Op {
    LogicAnd,
    LogicOr,
    LogicXor,
    Not,
    And,
    Or,
    Xor,
    LeftShift,
    RightShift,
    Plus,
    Minus,
    Mul,
    Div,
    Mod,
    Eq,
    Ne,
    Lt,
    Le,
    Gt,
    Ge,
    IsNull,
    In,
    Like,
}

} // verus!
