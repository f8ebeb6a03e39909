pub mod ast;
pub mod expression;
pub mod types;
