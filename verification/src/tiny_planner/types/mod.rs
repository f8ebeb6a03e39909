use vstd::prelude::*;

verus! {

/// The type of a field. No type is defined yet: every field has the one
/// that stands for all.
pub enum FieldType {
    Unspecified,
}

/// A constant of a statement. The two floating-point kinds hold the bits
/// of their number.
pub enum DataBox {
    Null,
    Int64(i64),
    Uint64(u64),
    /// The IEEE 754 bits of a 32-bit number.
    Float32(u32),
    /// The IEEE 754 bits of a 64-bit number.
    Float64(u64),
    String(String),
    Bytes,
    BinaryLiteral,
    MysqlBit,
    MysqlSet,
    MysqlTime,
    Interface,
    MinNotNull,
    MaxValue,
    Raw,
    MysqlJson,
}

} // verus!
