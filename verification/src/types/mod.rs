use vstd::prelude::*;

pub mod boolean;
pub mod integer;
pub mod text;
pub mod value;
pub mod varchar;

pub use crate::types::boolean::BooleanType;
pub use crate::types::integer::IntegerType;
pub use crate::types::value::Value;
pub use crate::types::varchar::VarCharType;
use vstd::std_specs::convert::FromSpecImpl;
use vstd::string::StringExecFns;

verus! {

/// Tag of a column type.
#[derive(Clone, Copy, Debug, PartialEq, Eq, Structural)]
pub enum TypeId {
    Invalid,
    Boolean,
    TinyInt,
    SmallInt,
    Integer,
    BigInt,
    Decimal,
    VarChar,
    Timestamp,
}

impl TypeId {
    /// The one-byte code of the tag; 0 stands for `Invalid`.
    pub open spec fn code(self) -> u8 {
        match self {
            TypeId::Invalid => 0,
            TypeId::Boolean => 1,
            TypeId::TinyInt => 2,
            TypeId::SmallInt => 3,
            TypeId::Integer => 4,
            TypeId::BigInt => 5,
            TypeId::Decimal => 6,
            TypeId::VarChar => 7,
            TypeId::Timestamp => 8,
        }
    }

    /// The tag that a code byte names; every unassigned code names `Invalid`.
    pub open spec fn of_code(v: u8) -> TypeId {
        match v {
            1 => TypeId::Boolean,
            2 => TypeId::TinyInt,
            3 => TypeId::SmallInt,
            4 => TypeId::Integer,
            5 => TypeId::BigInt,
            6 => TypeId::Decimal,
            7 => TypeId::VarChar,
            8 => TypeId::Timestamp,
            _ => TypeId::Invalid,
        }
    }

    /// Whether the type is one of the four integer types.
    pub open spec fn is_integer_kind(self) -> bool {
        self == TypeId::TinyInt || self == TypeId::SmallInt || self == TypeId::Integer || self
            == TypeId::BigInt
    }

    /// Whether the type is numeric: an integer type or `Decimal`.
    pub open spec fn is_numeric(self) -> bool {
        self.is_integer_kind() || self == TypeId::Decimal
    }

    /// The number of bytes of an integer type (0 for the others).
    pub open spec fn integer_width(self) -> nat {
        match self {
            TypeId::TinyInt => 1,
            TypeId::SmallInt => 2,
            TypeId::Integer => 4,
            TypeId::BigInt => 8,
            _ => 0,
        }
    }

    /// The smallest value of an integer type.
    pub open spec fn min_value(self) -> int {
        match self {
            TypeId::TinyInt => i8::MIN as int,
            TypeId::SmallInt => i16::MIN as int,
            TypeId::Integer => i32::MIN as int,
            TypeId::BigInt => i64::MIN as int,
            _ => 0,
        }
    }

    /// The largest value of an integer type.
    pub open spec fn max_value(self) -> int {
        match self {
            TypeId::TinyInt => i8::MAX as int,
            TypeId::SmallInt => i16::MAX as int,
            TypeId::Integer => i32::MAX as int,
            TypeId::BigInt => i64::MAX as int,
            _ => 0,
        }
    }

    /// Whether `v` is a value of the integer type.
    pub open spec fn holds(self, v: int) -> bool {
        self.is_integer_kind() && self.min_value() <= v <= self.max_value()
    }

    /// Whether values of the type are stored inside a tuple: all types but
    /// the variable-length `VarChar`.
    pub open spec fn inlined(self) -> bool {
        self != TypeId::VarChar
    }

    /// Whether the type is one of the four integer types.
    pub fn is_integer(&self) -> (r: bool)
        ensures
            r == self.is_integer_kind(),
    {
        match self {
            TypeId::TinyInt | TypeId::SmallInt | TypeId::Integer | TypeId::BigInt => true,
            _ => false,
        }
    }

    /// Whether `v` is a value of the integer type.
    pub fn can_hold(&self, v: i128) -> (r: bool)
        ensures
            r == self.holds(v as int),
    {
        match self {
            TypeId::TinyInt => -128 <= v && v <= 127,
            TypeId::SmallInt => -32768 <= v && v <= 32767,
            TypeId::Integer => -2147483648 <= v && v <= 2147483647,
            TypeId::BigInt => -9223372036854775808 <= v && v <= 9223372036854775807,
            _ => false,
        }
    }

    /// The SQL name of the type.
    pub open spec fn name(self) -> Seq<char> {
        match self {
            TypeId::Invalid => "INVALID"@,
            TypeId::Boolean => "BOOLEAN"@,
            TypeId::TinyInt => "TINYINT"@,
            TypeId::SmallInt => "SMALLINT"@,
            TypeId::Integer => "INTEGER"@,
            TypeId::BigInt => "BIGINT"@,
            TypeId::Decimal => "DECIMAL"@,
            TypeId::VarChar => "VARCHAR"@,
            TypeId::Timestamp => "TIMESTAMP"@,
        }
    }

    pub fn to_string(&self) -> (s: String)
        ensures
            s@ == self.name(),
    {
        match self {
            TypeId::Invalid => String::from_str("INVALID"),
            TypeId::Boolean => String::from_str("BOOLEAN"),
            TypeId::TinyInt => String::from_str("TINYINT"),
            TypeId::SmallInt => String::from_str("SMALLINT"),
            TypeId::Integer => String::from_str("INTEGER"),
            TypeId::BigInt => String::from_str("BIGINT"),
            TypeId::Decimal => String::from_str("DECIMAL"),
            TypeId::VarChar => String::from_str("VARCHAR"),
            TypeId::Timestamp => String::from_str("TIMESTAMP"),
        }
    }
}

impl From<u8> for TypeId {
    fn from(v: u8) -> (t: TypeId) {
        match v {
            1 => TypeId::Boolean,
            2 => TypeId::TinyInt,
            3 => TypeId::SmallInt,
            4 => TypeId::Integer,
            5 => TypeId::BigInt,
            6 => TypeId::Decimal,
            7 => TypeId::VarChar,
            8 => TypeId::Timestamp,
            _ => TypeId::Invalid,
        }
    }
}

impl FromSpecImpl<u8> for TypeId {
    open spec fn obeys_from_spec() -> bool {
        true
    }

    open spec fn from_spec(v: u8) -> TypeId {
        TypeId::of_code(v)
    }
}

impl From<TypeId> for u8 {
    fn from(t: TypeId) -> (v: u8) {
        match t {
            TypeId::Boolean => 1,
            TypeId::TinyInt => 2,
            TypeId::SmallInt => 3,
            TypeId::Integer => 4,
            TypeId::BigInt => 5,
            TypeId::Decimal => 6,
            TypeId::VarChar => 7,
            TypeId::Timestamp => 8,
            _ => 0,
        }
    }
}

impl FromSpecImpl<TypeId> for u8 {
    open spec fn obeys_from_spec() -> bool {
        true
    }

    open spec fn from_spec(t: TypeId) -> u8 {
        t.code()
    }
}

/// A type tag survives the trip through its code byte.
pub proof fn lemma_type_code_round_trip(t: TypeId)
    ensures
        TypeId::of_code(t.code()) == t,
{
}

/// Outcome of a comparison in which either operand may be SQL NULL.
#[derive(Clone, Copy, Debug, PartialEq, Eq, Structural)]
pub enum CmpBool {
    False,
    True,
    Null,
}

impl CmpBool {
    pub open spec fn of_bool(v: bool) -> CmpBool {
        if v {
            CmpBool::True
        } else {
            CmpBool::False
        }
    }
}

impl From<bool> for CmpBool {
    fn from(v: bool) -> (c: CmpBool) {
        if v {
            CmpBool::True
        } else {
            CmpBool::False
        }
    }
}

impl FromSpecImpl<bool> for CmpBool {
    open spec fn obeys_from_spec() -> bool {
        true
    }

    open spec fn from_spec(v: bool) -> CmpBool {
        CmpBool::of_bool(v)
    }
}

} // verus!
