use crate::common::codec::{
    get_i16_at, get_i32_at, get_i64_at, get_i8_at, lemma_byte_range_values, lemma_field_range,
    put_i16_at, put_i32_at, put_i64_at, put_i8_at,
};
use crate::common::error::{RustubError, Violation};
use crate::types::text::{format_decimal, string_from_text};
use crate::types::value::{
    arithmetic_of, cast_of, compare_of, compare_outcome, decode_of, null_text_bytes,
    operate_null_of, order_of, orders, quotient, refuse_operands, remainder, result_type_of,
    serialize_of, sign_between, stores, text_of, yields, zero_of, Arithmetic, Comparison, Value,
};
use crate::types::{CmpBool, TypeId};
use vstd::prelude::*;
use vstd::utf8::{decode_utf8, valid_utf8};

verus! {

/// The exact product of two 64-bit numbers.
fn multiply_exact(n: i64, m: i64) -> (product: i128)
    ensures
        product == n * m,
{
    assert(-0x4000_0000_0000_0000_0000_0000_0000_0000 <= n * m
        <= 0x4000_0000_0000_0000_0000_0000_0000_0000) by (nonlinear_arith)
        requires
            -0x8000_0000_0000_0000 <= n <= 0x8000_0000_0000_0000,
            -0x8000_0000_0000_0000 <= m <= 0x8000_0000_0000_0000,
    ;
    n as i128 * m as i128
}

/// The size of a 64-bit number.
fn magnitude(n: i64) -> (size: u64)
    ensures
        size == (if n < 0 {
            -n
        } else {
            n as int
        }),
{
    if n < 0 {
        (-(n as i128)) as u64
    } else {
        n as u64
    }
}

/// The quotient, rounded towards zero, and the remainder of a division.
fn divide_exact(n: i64, m: i64) -> (result: (i128, i128))
    requires
        m != 0,
    ensures
        result.0 == quotient(n as int, m as int),
        result.1 == remainder(n as int, m as int),
{
    let size_n = magnitude(n);
    let size_m = magnitude(m);
    let q: u64 = size_n / size_m;
    let rest: u64 = size_n % size_m;
    proof {
        let (a, b, qq, rr) = (size_n as int, size_m as int, q as int, rest as int);
        assert(a == b * qq + rr) by (nonlinear_arith)
            requires
                b > 0,
                qq == a / b,
                rr == a % b,
        ;
        assert((-b) * qq == -(b * qq) && b * (-qq) == -(b * qq) && (-b) * (-qq) == b * qq)
            by (nonlinear_arith);
    }
    let quotient: i128 = if (n < 0) != (m < 0) {
        -(q as i128)
    } else {
        q as i128
    };
    let remainder: i128 = if n < 0 {
        -(rest as i128)
    } else {
        rest as i128
    };
    (quotient, remainder)
}

/// The behaviour of the values of one of the four integer types.
pub struct IntegerType {
    type_id: TypeId,
}

impl IntegerType {
    /// The integer type that the struct serves is one of the four.
    #[verifier::type_invariant]
    pub closed spec fn inv(&self) -> bool {
        self.type_id.is_integer_kind()
    }

    /// The type whose values this serves.
    pub closed spec fn type_id(&self) -> TypeId {
        self.type_id
    }

    /// The behaviour of the 32-bit `Integer`.
    pub fn new() -> (t: Self)
        ensures
            t.type_id() == TypeId::Integer,
    {
        IntegerType { type_id: TypeId::Integer }
    }

    /// The behaviour of the integer type `type_id`; `None` for a type that
    /// is no integer type.
    pub fn of(type_id: TypeId) -> (t: Option<Self>)
        ensures
            t is Some <==> type_id.is_integer_kind(),
            t matches Some(i) ==> i.type_id() == type_id,
    {
        if type_id.is_integer() {
            Some(IntegerType { type_id })
        } else {
            None
        }
    }

    /// The type whose values this serves.
    pub fn kind(&self) -> (t: TypeId)
        ensures
            t == self.type_id(),
            t.is_integer_kind(),
    {
        proof {
            use_type_invariant(self);
        }
        self.type_id
    }

    /// How an integer compares with `right`: as numbers with another
    /// integer, whatever the widths; a VarChar is cast to the integer's
    /// type first.
    pub fn order(&self, left: &Value, right: &Value) -> (r: Result<Option<i8>, RustubError>)
        requires
            left@.type_id == self.type_id(),
        ensures
            orders(r, order_of(left@, right@)),
    {
        let kind = self.kind();
        if !left.check_comparable(right) {
            return Err(RustubError::IncomparableTypes(kind, right.type_id()));
        }
        if left.is_null() || right.is_null() {
            return Ok(None);
        }
        if right.check_integer() {
            return Ok(Some(sign_between(left.as_number() as i128, right.as_number() as i128)));
        }
        match right.cast_as(kind) {
            Err(e) => Err(e),
            Ok(cast) => Ok(
                Some(sign_between(left.as_number() as i128, cast.as_number() as i128)),
            ),
        }
    }

    pub fn compare_equal(&self, left: &Value, right: &Value) -> (r: Result<CmpBool, RustubError>)
        requires
            left@.type_id == self.type_id(),
        ensures
            r == compare_of(Comparison::Equal, left@, right@),
    {
        compare_outcome(Comparison::Equal, self.order(left, right))
    }

    pub fn compare_not_equal(&self, left: &Value, right: &Value) -> (r: Result<CmpBool, RustubError>)
        requires
            left@.type_id == self.type_id(),
        ensures
            r == compare_of(Comparison::NotEqual, left@, right@),
    {
        compare_outcome(Comparison::NotEqual, self.order(left, right))
    }

    pub fn compare_less_than(&self, left: &Value, right: &Value) -> (r: Result<CmpBool, RustubError>)
        requires
            left@.type_id == self.type_id(),
        ensures
            r == compare_of(Comparison::LessThan, left@, right@),
    {
        compare_outcome(Comparison::LessThan, self.order(left, right))
    }

    pub fn compare_less_than_equal(&self, left: &Value, right: &Value) -> (r: Result<CmpBool, RustubError>)
        requires
            left@.type_id == self.type_id(),
        ensures
            r == compare_of(Comparison::LessThanEqual, left@, right@),
    {
        compare_outcome(Comparison::LessThanEqual, self.order(left, right))
    }

    pub fn compare_greater_than(&self, left: &Value, right: &Value) -> (r: Result<CmpBool, RustubError>)
        requires
            left@.type_id == self.type_id(),
        ensures
            r == compare_of(Comparison::GreaterThan, left@, right@),
    {
        compare_outcome(Comparison::GreaterThan, self.order(left, right))
    }

    pub fn compare_greater_than_equal(&self, left: &Value, right: &Value) -> (r: Result<CmpBool, RustubError>)
        requires
            left@.type_id == self.type_id(),
        ensures
            r == compare_of(Comparison::GreaterThanEqual, left@, right@),
    {
        compare_outcome(Comparison::GreaterThanEqual, self.order(left, right))
    }

    /// Applies an arithmetic operation to an integer and `right`. The exact
    /// result is computed and then placed in the wider of the two types; a
    /// VarChar on the right is cast to the integer's type first.
    pub fn arithmetic(&self, op: Arithmetic, left: &Value, right: &Value) -> (r: Result<
        Value,
        RustubError,
    >)
        requires
            left@.type_id == self.type_id(),
        ensures
            yields(r, arithmetic_of(op, left@, right@)),
    {
        let kind = self.kind();
        match refuse_operands(kind, right) {
            Some(e) => {
                return Err(e);
            },
            None => {},
        }
        let into = result_type_of(kind, right.type_id());
        if left.is_null() || right.is_null() {
            return Ok(Value::with_null(into));
        }
        let m: i64 = if right.check_integer() {
            right.as_number()
        } else {
            match right.cast_as(kind) {
                Err(e) => {
                    return Err(e);
                },
                Ok(cast) => cast.as_number(),
            }
        };
        let n: i64 = left.as_number();
        let exact: i128 = match op {
            Arithmetic::Add => n as i128 + m as i128,
            Arithmetic::Subtract => n as i128 - m as i128,
            Arithmetic::Multiply => multiply_exact(n, m),
            Arithmetic::Divide => {
                if m == 0 {
                    return Err(RustubError::DivideByZero);
                }
                divide_exact(n, m).0
            },
            Arithmetic::Modulo => {
                if m == 0 {
                    return Err(RustubError::DivideByZero);
                }
                divide_exact(n, m).1
            },
        };
        if into.can_hold(exact) {
            Ok(Value::with_integer_of(into, exact as i64))
        } else {
            Err(RustubError::NumericOutOfRange(into))
        }
    }

    pub fn add(&self, left: &Value, right: &Value) -> (r: Result<Value, RustubError>)
        requires
            left@.type_id == self.type_id(),
        ensures
            yields(r, arithmetic_of(Arithmetic::Add, left@, right@)),
    {
        self.arithmetic(Arithmetic::Add, left, right)
    }

    pub fn subtract(&self, left: &Value, right: &Value) -> (r: Result<Value, RustubError>)
        requires
            left@.type_id == self.type_id(),
        ensures
            yields(r, arithmetic_of(Arithmetic::Subtract, left@, right@)),
    {
        self.arithmetic(Arithmetic::Subtract, left, right)
    }

    pub fn multiply(&self, left: &Value, right: &Value) -> (r: Result<Value, RustubError>)
        requires
            left@.type_id == self.type_id(),
        ensures
            yields(r, arithmetic_of(Arithmetic::Multiply, left@, right@)),
    {
        self.arithmetic(Arithmetic::Multiply, left, right)
    }

    pub fn divide(&self, left: &Value, right: &Value) -> (r: Result<Value, RustubError>)
        requires
            left@.type_id == self.type_id(),
        ensures
            yields(r, arithmetic_of(Arithmetic::Divide, left@, right@)),
    {
        self.arithmetic(Arithmetic::Divide, left, right)
    }

    pub fn modulo(&self, left: &Value, right: &Value) -> (r: Result<Value, RustubError>)
        requires
            left@.type_id == self.type_id(),
        ensures
            yields(r, arithmetic_of(Arithmetic::Modulo, left@, right@)),
    {
        self.arithmetic(Arithmetic::Modulo, left, right)
    }

    /// The null that an operation on an integer and `right` gives where
    /// one of them is null.
    pub fn operate_null(&self, left: &Value, right: &Value) -> (r: Result<Value, RustubError>)
        requires
            left@.type_id == self.type_id(),
        ensures
            yields(r, operate_null_of(left@, right@)),
    {
        let kind = self.kind();
        match refuse_operands(kind, right) {
            Some(e) => Err(e),
            None => Ok(Value::with_null(result_type_of(kind, right.type_id()))),
        }
    }

    #[inline]
    pub fn is_inlined(&self, val: &Value) -> (r: bool)
        ensures
            r,
    {
        true
    }

    /// Whether the value is zero; a null is not.
    pub fn is_zero(&self, val: &Value) -> (r: bool)
        requires
            val@.type_id == self.type_id(),
        ensures
            r == zero_of(val@),
    {
        proof {
            use_type_invariant(self);
        }
        if val.is_null() {
            return false;
        }
        val.as_number() == 0
    }

    /// The decimal spelling of the integer, or the text of its null.
    pub fn to_text(&self, val: &Value) -> (text: Vec<u8>)
        requires
            val@.type_id == self.type_id(),
        ensures
            text@ == text_of(val@),
    {
        let kind = self.kind();
        if val.is_null() {
            return null_text_bytes(kind);
        }
        let n = val.as_number();
        if n < 0 {
            format_decimal(true, (-(n as i128)) as u64)
        } else {
            format_decimal(false, n as u64)
        }
    }

    pub fn to_string(&self, val: &Value) -> (s: String)
        requires
            val@.type_id == self.type_id(),
        ensures
            valid_utf8(text_of(val@)) ==> s@ == decode_utf8(text_of(val@)),
    {
        let text = self.to_text(val);
        string_from_text(text.as_slice())
    }

    /// Stores the integer at the start of `buf`, big-endian, in as many
    /// bytes as its type is wide.
    pub fn serialize(&self, val: &Value, buf: &mut [u8]) -> (r: Result<(), RustubError>)
        requires
            val@.type_id == self.type_id(),
        ensures
            stores(r, old(buf)@, final(buf)@, serialize_of(val@, old(buf)@.len())),
    {
        let kind = self.kind();
        if val.is_null() {
            return Err(RustubError::NullValue(kind));
        }
        match kind {
            TypeId::TinyInt => {
                if buf.len() < 1 {
                    return Err(RustubError::ContractViolation(Violation::BufferLength));
                }
                put_i8_at(buf, 0, val.as_tinyint());
            },
            TypeId::SmallInt => {
                if buf.len() < 2 {
                    return Err(RustubError::ContractViolation(Violation::BufferLength));
                }
                put_i16_at(buf, 0, val.as_smallint());
            },
            TypeId::Integer => {
                if buf.len() < 4 {
                    return Err(RustubError::ContractViolation(Violation::BufferLength));
                }
                put_i32_at(buf, 0, val.as_integer());
            },
            _ => {
                if buf.len() < 8 {
                    return Err(RustubError::ContractViolation(Violation::BufferLength));
                }
                put_i64_at(buf, 0, val.as_bigint());
            },
        }
        Ok(())
    }

    /// Reads an integer of the type from the start of `buf`.
    pub fn deserialize(&self, buf: &[u8]) -> (r: Result<Value, RustubError>)
        ensures
            yields(r, decode_of(self.type_id(), buf@)),
    {
        let kind = self.kind();
        proof {
            lemma_byte_range_values();
            if buf@.len() >= kind.integer_width() {
                lemma_field_range(buf@, 0, kind.integer_width());
            }
        }
        match kind {
            TypeId::TinyInt => {
                if buf.len() < 1 {
                    return Err(RustubError::ContractViolation(Violation::BufferLength));
                }
                Ok(Value::with_tinyint(get_i8_at(buf, 0)))
            },
            TypeId::SmallInt => {
                if buf.len() < 2 {
                    return Err(RustubError::ContractViolation(Violation::BufferLength));
                }
                Ok(Value::with_smallint(get_i16_at(buf, 0)))
            },
            TypeId::Integer => {
                if buf.len() < 4 {
                    return Err(RustubError::ContractViolation(Violation::BufferLength));
                }
                Ok(Value::with_integer(get_i32_at(buf, 0)))
            },
            _ => {
                if buf.len() < 8 {
                    return Err(RustubError::ContractViolation(Violation::BufferLength));
                }
                Ok(Value::with_bigint(get_i64_at(buf, 0)))
            },
        }
    }

    /// Casts an integer: to an integer type that can hold it, or to
    /// VarChar, which gives its decimal spelling. A null stays a null.
    pub fn cast_as(&self, val: &Value, typ: TypeId) -> (r: Result<Value, RustubError>)
        requires
            val@.type_id == self.type_id(),
        ensures
            yields(r, cast_of(val@, typ)),
    {
        let kind = self.kind();
        if !typ.is_integer() && typ != TypeId::VarChar {
            return Err(RustubError::UnsupportedCoercion(kind, typ));
        }
        if val.is_null() {
            return Ok(Value::with_null(typ));
        }
        if typ == TypeId::VarChar {
            let text = self.to_text(val);
            return Ok(Value::with_varchar(text.as_slice()));
        }
        let n = val.as_number();
        if typ.can_hold(n as i128) {
            Ok(Value::with_integer_of(typ, n))
        } else {
            Err(RustubError::NumericOutOfRange(typ))
        }
    }

    pub fn copy(&self, v: &Value) -> (r: Value)
        requires
            v@.type_id == self.type_id(),
        ensures
            r@ == v@,
    {
        let kind = self.kind();
        if v.is_null() {
            Value::with_null(kind)
        } else {
            Value::with_integer_of(kind, v.as_number())
        }
    }
}

} // verus!
