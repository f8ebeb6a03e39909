use crate::common::codec::{get_i8_at, put_i8_at};
use crate::common::error::{RustubError, Violation};
use crate::types::text::string_from_text;
use crate::types::value::{
    cast_of, compare_of, compare_outcome, decode_of, null_text_bytes, order_of, orders,
    serialize_of, sign_between, stores, text_of, yields, Comparison, Value,
};
use crate::types::{CmpBool, TypeId};
use vstd::prelude::*;
use vstd::slice::slice_to_vec;
use vstd::utf8::{decode_utf8, valid_utf8};

verus! {

/// The behaviour of Boolean values. A Boolean holds 1 for true and 0 for
/// false.
pub struct BooleanType {
    type_id: TypeId,
}

impl BooleanType {
    pub fn new() -> (t: Self)
        ensures
            t.type_id() == TypeId::Boolean,
    {
        BooleanType { type_id: TypeId::Boolean }
    }

    /// The type whose values this serves.
    pub closed spec fn type_id(&self) -> TypeId {
        self.type_id
    }

    /// How a Boolean compares with `right`, which is cast to Boolean first.
    pub fn order(&self, left: &Value, right: &Value) -> (r: Result<Option<i8>, RustubError>)
        requires
            left@.type_id == TypeId::Boolean,
        ensures
            orders(r, order_of(left@, right@)),
    {
        if !left.check_comparable(right) {
            return Err(RustubError::IncomparableTypes(TypeId::Boolean, right.type_id()));
        }
        if left.is_null() || right.is_null() {
            return Ok(None);
        }
        match right.cast_as(TypeId::Boolean) {
            Err(e) => Err(e),
            Ok(cast) => Ok(
                Some(sign_between(left.as_boolean() as i128, cast.as_boolean() as i128)),
            ),
        }
    }

    pub fn compare_equal(&self, left: &Value, right: &Value) -> (r: Result<CmpBool, RustubError>)
        requires
            left@.type_id == TypeId::Boolean,
        ensures
            r == compare_of(Comparison::Equal, left@, right@),
    {
        compare_outcome(Comparison::Equal, self.order(left, right))
    }

    pub fn compare_not_equal(&self, left: &Value, right: &Value) -> (r: Result<CmpBool, RustubError>)
        requires
            left@.type_id == TypeId::Boolean,
        ensures
            r == compare_of(Comparison::NotEqual, left@, right@),
    {
        compare_outcome(Comparison::NotEqual, self.order(left, right))
    }

    pub fn compare_less_than(&self, left: &Value, right: &Value) -> (r: Result<CmpBool, RustubError>)
        requires
            left@.type_id == TypeId::Boolean,
        ensures
            r == compare_of(Comparison::LessThan, left@, right@),
    {
        compare_outcome(Comparison::LessThan, self.order(left, right))
    }

    pub fn compare_less_than_equal(&self, left: &Value, right: &Value) -> (r: Result<CmpBool, RustubError>)
        requires
            left@.type_id == TypeId::Boolean,
        ensures
            r == compare_of(Comparison::LessThanEqual, left@, right@),
    {
        compare_outcome(Comparison::LessThanEqual, self.order(left, right))
    }

    pub fn compare_greater_than(&self, left: &Value, right: &Value) -> (r: Result<CmpBool, RustubError>)
        requires
            left@.type_id == TypeId::Boolean,
        ensures
            r == compare_of(Comparison::GreaterThan, left@, right@),
    {
        compare_outcome(Comparison::GreaterThan, self.order(left, right))
    }

    pub fn compare_greater_than_equal(&self, left: &Value, right: &Value) -> (r: Result<CmpBool, RustubError>)
        requires
            left@.type_id == TypeId::Boolean,
        ensures
            r == compare_of(Comparison::GreaterThanEqual, left@, right@),
    {
        compare_outcome(Comparison::GreaterThanEqual, self.order(left, right))
    }

    #[inline]
    pub fn is_inlined(&self, val: &Value) -> (r: bool)
        ensures
            r,
    {
        true
    }

    /// The text of a Boolean: `true`, `false`, or the text of its null.
    pub fn to_text(&self, val: &Value) -> (text: Vec<u8>)
        requires
            val@.type_id == TypeId::Boolean,
        ensures
            text@ == text_of(val@),
    {
        if val.is_null() {
            return null_text_bytes(TypeId::Boolean);
        }
        let v = val.as_boolean();
        if v == 1 {
            return slice_to_vec("true".as_bytes());
        }
        if v == 0 {
            return slice_to_vec("false".as_bytes());
        }
        slice_to_vec("boolean_null".as_bytes())
    }

    pub fn to_string(&self, val: &Value) -> (s: String)
        requires
            val@.type_id == TypeId::Boolean,
        ensures
            valid_utf8(text_of(val@)) ==> s@ == decode_utf8(text_of(val@)),
    {
        let text = self.to_text(val);
        string_from_text(text.as_slice())
    }

    /// Stores the Boolean in one byte at the start of `buf`.
    pub fn serialize(&self, val: &Value, buf: &mut [u8]) -> (r: Result<(), RustubError>)
        requires
            val@.type_id == TypeId::Boolean,
        ensures
            stores(r, old(buf)@, final(buf)@, serialize_of(val@, old(buf)@.len())),
    {
        if val.is_null() {
            return Err(RustubError::NullValue(TypeId::Boolean));
        }
        if buf.len() < 1 {
            return Err(RustubError::ContractViolation(Violation::BufferLength));
        }
        put_i8_at(buf, 0, val.as_boolean());
        Ok(())
    }

    /// Reads a Boolean from the first byte of `buf`.
    pub fn deserialize(&self, buf: &[u8]) -> (r: Result<Value, RustubError>)
        ensures
            yields(r, decode_of(TypeId::Boolean, buf@)),
    {
        if buf.len() < 1 {
            return Err(RustubError::ContractViolation(Violation::BufferLength));
        }
        let v = get_i8_at(buf, 0);
        Ok(Value::with_boolean(v))
    }

    /// Casts a Boolean: to Boolean, which copies it, or to VarChar, which
    /// gives its text. A null stays a null. Every other target is refused.
    pub fn cast_as(&self, val: &Value, typ: TypeId) -> (r: Result<Value, RustubError>)
        requires
            val@.type_id == TypeId::Boolean,
        ensures
            yields(r, cast_of(val@, typ)),
    {
        match typ {
            TypeId::Boolean => Ok(self.copy(val)),
            TypeId::VarChar => {
                if val.is_null() {
                    return Ok(Value::with_null(TypeId::VarChar));
                }
                let text = self.to_text(val);
                Ok(Value::with_varchar(text.as_slice()))
            },
            _ => Err(RustubError::UnsupportedCoercion(TypeId::Boolean, typ)),
        }
    }

    #[inline]
    pub fn copy(&self, v: &Value) -> (r: Value)
        requires
            v@.type_id == TypeId::Boolean,
        ensures
            r@ == v@,
    {
        if v.is_null() {
            Value::with_null(TypeId::Boolean)
        } else {
            Value::with_boolean(v.as_boolean())
        }
    }
}

} // verus!
