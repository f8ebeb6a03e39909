use crate::common::codec::{
    be_bytes, get_u32_at, lemma_be_bytes_len, put_slice_at, put_u32_at, splice,
};
use crate::common::error::{RustubError, Violation};
use crate::types::text::{
    compare_bytes, lemma_bytes_order_equal, parse_decimal_text, string_from_text, ParsedNumber,
};
use crate::types::value::{
    cast_of, compare_of, compare_outcome, decode_of, null_text_bytes, order_of, orders,
    parse_boolean, serialize_of, stores, text_of, yields, Comparison, Value,
};
use crate::types::{CmpBool, TypeId};
use vstd::prelude::*;
use vstd::slice::{slice_subrange, slice_to_vec};
use vstd::string::StringSliceAdditionalSpecFns;
use vstd::utf8::{decode_utf8, valid_utf8};

verus! {

/// Whether two byte strings are the same.
fn same_bytes(a: &[u8], b: &[u8]) -> (same: bool)
    ensures
        same == (a@ == b@),
{
    proof {
        lemma_bytes_order_equal(a@, b@);
    }
    compare_bytes(a, b) == 0
}

/// The Boolean that a text spells: `true`, `t` and `1` spell true,
/// `false`, `f` and `0` spell false.
pub fn parse_boolean_text(text: &[u8]) -> (parsed: Option<i8>)
    ensures
        parsed == parse_boolean(text@),
{
    if same_bytes(text, "true".as_bytes()) || same_bytes(text, "t".as_bytes()) || same_bytes(
        text,
        "1".as_bytes(),
    ) {
        Some(1)
    } else if same_bytes(text, "false".as_bytes()) || same_bytes(text, "f".as_bytes())
        || same_bytes(text, "0".as_bytes()) {
        Some(0)
    } else {
        None
    }
}

/// The behaviour of VarChar values: byte strings of any length.
pub struct VarCharType {}

impl VarCharType {
    pub fn new() -> (t: Self) {
        VarCharType {  }
    }

    /// How a VarChar compares with `right`, which is cast to VarChar
    /// first: as byte strings.
    pub fn order(&self, left: &Value, right: &Value) -> (r: Result<Option<i8>, RustubError>)
        requires
            left@.type_id == TypeId::VarChar,
        ensures
            orders(r, order_of(left@, right@)),
    {
        if left.is_null() || right.is_null() {
            return Ok(None);
        }
        match right.cast_as(TypeId::VarChar) {
            Err(e) => Err(e),
            Ok(cast) => Ok(Some(compare_bytes(left.as_varchar(), cast.as_varchar()))),
        }
    }

    pub fn compare_equal(&self, left: &Value, right: &Value) -> (r: Result<CmpBool, RustubError>)
        requires
            left@.type_id == TypeId::VarChar,
        ensures
            r == compare_of(Comparison::Equal, left@, right@),
    {
        compare_outcome(Comparison::Equal, self.order(left, right))
    }

    pub fn compare_not_equal(&self, left: &Value, right: &Value) -> (r: Result<CmpBool, RustubError>)
        requires
            left@.type_id == TypeId::VarChar,
        ensures
            r == compare_of(Comparison::NotEqual, left@, right@),
    {
        compare_outcome(Comparison::NotEqual, self.order(left, right))
    }

    pub fn compare_less_than(&self, left: &Value, right: &Value) -> (r: Result<CmpBool, RustubError>)
        requires
            left@.type_id == TypeId::VarChar,
        ensures
            r == compare_of(Comparison::LessThan, left@, right@),
    {
        compare_outcome(Comparison::LessThan, self.order(left, right))
    }

    pub fn compare_less_than_equal(&self, left: &Value, right: &Value) -> (r: Result<CmpBool, RustubError>)
        requires
            left@.type_id == TypeId::VarChar,
        ensures
            r == compare_of(Comparison::LessThanEqual, left@, right@),
    {
        compare_outcome(Comparison::LessThanEqual, self.order(left, right))
    }

    pub fn compare_greater_than(&self, left: &Value, right: &Value) -> (r: Result<CmpBool, RustubError>)
        requires
            left@.type_id == TypeId::VarChar,
        ensures
            r == compare_of(Comparison::GreaterThan, left@, right@),
    {
        compare_outcome(Comparison::GreaterThan, self.order(left, right))
    }

    pub fn compare_greater_than_equal(&self, left: &Value, right: &Value) -> (r: Result<CmpBool, RustubError>)
        requires
            left@.type_id == TypeId::VarChar,
        ensures
            r == compare_of(Comparison::GreaterThanEqual, left@, right@),
    {
        compare_outcome(Comparison::GreaterThanEqual, self.order(left, right))
    }

    /// A VarChar is not stored inside a tuple.
    #[inline]
    pub fn is_inlined(&self, val: &Value) -> (r: bool)
        ensures
            !r,
    {
        false
    }

    /// The bytes of the VarChar, or the text of its null.
    pub fn to_text(&self, val: &Value) -> (text: Vec<u8>)
        requires
            val@.type_id == TypeId::VarChar,
        ensures
            text@ == text_of(val@),
    {
        if val.is_null() {
            return null_text_bytes(TypeId::VarChar);
        }
        slice_to_vec(val.as_varchar())
    }

    pub fn to_string(&self, val: &Value) -> (s: String)
        requires
            val@.type_id == TypeId::VarChar,
        ensures
            valid_utf8(text_of(val@)) ==> s@ == decode_utf8(text_of(val@)),
    {
        let text = self.to_text(val);
        string_from_text(text.as_slice())
    }

    /// Stores the VarChar at the start of `buf`: its length in four
    /// big-endian bytes, then its bytes.
    pub fn serialize(&self, val: &Value, buf: &mut [u8]) -> (r: Result<(), RustubError>)
        requires
            val@.type_id == TypeId::VarChar,
        ensures
            stores(r, old(buf)@, final(buf)@, serialize_of(val@, old(buf)@.len())),
    {
        if val.is_null() {
            return Err(RustubError::NullValue(TypeId::VarChar));
        }
        let bytes = val.as_varchar();
        let len: usize = bytes.len();
        if len > u32::MAX as usize {
            return Err(RustubError::NumericOutOfRange(TypeId::VarChar));
        }
        if buf.len() < 4 || buf.len() - 4 < len {
            return Err(RustubError::ContractViolation(Violation::BufferLength));
        }
        put_u32_at(buf, 0, len as u32);
        put_slice_at(buf, 4, bytes);
        proof {
            lemma_be_bytes_len(len as nat, 4);
            assert(buf@ =~= splice(old(buf)@, 0, be_bytes(len as nat, 4) + bytes@));
        }
        Ok(())
    }

    /// Reads a VarChar from the start of `buf`: a length, then so many bytes.
    pub fn deserialize(&self, buf: &[u8]) -> (r: Result<Value, RustubError>)
        ensures
            yields(r, decode_of(TypeId::VarChar, buf@)),
    {
        if buf.len() < 4 {
            return Err(RustubError::ContractViolation(Violation::BufferLength));
        }
        let len = get_u32_at(buf, 0);
        if buf.len() - 4 < len as usize {
            return Err(RustubError::ContractViolation(Violation::BufferLength));
        }
        Ok(Value::with_varchar(slice_subrange(buf, 4, 4 + len as usize)))
    }

    /// Casts a VarChar: to VarChar, which copies it, or to the type whose
    /// value its text spells. A null stays a null. A text that spells no
    /// value of the target, or one that the target cannot hold, fails.
    pub fn cast_as(&self, val: &Value, typ: TypeId) -> (r: Result<Value, RustubError>)
        requires
            val@.type_id == TypeId::VarChar,
        ensures
            yields(r, cast_of(val@, typ)),
    {
        if typ != TypeId::Boolean && !typ.is_integer() && typ != TypeId::Timestamp && typ
            != TypeId::VarChar {
            return Err(RustubError::UnsupportedCoercion(TypeId::VarChar, typ));
        }
        if val.is_null() {
            return Ok(Value::with_null(typ));
        }
        let text = val.as_varchar();
        if typ == TypeId::VarChar {
            return Ok(Value::with_varchar(text));
        }
        if typ == TypeId::Boolean {
            return match parse_boolean_text(text) {
                Some(b) => Ok(Value::with_boolean(b)),
                None => Err(RustubError::InvalidText(typ)),
            };
        }
        match parse_decimal_text(text) {
            ParsedNumber::Invalid => Err(RustubError::InvalidText(typ)),
            ParsedNumber::TooLarge => Err(RustubError::NumericOutOfRange(typ)),
            ParsedNumber::Number { negative, magnitude } => {
                if typ == TypeId::Timestamp {
                    if negative && magnitude > 0 {
                        Err(RustubError::NumericOutOfRange(typ))
                    } else {
                        Ok(Value::with_timestamp(magnitude))
                    }
                } else {
                    let n: i128 = if negative {
                        -(magnitude as i128)
                    } else {
                        magnitude as i128
                    };
                    if typ.can_hold(n) {
                        Ok(Value::with_integer_of(typ, n as i64))
                    } else {
                        Err(RustubError::NumericOutOfRange(typ))
                    }
                }
            },
        }
    }

    pub fn copy(&self, v: &Value) -> (r: Value)
        requires
            v@.type_id == TypeId::VarChar,
        ensures
            r@ == v@,
    {
        if v.is_null() {
            Value::with_null(TypeId::VarChar)
        } else {
            Value::with_varchar(v.as_varchar())
        }
    }
}

} // verus!
