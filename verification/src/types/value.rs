use crate::common::codec::{
    be_bytes, get_u64_at, lemma_be_bytes_len, lemma_be_value_of_bytes, lemma_byte_range_values,
    lemma_field_range, lemma_signed_round_trip, put_u64_at, signed_at, to_unsigned, unsigned_at,
};
use crate::common::error::{RustubError, Violation};
use crate::types::boolean::BooleanType;
use crate::types::integer::IntegerType;
use crate::types::text::{
    bytes_order, decimal_text, format_decimal, lemma_decimal_round_trip, parse_decimal,
    string_from_text,
};
use crate::types::varchar::VarCharType;
use crate::types::{CmpBool, TypeId};
use vstd::prelude::*;
use vstd::slice::slice_to_vec;
use vstd::string::StringSliceAdditionalSpecFns;
use vstd::utf8::{decode_utf8, valid_utf8};

verus! {

/// Comparable matrix: a Boolean compares with a Boolean or a VarChar; the
/// numeric types compare with each other and with a VarChar; a VarChar
/// compares with everything; nothing else compares.
pub open spec fn comparable(left: TypeId, right: TypeId) -> bool {
    match left {
        TypeId::Boolean => right == TypeId::Boolean || right == TypeId::VarChar,
        TypeId::TinyInt | TypeId::SmallInt | TypeId::Integer | TypeId::BigInt | TypeId::Decimal => {
            right.is_numeric() || right == TypeId::VarChar
        },
        TypeId::VarChar => true,
        _ => false,
    }
}

/// Casting matrix: a Boolean casts to Boolean and VarChar; an integer to
/// every integer type and to VarChar; a VarChar to Boolean, the integer
/// types, Timestamp and VarChar; a Timestamp to Timestamp and VarChar; a
/// Decimal to Decimal.
pub open spec fn castable(from: TypeId, to: TypeId) -> bool {
    match from {
        TypeId::Boolean => to == TypeId::Boolean || to == TypeId::VarChar,
        TypeId::TinyInt | TypeId::SmallInt | TypeId::Integer | TypeId::BigInt => {
            to.is_integer_kind() || to == TypeId::VarChar
        },
        TypeId::Decimal => to == TypeId::Decimal,
        TypeId::VarChar => to == TypeId::Boolean || to.is_integer_kind() || to == TypeId::Timestamp
            || to == TypeId::VarChar,
        TypeId::Timestamp => to == TypeId::Timestamp || to == TypeId::VarChar,
        TypeId::Invalid => false,
    }
}

/// The payload of a value.
pub enum Datum {
    Null,
    Boolean(i8),
    TinyInt(i8),
    SmallInt(i16),
    Integer(i32),
    BigInt(i64),
    Timestamp(u64),
    VarChar(Seq<u8>),
}

impl Datum {
    /// The type whose payload this is; `Invalid` for `Null`, which has none.
    pub open spec fn type_id(self) -> TypeId {
        match self {
            Datum::Null => TypeId::Invalid,
            Datum::Boolean(_) => TypeId::Boolean,
            Datum::TinyInt(_) => TypeId::TinyInt,
            Datum::SmallInt(_) => TypeId::SmallInt,
            Datum::Integer(_) => TypeId::Integer,
            Datum::BigInt(_) => TypeId::BigInt,
            Datum::Timestamp(_) => TypeId::Timestamp,
            Datum::VarChar(_) => TypeId::VarChar,
        }
    }

    /// The number that an integer payload holds (0 for other payloads).
    pub open spec fn integer(self) -> int {
        match self {
            Datum::TinyInt(v) => v as int,
            Datum::SmallInt(v) => v as int,
            Datum::Integer(v) => v as int,
            Datum::BigInt(v) => v as int,
            _ => 0,
        }
    }

    /// The payload of integer type `t` that holds `v`.
    pub open spec fn of_integer(t: TypeId, v: int) -> Datum {
        match t {
            TypeId::TinyInt => Datum::TinyInt(v as i8),
            TypeId::SmallInt => Datum::SmallInt(v as i16),
            TypeId::Integer => Datum::Integer(v as i32),
            _ => Datum::BigInt(v as i64),
        }
    }
}

/// A value as contracts see it: the declared type and the payload.
pub struct ValueView {
    pub type_id: TypeId,
    pub datum: Datum,
}

impl ValueView {
    /// The payload is of the declared type; a null gives none.
    pub open spec fn wf(self) -> bool {
        self.datum is Null || self.datum.type_id() == self.type_id
    }

    pub open spec fn is_null(self) -> bool {
        self.datum is Null
    }

    /// The null of type `t`.
    pub open spec fn null(t: TypeId) -> ValueView {
        ValueView { type_id: t, datum: Datum::Null }
    }

    /// The value `v` of integer type `t`.
    pub open spec fn integer(t: TypeId, v: int) -> ValueView {
        ValueView { type_id: t, datum: Datum::of_integer(t, v) }
    }

    /// The VarChar that holds `bytes`.
    pub open spec fn varchar(bytes: Seq<u8>) -> ValueView {
        ValueView { type_id: TypeId::VarChar, datum: Datum::VarChar(bytes) }
    }
}

/// The text of a Boolean payload.
pub open spec fn boolean_text(v: i8) -> Seq<u8> {
    if v == 1 {
        "true".spec_bytes()
    } else if v == 0 {
        "false".spec_bytes()
    } else {
        "boolean_null".spec_bytes()
    }
}

/// The Boolean payload that a text spells, if any.
pub open spec fn parse_boolean(text: Seq<u8>) -> Option<i8> {
    if text == "true".spec_bytes() || text == "t".spec_bytes() || text == "1".spec_bytes() {
        Some(1i8)
    } else if text == "false".spec_bytes() || text == "f".spec_bytes() || text
        == "0".spec_bytes() {
        Some(0i8)
    } else {
        None
    }
}

/// The text that stands for the null of a type.
pub open spec fn null_text(t: TypeId) -> Seq<u8> {
    match t {
        TypeId::Invalid => "invalid_null".spec_bytes(),
        TypeId::Boolean => "boolean_null".spec_bytes(),
        TypeId::TinyInt => "tinyint_null".spec_bytes(),
        TypeId::SmallInt => "smallint_null".spec_bytes(),
        TypeId::Integer => "integer_null".spec_bytes(),
        TypeId::BigInt => "bigint_null".spec_bytes(),
        TypeId::Decimal => "decimal_null".spec_bytes(),
        TypeId::VarChar => "varlen_null".spec_bytes(),
        TypeId::Timestamp => "timestamp_null".spec_bytes(),
    }
}

/// The text of a value: `true` or `false` for a Boolean, the decimal
/// spelling for an integer and a Timestamp, the bytes themselves for a
/// VarChar.
pub open spec fn text_of(v: ValueView) -> Seq<u8> {
    match v.datum {
        Datum::Null => null_text(v.type_id),
        Datum::Boolean(b) => boolean_text(b),
        Datum::Timestamp(t) => decimal_text(t as int),
        Datum::VarChar(s) => s,
        _ => decimal_text(v.datum.integer()),
    }
}

/// What a cast of `v` to the type `to` gives. A cast outside the casting
/// matrix fails and names both types. A null casts to the null of the
/// target. A number that the target cannot hold, and a text that spells no
/// value of the target, fail.
pub open spec fn cast_of(v: ValueView, to: TypeId) -> Result<ValueView, RustubError> {
    if !castable(v.type_id, to) {
        Err(RustubError::UnsupportedCoercion(v.type_id, to))
    } else if v.is_null() {
        Ok(ValueView::null(to))
    } else if to == v.type_id {
        Ok(v)
    } else if to == TypeId::VarChar {
        Ok(ValueView::varchar(text_of(v)))
    } else if v.datum is VarChar {
        cast_of_text(v.datum->VarChar_0, to)
    } else {
        cast_of_integer(v.datum.integer(), to)
    }
}

/// The value of integer type `to` that holds `n`, where it can.
pub open spec fn cast_of_integer(n: int, to: TypeId) -> Result<ValueView, RustubError> {
    if to.holds(n) {
        Ok(ValueView::integer(to, n))
    } else {
        Err(RustubError::NumericOutOfRange(to))
    }
}

/// The value of type `to` that a text spells, where it spells one.
pub open spec fn cast_of_text(text: Seq<u8>, to: TypeId) -> Result<ValueView, RustubError> {
    if to == TypeId::Boolean {
        match parse_boolean(text) {
            Some(b) => Ok(ValueView { type_id: TypeId::Boolean, datum: Datum::Boolean(b) }),
            None => Err(RustubError::InvalidText(to)),
        }
    } else {
        match parse_decimal(text) {
            None => Err(RustubError::InvalidText(to)),
            Some(n) => if to == TypeId::Timestamp {
                if 0 <= n <= u64::MAX {
                    Ok(ValueView { type_id: TypeId::Timestamp, datum: Datum::Timestamp(n as u64) })
                } else {
                    Err(RustubError::NumericOutOfRange(to))
                }
            } else {
                cast_of_integer(n, to)
            },
        }
    }
}

/// How two values compare: -1, 0 or 1 as the left is below, equal to or
/// above the right, `None` where either is null. Values whose types are
/// not comparable fail. Integers compare as numbers, whatever their
/// widths. A VarChar on the right is first cast to the type of the left;
/// for a VarChar on the left, the right is cast to VarChar, and the two
/// compare as byte strings.
pub open spec fn order_of(left: ValueView, right: ValueView) -> Result<Option<int>, RustubError> {
    if !comparable(left.type_id, right.type_id) {
        Err(RustubError::IncomparableTypes(left.type_id, right.type_id))
    } else if left.is_null() || right.is_null() {
        Ok(None)
    } else if left.type_id.is_integer_kind() && right.type_id.is_integer_kind() {
        Ok(Some(sign_of(left.datum.integer() - right.datum.integer())))
    } else {
        match cast_of(right, left.type_id) {
            Err(e) => Err(e),
            Ok(cast) => Ok(Some(payload_order(left.datum, cast.datum))),
        }
    }
}

/// -1, 0 or 1 as `d` is negative, zero or positive.
pub open spec fn sign_of(d: int) -> int {
    if d < 0 {
        -1
    } else if d == 0 {
        0
    } else {
        1
    }
}

/// How two payloads of one type compare.
pub open spec fn payload_order(left: Datum, right: Datum) -> int {
    match (left, right) {
        (Datum::Boolean(a), Datum::Boolean(b)) => sign_of(a - b),
        (Datum::VarChar(a), Datum::VarChar(b)) => bytes_order(a, b),
        (Datum::Timestamp(a), Datum::Timestamp(b)) => sign_of(a - b),
        _ => sign_of(left.integer() - right.integer()),
    }
}

/// The six comparisons.
#[derive(Clone, Copy, Debug, PartialEq, Eq, Structural)]
pub enum Comparison {
    Equal,
    NotEqual,
    LessThan,
    LessThanEqual,
    GreaterThan,
    GreaterThanEqual,
}

impl Comparison {
    /// Whether the comparison holds of two values that compare as `order`.
    pub open spec fn holds(self, order: int) -> bool {
        match self {
            Comparison::Equal => order == 0,
            Comparison::NotEqual => order != 0,
            Comparison::LessThan => order < 0,
            Comparison::LessThanEqual => order <= 0,
            Comparison::GreaterThan => order > 0,
            Comparison::GreaterThanEqual => order >= 0,
        }
    }
}

/// The outcome of a comparison: `Null` where either operand is null.
pub open spec fn compare_of(op: Comparison, left: ValueView, right: ValueView) -> Result<
    CmpBool,
    RustubError,
> {
    match order_of(left, right) {
        Err(e) => Err(e),
        Ok(None) => Ok(CmpBool::Null),
        Ok(Some(order)) => Ok(CmpBool::of_bool(op.holds(order))),
    }
}

/// A comparison with a null of a comparable type yields `Null`, whichever
/// side the null stands on.
pub proof fn lemma_null_propagates(op: Comparison, v: ValueView, n: ValueView)
    requires
        n.is_null(),
        comparable(v.type_id, n.type_id),
        comparable(n.type_id, v.type_id),
    ensures
        compare_of(op, v, n) == Ok::<CmpBool, RustubError>(CmpBool::Null),
        compare_of(op, n, v) == Ok::<CmpBool, RustubError>(CmpBool::Null),
{
}

/// A cast of a value to its own type gives the value back.
pub proof fn lemma_cast_identity(v: ValueView)
    requires
        v.wf(),
        v.type_id != TypeId::Invalid,
    ensures
        cast_of(v, v.type_id) == Ok::<ValueView, RustubError>(v),
{
}

/// The bytes that store a payload: an integer in as many big-endian two's
/// complement bytes as its type is wide, a Boolean in one, a Timestamp in
/// eight, a VarChar as its length in four bytes and then its bytes.
pub open spec fn encoding_of(v: ValueView) -> Seq<u8> {
    match v.datum {
        Datum::Null => Seq::empty(),
        Datum::Boolean(b) => be_bytes(to_unsigned(b as int, 1), 1),
        Datum::TinyInt(x) => be_bytes(to_unsigned(x as int, 1), 1),
        Datum::SmallInt(x) => be_bytes(to_unsigned(x as int, 2), 2),
        Datum::Integer(x) => be_bytes(to_unsigned(x as int, 4), 4),
        Datum::BigInt(x) => be_bytes(to_unsigned(x as int, 8), 8),
        Datum::Timestamp(t) => be_bytes(t as nat, 8),
        Datum::VarChar(s) => be_bytes(s.len(), 4) + s,
    }
}

/// How many bytes store a payload.
pub open spec fn encoded_len(v: ValueView) -> nat {
    match v.datum {
        Datum::Null => 0,
        Datum::Boolean(_) => 1,
        Datum::TinyInt(_) => 1,
        Datum::SmallInt(_) => 2,
        Datum::Integer(_) => 4,
        Datum::BigInt(_) => 8,
        Datum::Timestamp(_) => 8,
        Datum::VarChar(s) => 4 + s.len(),
    }
}

/// What storing `v` in a buffer of `room` bytes writes at its start. A
/// null has no payload to store, a VarChar of more than `u32::MAX` bytes no
/// length field, and a buffer may be too short.
pub open spec fn serialize_of(v: ValueView, room: nat) -> Result<Seq<u8>, RustubError> {
    if v.is_null() {
        Err(RustubError::NullValue(v.type_id))
    } else if encoded_len(v) > 4 + u32::MAX {
        Err(RustubError::NumericOutOfRange(TypeId::VarChar))
    } else if room < encoded_len(v) {
        Err(RustubError::ContractViolation(Violation::BufferLength))
    } else {
        Ok(encoding_of(v))
    }
}

/// The value of type `t` that the start of `bytes` stores.
pub open spec fn decode_of(t: TypeId, bytes: Seq<u8>) -> Result<ValueView, RustubError> {
    match t {
        TypeId::Invalid | TypeId::Decimal => Err(RustubError::UnsupportedType(t)),
        TypeId::VarChar => {
            if bytes.len() < 4 || bytes.len() < 4 + unsigned_at(bytes, 0, 4) {
                Err(RustubError::ContractViolation(Violation::BufferLength))
            } else {
                Ok(ValueView::varchar(bytes.subrange(4, 4 + unsigned_at(bytes, 0, 4) as int)))
            }
        },
        TypeId::Boolean => {
            if bytes.len() < 1 {
                Err(RustubError::ContractViolation(Violation::BufferLength))
            } else {
                Ok(
                    ValueView {
                        type_id: t,
                        datum: Datum::Boolean(signed_at(bytes, 0, 1) as i8),
                    },
                )
            }
        },
        TypeId::Timestamp => {
            if bytes.len() < 8 {
                Err(RustubError::ContractViolation(Violation::BufferLength))
            } else {
                Ok(
                    ValueView {
                        type_id: t,
                        datum: Datum::Timestamp(unsigned_at(bytes, 0, 8) as u64),
                    },
                )
            }
        },
        _ => {
            if bytes.len() < t.integer_width() {
                Err(RustubError::ContractViolation(Violation::BufferLength))
            } else {
                Ok(ValueView::integer(t, signed_at(bytes, 0, t.integer_width() as int)))
            }
        },
    }
}

/// The five operations of integer arithmetic.
#[derive(Clone, Copy, Debug, PartialEq, Eq, Structural)]
pub enum Arithmetic {
    Add,
    Subtract,
    Multiply,
    Divide,
    Modulo,
}

/// The quotient of `n` by `m`, rounded towards zero.
pub open spec fn quotient(n: int, m: int) -> int {
    let q = (if n < 0 {
        -n
    } else {
        n
    }) / (if m < 0 {
        -m
    } else {
        m
    });
    if (n < 0) != (m < 0) {
        -q
    } else {
        q
    }
}

/// The remainder that goes with `quotient`; it has the sign of `n`.
pub open spec fn remainder(n: int, m: int) -> int {
    n - m * quotient(n, m)
}

impl Arithmetic {
    /// The exact result on two integers; `None` for a division by zero.
    pub open spec fn apply(self, n: int, m: int) -> Option<int> {
        match self {
            Arithmetic::Add => Some(n + m),
            Arithmetic::Subtract => Some(n - m),
            Arithmetic::Multiply => Some(n * m),
            Arithmetic::Divide => if m == 0 {
                None
            } else {
                Some(quotient(n, m))
            },
            Arithmetic::Modulo => if m == 0 {
                None
            } else {
                Some(remainder(n, m))
            },
        }
    }
}

/// The type of the result of an operation: the wider of two integer
/// types, Decimal where the right operand is one, else the type of the
/// left operand.
pub open spec fn result_type(left: TypeId, right: TypeId) -> TypeId {
    if right == TypeId::Decimal {
        TypeId::Decimal
    } else if left.is_integer_kind() && right.is_integer_kind() && right.integer_width()
        > left.integer_width() {
        right
    } else {
        left
    }
}

/// Which error refuses an operation on operands of these types, if any:
/// the types must be comparable and the left one an integer type.
pub open spec fn operands_refused(left: TypeId, right: TypeId) -> Option<RustubError> {
    if !comparable(left, right) {
        Some(RustubError::IncomparableTypes(left, right))
    } else if !left.is_integer_kind() {
        Some(RustubError::UnsupportedCoercion(left, right))
    } else {
        None
    }
}

/// The null that an operation gives for a null operand: it has the type
/// of the result.
pub open spec fn operate_null_of(left: ValueView, right: ValueView) -> Result<
    ValueView,
    RustubError,
> {
    match operands_refused(left.type_id, right.type_id) {
        Some(e) => Err(e),
        None => Ok(ValueView::null(result_type(left.type_id, right.type_id))),
    }
}

/// The number that the right operand contributes: its own where it is an
/// integer, else what its cast to the type of the left operand holds.
pub open spec fn right_number(left: ValueView, right: ValueView) -> Result<int, RustubError> {
    if right.type_id.is_integer_kind() {
        Ok(right.datum.integer())
    } else {
        match cast_of(right, left.type_id) {
            Err(e) => Err(e),
            Ok(cast) => Ok(cast.datum.integer()),
        }
    }
}

/// What an arithmetic operation gives: the exact result in the result
/// type, a null where an operand is null, and a failure for a division by
/// zero and for a result that the type cannot hold.
pub open spec fn arithmetic_of(op: Arithmetic, left: ValueView, right: ValueView) -> Result<
    ValueView,
    RustubError,
> {
    let into = result_type(left.type_id, right.type_id);
    match operands_refused(left.type_id, right.type_id) {
        Some(e) => Err(e),
        None => if left.is_null() || right.is_null() {
            Ok(ValueView::null(into))
        } else {
            match right_number(left, right) {
                Err(e) => Err(e),
                Ok(m) => match op.apply(left.datum.integer(), m) {
                    None => Err(RustubError::DivideByZero),
                    Some(r) => cast_of_integer(r, into),
                },
            }
        },
    }
}

/// The smaller (`smaller` set) or the larger of two values: the left one
/// where it is strictly below (for the larger: not below) the right one,
/// else the right one. A null of the result type where either is null.
pub open spec fn extreme_of(smaller: bool, left: ValueView, right: ValueView) -> Result<
    ValueView,
    RustubError,
> {
    match order_of(left, right) {
        Err(e) => Err(e),
        Ok(None) => Ok(ValueView::null(result_type(left.type_id, right.type_id))),
        Ok(Some(order)) => Ok(
            if (order < 0) == smaller {
                left
            } else {
                right
            },
        ),
    }
}

/// Whether the value is an integer zero.
pub open spec fn zero_of(v: ValueView) -> bool {
    v.type_id.is_integer_kind() && !v.is_null() && v.datum.integer() == 0
}

/// Whether an outcome is the one that a contract names: the same failure,
/// or a value with the named content.
pub open spec fn yields(r: Result<Value, RustubError>, named: Result<ValueView, RustubError>) -> bool {
    match (r, named) {
        (Ok(v), Ok(w)) => v@ == w,
        (Err(e), Err(f)) => e == f,
        _ => false,
    }
}

/// Whether a computed order is the one that a contract names.
pub open spec fn orders(
    r: Result<Option<i8>, RustubError>,
    named: Result<Option<int>, RustubError>,
) -> bool {
    match (r, named) {
        (Ok(None), Ok(None)) => true,
        (Ok(Some(a)), Ok(Some(b))) => a == b,
        (Err(e), Err(f)) => e == f,
        _ => false,
    }
}

/// Whether a write into a buffer went as a contract names it: the named
/// bytes at the start of the buffer and nothing else changed, or the
/// named failure and nothing changed.
pub open spec fn stores(
    r: Result<(), RustubError>,
    before: Seq<u8>,
    after: Seq<u8>,
    named: Result<Seq<u8>, RustubError>,
) -> bool {
    match named {
        Ok(bytes) => r is Ok && after == crate::common::codec::splice(before, 0, bytes),
        Err(e) => r == Err::<(), RustubError>(e) && after == before,
    }
}

/// An integer that is cast to VarChar and back to its type is the same
/// integer: the text of a number spells the number.
pub proof fn lemma_cast_through_text(v: ValueView)
    requires
        v.wf(),
        v.type_id.is_integer_kind(),
        !v.is_null(),
    ensures
        cast_of(v, TypeId::VarChar) == Ok::<ValueView, RustubError>(
            ValueView::varchar(decimal_text(v.datum.integer())),
        ),
        cast_of(ValueView::varchar(decimal_text(v.datum.integer())), v.type_id) == Ok::<
            ValueView,
            RustubError,
        >(v),
{
    lemma_decimal_round_trip(v.datum.integer());
}

/// What was stored is what is read: the bytes that store a value, whatever
/// follows them, decode to the value.
pub proof fn lemma_decode_encoding(v: ValueView, rest: Seq<u8>)
    requires
        v.wf(),
        !v.is_null(),
        v.datum matches Datum::VarChar(s) ==> s.len() <= u32::MAX,
    ensures
        encoding_of(v).len() == encoded_len(v),
        decode_of(v.type_id, encoding_of(v) + rest) == Ok::<ValueView, RustubError>(v),
{
    lemma_byte_range_values();
    let bytes = encoding_of(v) + rest;
    match v.datum {
        Datum::VarChar(s) => {
            let head = be_bytes(s.len(), 4);
            lemma_be_bytes_len(s.len(), 4);
            lemma_be_value_of_bytes(s.len(), 4);
            assert(bytes.subrange(0, 4) =~= head);
            assert(bytes.subrange(4, 4 + s.len() as int) =~= s);
        },
        Datum::Timestamp(t) => {
            lemma_be_bytes_len(t as nat, 8);
            lemma_be_value_of_bytes(t as nat, 8);
            assert(bytes.subrange(0, 8) =~= be_bytes(t as nat, 8));
        },
        Datum::Boolean(b) => {
            lemma_stored_integer(b as int, 1, rest);
        },
        Datum::TinyInt(x) => {
            lemma_stored_integer(x as int, 1, rest);
        },
        Datum::SmallInt(x) => {
            lemma_stored_integer(x as int, 2, rest);
        },
        Datum::Integer(x) => {
            lemma_stored_integer(x as int, 4, rest);
        },
        Datum::BigInt(x) => {
            lemma_stored_integer(x as int, 8, rest);
        },
        Datum::Null => {},
    }
}

/// The `n` bytes that store an integer, whatever follows them, hold the
/// integer.
proof fn lemma_stored_integer(x: int, n: nat, rest: Seq<u8>)
    requires
        n > 0,
        -(crate::common::codec::byte_range(n) as int) <= 2 * x < crate::common::codec::byte_range(
            n,
        ),
    ensures
        be_bytes(to_unsigned(x, n), n).len() == n,
        signed_at(be_bytes(to_unsigned(x, n), n) + rest, 0, n as int) == x,
{
    let field = be_bytes(to_unsigned(x, n), n);
    lemma_signed_round_trip(x, n);
    lemma_be_bytes_len(to_unsigned(x, n), n);
    lemma_be_value_of_bytes(to_unsigned(x, n), n);
    assert((field + rest).subrange(0, n as int) =~= field);
}

enum Val {
    Boolean(i8),
    TinyInt(i8),
    SmallInt(i16),
    Int(i32),
    BigInt(i64),
    Timestamp(u64),
    Varlen(Vec<u8>),
    Null,
}

pub struct Value {
    value: Val,
    type_id: TypeId,
}

impl View for Value {
    type V = ValueView;

    closed spec fn view(&self) -> ValueView {
        ValueView {
            type_id: self.type_id,
            datum: match self.value {
                Val::Boolean(v) => Datum::Boolean(v),
                Val::TinyInt(v) => Datum::TinyInt(v),
                Val::SmallInt(v) => Datum::SmallInt(v),
                Val::Int(v) => Datum::Integer(v),
                Val::BigInt(v) => Datum::BigInt(v),
                Val::Timestamp(v) => Datum::Timestamp(v),
                Val::Varlen(v) => Datum::VarChar(v@),
                Val::Null => Datum::Null,
            },
        }
    }
}

impl Value {
    /// Every value carries a payload of its declared type, or none.
    #[verifier::type_invariant]
    pub closed spec fn inv(&self) -> bool {
        self@.wf()
    }

    #[inline]
    pub fn with_tinyint(i: i8) -> (v: Self)
        ensures
            v@ == (ValueView { type_id: TypeId::TinyInt, datum: Datum::TinyInt(i) }),
    {
        Value { value: Val::TinyInt(i), type_id: TypeId::TinyInt }
    }

    #[inline]
    pub fn with_smallint(i: i16) -> (v: Self)
        ensures
            v@ == (ValueView { type_id: TypeId::SmallInt, datum: Datum::SmallInt(i) }),
    {
        Value { value: Val::SmallInt(i), type_id: TypeId::SmallInt }
    }

    #[inline]
    pub fn with_integer(i: i32) -> (v: Self)
        ensures
            v@ == (ValueView { type_id: TypeId::Integer, datum: Datum::Integer(i) }),
    {
        Value { value: Val::Int(i), type_id: TypeId::Integer }
    }

    #[inline]
    pub fn with_bigint(i: i64) -> (v: Self)
        ensures
            v@ == (ValueView { type_id: TypeId::BigInt, datum: Datum::BigInt(i) }),
    {
        Value { value: Val::BigInt(i), type_id: TypeId::BigInt }
    }

    #[inline]
    pub fn with_timestamp(t: u64) -> (v: Self)
        ensures
            v@ == (ValueView { type_id: TypeId::Timestamp, datum: Datum::Timestamp(t) }),
    {
        Value { value: Val::Timestamp(t), type_id: TypeId::Timestamp }
    }

    #[inline]
    pub fn with_boolean(i: i8) -> (v: Self)
        ensures
            v@ == (ValueView { type_id: TypeId::Boolean, datum: Datum::Boolean(i) }),
    {
        Value { value: Val::Boolean(i), type_id: TypeId::Boolean }
    }

    #[inline]
    pub fn with_null(typ: TypeId) -> (v: Self)
        ensures
            v@ == ValueView::null(typ),
    {
        Value { value: Val::Null, type_id: typ }
    }

    #[inline]
    pub fn with_varchar(var: &[u8]) -> (v: Self)
        ensures
            v@ == ValueView::varchar(var@),
    {
        Value { value: Val::Varlen(slice_to_vec(var)), type_id: TypeId::VarChar }
    }

    /// The value of integer type `typ` that holds `v`.
    pub fn with_integer_of(typ: TypeId, v: i64) -> (value: Self)
        requires
            typ.holds(v as int),
        ensures
            value@ == ValueView::integer(typ, v as int),
    {
        match typ {
            TypeId::TinyInt => Value::with_tinyint(v as i8),
            TypeId::SmallInt => Value::with_smallint(v as i16),
            TypeId::Integer => Value::with_integer(v as i32),
            _ => Value::with_bigint(v),
        }
    }

    #[inline]
    pub fn as_boolean(&self) -> (v: i8)
        requires
            self@.datum is Boolean,
        ensures
            self@.datum == Datum::Boolean(v),
    {
        match &self.value {
            Val::Boolean(v) => *v,
            _ => 0,
        }
    }

    pub fn as_tinyint(&self) -> (v: i8)
        requires
            self@.datum is TinyInt,
        ensures
            self@.datum == Datum::TinyInt(v),
    {
        match &self.value {
            Val::TinyInt(v) => *v,
            _ => 0,
        }
    }

    pub fn as_smallint(&self) -> (v: i16)
        requires
            self@.datum is SmallInt,
        ensures
            self@.datum == Datum::SmallInt(v),
    {
        match &self.value {
            Val::SmallInt(v) => *v,
            _ => 0,
        }
    }

    pub fn as_integer(&self) -> (v: i32)
        requires
            self@.datum is Integer,
        ensures
            self@.datum == Datum::Integer(v),
    {
        match &self.value {
            Val::Int(v) => *v,
            _ => 0,
        }
    }

    pub fn as_bigint(&self) -> (v: i64)
        requires
            self@.datum is BigInt,
        ensures
            self@.datum == Datum::BigInt(v),
    {
        match &self.value {
            Val::BigInt(v) => *v,
            _ => 0,
        }
    }

    pub fn as_timestamp(&self) -> (v: u64)
        requires
            self@.datum is Timestamp,
        ensures
            self@.datum == Datum::Timestamp(v),
    {
        match &self.value {
            Val::Timestamp(v) => *v,
            _ => 0,
        }
    }

    #[inline]
    pub fn as_varchar(&self) -> (v: &[u8])
        requires
            self@.datum is VarChar,
        ensures
            self@.datum == Datum::VarChar(v@),
    {
        match &self.value {
            Val::Varlen(v) => v.as_slice(),
            _ => &[],
        }
    }

    /// The number that an integer value holds.
    pub fn as_number(&self) -> (v: i64)
        requires
            self@.type_id.is_integer_kind(),
            !self@.is_null(),
        ensures
            v == self@.datum.integer(),
            self@.type_id.holds(v as int),
            self@.datum == Datum::of_integer(self@.type_id, v as int),
    {
        proof {
            use_type_invariant(self);
        }
        match &self.value {
            Val::TinyInt(v) => *v as i64,
            Val::SmallInt(v) => *v as i64,
            Val::Int(v) => *v as i64,
            Val::BigInt(v) => *v,
            _ => 0,
        }
    }

    #[inline]
    pub fn type_id(&self) -> (t: TypeId)
        ensures
            t == self@.type_id,
            self@.wf(),
    {
        proof {
            use_type_invariant(self);
        }
        self.type_id
    }

    pub fn check_integer(&self) -> (r: bool)
        ensures
            r == self@.type_id.is_integer_kind(),
    {
        match self.type_id() {
            TypeId::TinyInt | TypeId::SmallInt | TypeId::Integer | TypeId::BigInt => true,
            _ => false,
        }
    }

    pub fn check_comparable(&self, o: &Value) -> (r: bool)
        ensures
            r == comparable(self@.type_id, o@.type_id),
    {
        types_comparable(self.type_id(), o.type_id())
    }

    #[inline]
    pub fn is_null(&self) -> (r: bool)
        ensures
            r == self@.is_null(),
            self@.wf(),
    {
        proof {
            use_type_invariant(self);
        }
        match self.value {
            Val::Null => true,
            _ => false,
        }
    }

    /// Casts the value to the type `typ`.
    #[inline]
    pub fn cast_as(&self, typ: TypeId) -> (r: Result<Value, RustubError>)
        ensures
            yields(r, cast_of(self@, typ)),
    {
        match self.type_id() {
            TypeId::Boolean => BooleanType::new().cast_as(self, typ),
            TypeId::VarChar => VarCharType::new().cast_as(self, typ),
            TypeId::Timestamp => {
                if typ != TypeId::Timestamp && typ != TypeId::VarChar {
                    Err(RustubError::UnsupportedCoercion(TypeId::Timestamp, typ))
                } else if self.is_null() {
                    Ok(Value::with_null(typ))
                } else if typ == TypeId::Timestamp {
                    Ok(Value::with_timestamp(self.as_timestamp()))
                } else {
                    let text = self.to_text();
                    Ok(Value::with_varchar(text.as_slice()))
                }
            },
            TypeId::Decimal => {
                if typ == TypeId::Decimal {
                    Ok(Value::with_null(TypeId::Decimal))
                } else {
                    Err(RustubError::UnsupportedCoercion(TypeId::Decimal, typ))
                }
            },
            TypeId::Invalid => Err(RustubError::UnsupportedCoercion(TypeId::Invalid, typ)),
            kind => match IntegerType::of(kind) {
                Some(integers) => integers.cast_as(self, typ),
                None => Err(RustubError::UnsupportedCoercion(kind, typ)),
            },
        }
    }

    /// How the value compares with `v`: -1, 0 or 1, or `None` where either
    /// is null.
    pub fn order(&self, v: &Value) -> (r: Result<Option<i8>, RustubError>)
        ensures
            orders(r, order_of(self@, v@)),
    {
        match self.type_id() {
            TypeId::Boolean => BooleanType::new().order(self, v),
            TypeId::VarChar => VarCharType::new().order(self, v),
            kind => match IntegerType::of(kind) {
                Some(integers) => integers.order(self, v),
                None => {
                    if self.check_comparable(v) {
                            Ok(None)
                    } else {
                        Err(RustubError::IncomparableTypes(kind, v.type_id()))
                    }
                },
            },
        }
    }

    #[inline]
    pub fn compare_equal(&self, v: &Value) -> (r: Result<CmpBool, RustubError>)
        ensures
            r == compare_of(Comparison::Equal, self@, v@),
    {
        compare_outcome(Comparison::Equal, self.order(v))
    }

    #[inline]
    pub fn compare_not_equal(&self, v: &Value) -> (r: Result<CmpBool, RustubError>)
        ensures
            r == compare_of(Comparison::NotEqual, self@, v@),
    {
        compare_outcome(Comparison::NotEqual, self.order(v))
    }

    #[inline]
    pub fn compare_less_than(&self, v: &Value) -> (r: Result<CmpBool, RustubError>)
        ensures
            r == compare_of(Comparison::LessThan, self@, v@),
    {
        compare_outcome(Comparison::LessThan, self.order(v))
    }

    #[inline]
    pub fn compare_less_than_equal(&self, v: &Value) -> (r: Result<CmpBool, RustubError>)
        ensures
            r == compare_of(Comparison::LessThanEqual, self@, v@),
    {
        compare_outcome(Comparison::LessThanEqual, self.order(v))
    }

    #[inline]
    pub fn compare_greater_than(&self, v: &Value) -> (r: Result<CmpBool, RustubError>)
        ensures
            r == compare_of(Comparison::GreaterThan, self@, v@),
    {
        compare_outcome(Comparison::GreaterThan, self.order(v))
    }

    #[inline]
    pub fn compare_greater_than_equal(&self, v: &Value) -> (r: Result<CmpBool, RustubError>)
        ensures
            r == compare_of(Comparison::GreaterThanEqual, self@, v@),
    {
        compare_outcome(Comparison::GreaterThanEqual, self.order(v))
    }

    /// Applies an arithmetic operation to the value and `v`.
    pub fn arithmetic(&self, op: Arithmetic, v: &Value) -> (r: Result<Value, RustubError>)
        ensures
            yields(r, arithmetic_of(op, self@, v@)),
    {
        match IntegerType::of(self.type_id()) {
            Some(integers) => integers.arithmetic(op, self, v),
            None => match refuse_operands(self.type_id(), v) {
                Some(e) => Err(e),
                None => Err(RustubError::UnsupportedCoercion(self.type_id(), v.type_id())),
            },
        }
    }

    /// The sum of the value and `v`, in the wider of their types.
    #[inline]
    pub fn add(&self, v: &Value) -> (r: Result<Value, RustubError>)
        ensures
            yields(r, arithmetic_of(Arithmetic::Add, self@, v@)),
    {
        self.arithmetic(Arithmetic::Add, v)
    }

    /// The difference of the value and `v`, in the wider of their types.
    #[inline]
    pub fn subtract(&self, v: &Value) -> (r: Result<Value, RustubError>)
        ensures
            yields(r, arithmetic_of(Arithmetic::Subtract, self@, v@)),
    {
        self.arithmetic(Arithmetic::Subtract, v)
    }

    /// The product of the value and `v`, in the wider of their types.
    #[inline]
    pub fn multiply(&self, v: &Value) -> (r: Result<Value, RustubError>)
        ensures
            yields(r, arithmetic_of(Arithmetic::Multiply, self@, v@)),
    {
        self.arithmetic(Arithmetic::Multiply, v)
    }

    /// The quotient, rounded towards zero, of the value and `v`, in the wider of their types.
    #[inline]
    pub fn divide(&self, v: &Value) -> (r: Result<Value, RustubError>)
        ensures
            yields(r, arithmetic_of(Arithmetic::Divide, self@, v@)),
    {
        self.arithmetic(Arithmetic::Divide, v)
    }

    /// The remainder of the division of the value and `v`, in the wider of their types.
    #[inline]
    pub fn modulo(&self, v: &Value) -> (r: Result<Value, RustubError>)
        ensures
            yields(r, arithmetic_of(Arithmetic::Modulo, self@, v@)),
    {
        self.arithmetic(Arithmetic::Modulo, v)
    }

    /// The smaller of the value and `v`: the value where it is below `v`,
    /// else `v`.
    #[inline]
    pub fn min(&self, v: &Value) -> (r: Result<Value, RustubError>)
        ensures
            yields(r, extreme_of(true, self@, v@)),
    {
        self.extreme(true, v)
    }

    /// The larger of the value and `v`: the value where it is not below
    /// `v`, else `v`.
    #[inline]
    pub fn max(&self, v: &Value) -> (r: Result<Value, RustubError>)
        ensures
            yields(r, extreme_of(false, self@, v@)),
    {
        self.extreme(false, v)
    }

    fn extreme(&self, smaller: bool, v: &Value) -> (r: Result<Value, RustubError>)
        ensures
            yields(r, extreme_of(smaller, self@, v@)),
    {
        match self.order(v) {
            Err(e) => Err(e),
            Ok(None) => Ok(Value::with_null(result_type_of(self.type_id(), v.type_id()))),
            Ok(Some(order)) => {
                if (order < 0) == smaller {
                    Ok(self.copy())
                } else {
                    Ok(v.copy())
                }
            },
        }
    }

    /// The null that an operation on the value and `v` gives where one of
    /// them is null.
    #[inline]
    pub fn operate_null(&self, v: &Value) -> (r: Result<Value, RustubError>)
        ensures
            yields(r, operate_null_of(self@, v@)),
    {
        match refuse_operands(self.type_id(), v) {
            Some(e) => Err(e),
            None => Ok(Value::with_null(result_type_of(self.type_id(), v.type_id()))),
        }
    }

    /// Whether the value is an integer zero.
    #[inline]
    pub fn is_zero(&self) -> (r: bool)
        ensures
            r == zero_of(self@),
    {
        match IntegerType::of(self.type_id()) {
            Some(integers) => integers.is_zero(self),
            None => false,
        }
    }

    /// Whether the value is stored inside a tuple, as all values but those
    /// of the variable-length type are.
    #[inline]
    pub fn is_inlined(&self) -> (r: bool)
        ensures
            r == self@.type_id.inlined(),
    {
        self.type_id() != TypeId::VarChar
    }

    /// Stores the payload at the start of `buf` and leaves the rest of the
    /// buffer as it was.
    #[inline]
    pub fn serialize(&self, buf: &mut [u8]) -> (r: Result<(), RustubError>)
        ensures
            stores(r, old(buf)@, final(buf)@, serialize_of(self@, old(buf)@.len())),
    {
        match self.type_id() {
            TypeId::Boolean => BooleanType::new().serialize(self, buf),
            TypeId::VarChar => VarCharType::new().serialize(self, buf),
            TypeId::Timestamp => {
                if self.is_null() {
                    return Err(RustubError::NullValue(TypeId::Timestamp));
                }
                if buf.len() < 8 {
                    return Err(RustubError::ContractViolation(Violation::BufferLength));
                }
                put_u64_at(buf, 0, self.as_timestamp());
                Ok(())
            },
            kind => match IntegerType::of(kind) {
                Some(integers) => integers.serialize(self, buf),
                None => {
                    Err(RustubError::NullValue(kind))
                },
            },
        }
    }

    /// Reads a value of type `typ` from the start of `buf`.
    #[inline]
    pub fn deserialize(typ: TypeId, buf: &[u8]) -> (r: Result<Value, RustubError>)
        ensures
            yields(r, decode_of(typ, buf@)),
    {
        match typ {
            TypeId::Boolean => BooleanType::new().deserialize(buf),
            TypeId::VarChar => VarCharType::new().deserialize(buf),
            TypeId::Timestamp => {
                if buf.len() < 8 {
                    return Err(RustubError::ContractViolation(Violation::BufferLength));
                }
                proof {
                    lemma_byte_range_values();
                    lemma_field_range(buf@, 0, 8);
                }
                Ok(Value::with_timestamp(get_u64_at(buf, 0)))
            },
            kind => match IntegerType::of(kind) {
                Some(integers) => integers.deserialize(buf),
                None => Err(RustubError::UnsupportedType(kind)),
            },
        }
    }

    /// The text of the value, as bytes.
    pub fn to_text(&self) -> (text: Vec<u8>)
        ensures
            text@ == text_of(self@),
    {
        match self.type_id() {
            TypeId::Boolean => BooleanType::new().to_text(self),
            TypeId::VarChar => VarCharType::new().to_text(self),
            TypeId::Timestamp => {
                if self.is_null() {
                    null_text_bytes(TypeId::Timestamp)
                } else {
                    format_decimal(false, self.as_timestamp())
                }
            },
            kind => match IntegerType::of(kind) {
                Some(integers) => integers.to_text(self),
                None => {
                    null_text_bytes(kind)
                },
            },
        }
    }

    /// The text of the value. The contract speaks of texts that are valid
    /// UTF-8, which all are but those of VarChars with other bytes.
    #[inline]
    pub fn to_string(&self) -> (s: String)
        ensures
            valid_utf8(text_of(self@)) ==> s@ == decode_utf8(text_of(self@)),
    {
        let text = self.to_text();
        string_from_text(text.as_slice())
    }

    /// A value with the same content.
    #[inline]
    pub fn copy(&self) -> (r: Value)
        ensures
            r@ == self@,
    {
        match self.type_id() {
            TypeId::Boolean => BooleanType::new().copy(self),
            TypeId::VarChar => VarCharType::new().copy(self),
            TypeId::Timestamp => {
                if self.is_null() {
                    Value::with_null(TypeId::Timestamp)
                } else {
                    Value::with_timestamp(self.as_timestamp())
                }
            },
            kind => match IntegerType::of(kind) {
                Some(integers) => integers.copy(self),
                None => {
                    Value::with_null(kind)
                },
            },
        }
    }
}

/// The text that stands for the null of a type.
pub fn null_text_bytes(t: TypeId) -> (text: Vec<u8>)
    ensures
        text@ == null_text(t),
{
    match t {
        TypeId::Invalid => slice_to_vec("invalid_null".as_bytes()),
        TypeId::Boolean => slice_to_vec("boolean_null".as_bytes()),
        TypeId::TinyInt => slice_to_vec("tinyint_null".as_bytes()),
        TypeId::SmallInt => slice_to_vec("smallint_null".as_bytes()),
        TypeId::Integer => slice_to_vec("integer_null".as_bytes()),
        TypeId::BigInt => slice_to_vec("bigint_null".as_bytes()),
        TypeId::Decimal => slice_to_vec("decimal_null".as_bytes()),
        TypeId::VarChar => slice_to_vec("varlen_null".as_bytes()),
        TypeId::Timestamp => slice_to_vec("timestamp_null".as_bytes()),
    }
}

/// The type of the result of an operation on operands of these types.
pub fn result_type_of(left: TypeId, right: TypeId) -> (into: TypeId)
    ensures
        into == result_type(left, right),
{
    if right == TypeId::Decimal {
        return TypeId::Decimal;
    }
    if !left.is_integer() || !right.is_integer() {
        return left;
    }
    let wider = match (left, right) {
        (TypeId::TinyInt, _) => true,
        (TypeId::SmallInt, TypeId::Integer) => true,
        (TypeId::SmallInt, TypeId::BigInt) => true,
        (TypeId::Integer, TypeId::BigInt) => true,
        _ => false,
    };
    if wider && left != right {
        right
    } else {
        left
    }
}

/// Whether a value of type `left` compares with a value of type `right`.
pub fn types_comparable(left: TypeId, right: TypeId) -> (r: bool)
    ensures
        r == comparable(left, right),
{
    match left {
        TypeId::Boolean => right == TypeId::Boolean || right == TypeId::VarChar,
        TypeId::TinyInt
        | TypeId::SmallInt
        | TypeId::Integer
        | TypeId::BigInt
        | TypeId::Decimal => match right {
            TypeId::TinyInt
            | TypeId::SmallInt
            | TypeId::Integer
            | TypeId::BigInt
            | TypeId::Decimal
            | TypeId::VarChar => true,
            _ => false,
        },
        TypeId::VarChar => {
            // Anything can be cast to a string!
            true
        },
        _ => false,
    }
}

/// The error that refuses an operation on operands of these types, if any.
pub fn refuse_operands(left: TypeId, right: &Value) -> (refused: Option<RustubError>)
    ensures
        refused == operands_refused(left, right@.type_id),
{
    if !types_comparable(left, right.type_id()) {
        Some(RustubError::IncomparableTypes(left, right.type_id()))
    } else if !left.is_integer() {
        Some(RustubError::UnsupportedCoercion(left, right.type_id()))
    } else {
        None
    }
}

/// -1, 0 or 1 as `a` is below, equal to or above `b`.
pub fn sign_between(a: i128, b: i128) -> (sign: i8)
    ensures
        sign == sign_of(a - b),
{
    if a < b {
        -1
    } else if a == b {
        0
    } else {
        1
    }
}

/// Turns an order into the outcome of a comparison.
pub fn compare_outcome(op: Comparison, order: Result<Option<i8>, RustubError>) -> (r: Result<
    CmpBool,
    RustubError,
>)
    ensures
        r == (match order {
            Err(e) => Err::<CmpBool, RustubError>(e),
            Ok(None) => Ok(CmpBool::Null),
            Ok(Some(o)) => Ok(CmpBool::of_bool(op.holds(o as int))),
        }),
{
    match order {
        Err(e) => Err(e),
        Ok(None) => Ok(CmpBool::Null),
        Ok(Some(o)) => {
            let holds = match op {
                Comparison::Equal => o == 0,
                Comparison::NotEqual => o != 0,
                Comparison::LessThan => o < 0,
                Comparison::LessThanEqual => o <= 0,
                Comparison::GreaterThan => o > 0,
                Comparison::GreaterThanEqual => o >= 0,
            };
            if holds {
                Ok(CmpBool::True)
            } else {
                Ok(CmpBool::False)
            }
        },
    }
}

} // verus!
