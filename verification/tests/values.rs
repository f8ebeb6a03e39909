use rustub::common::error::{RustubError, Violation};
use rustub::types::text::{compare_bytes, format_decimal, parse_decimal_text, ParsedNumber};
use rustub::types::value::{Arithmetic, Comparison};
use rustub::types::varchar::parse_boolean_text;
use rustub::types::{BooleanType, CmpBool, IntegerType, TypeId, Value, VarCharType};

fn ok(r: Result<Value, RustubError>) -> Value {
    match r {
        Ok(v) => v,
        Err(e) => panic!("unexpected error: {:?}", e),
    }
}

fn text(v: &Value) -> String {
    v.to_string()
}

#[test]
fn type_ids_and_codes() {
    let all = [
        (TypeId::Invalid, 0u8, "INVALID"),
        (TypeId::Boolean, 1, "BOOLEAN"),
        (TypeId::TinyInt, 2, "TINYINT"),
        (TypeId::SmallInt, 3, "SMALLINT"),
        (TypeId::Integer, 4, "INTEGER"),
        (TypeId::BigInt, 5, "BIGINT"),
        (TypeId::Decimal, 6, "DECIMAL"),
        (TypeId::VarChar, 7, "VARCHAR"),
        (TypeId::Timestamp, 8, "TIMESTAMP"),
    ];
    for (t, code, name) in all {
        assert_eq!(u8::from(t), code);
        assert!(TypeId::from(code) == t);
        assert_eq!(t.to_string(), name);
    }
    assert!(TypeId::from(9) == TypeId::Invalid);
    assert!(TypeId::from(255) == TypeId::Invalid);
    assert!(CmpBool::from(true) == CmpBool::True);
    assert!(CmpBool::from(false) == CmpBool::False);
    assert!(TypeId::BigInt.is_integer());
    assert!(!TypeId::Decimal.is_integer());
    assert!(TypeId::TinyInt.can_hold(-128));
    assert!(!TypeId::TinyInt.can_hold(128));
    assert!(!TypeId::VarChar.can_hold(0));
}

#[test]
fn constructors_and_accessors() {
    assert_eq!(Value::with_tinyint(-7).as_tinyint(), -7);
    assert_eq!(Value::with_smallint(300).as_smallint(), 300);
    assert_eq!(Value::with_integer(70000).as_integer(), 70000);
    assert_eq!(Value::with_bigint(1 << 40).as_bigint(), 1 << 40);
    assert_eq!(Value::with_boolean(1).as_boolean(), 1);
    assert_eq!(Value::with_timestamp(99).as_timestamp(), 99);
    assert_eq!(Value::with_varchar(b"abc").as_varchar(), b"abc");
    assert_eq!(Value::with_integer_of(TypeId::SmallInt, -5).as_smallint(), -5);
    assert_eq!(Value::with_bigint(-3).as_number(), -3);
    assert!(Value::with_null(TypeId::Integer).is_null());
    assert!(Value::with_null(TypeId::Integer).type_id() == TypeId::Integer);
    assert!(!Value::with_integer(0).is_null());
    assert!(Value::with_integer(0).check_integer());
    assert!(!Value::with_boolean(0).check_integer());
    assert!(Value::with_integer(0).is_inlined());
    assert!(!Value::with_varchar(b"").is_inlined());
    assert!(Value::with_tinyint(0).is_zero());
    assert!(!Value::with_tinyint(1).is_zero());
    assert!(!Value::with_null(TypeId::TinyInt).is_zero());
    assert!(!Value::with_boolean(0).is_zero());
}

#[test]
fn comparable_matrix() {
    let b = Value::with_boolean(1);
    let i = Value::with_integer(1);
    let s = Value::with_varchar(b"1");
    let t = Value::with_timestamp(1);
    let d = Value::with_null(TypeId::Decimal);
    assert!(b.check_comparable(&b));
    assert!(b.check_comparable(&s));
    assert!(!b.check_comparable(&i));
    assert!(!b.check_comparable(&t));
    assert!(i.check_comparable(&Value::with_tinyint(1)));
    assert!(i.check_comparable(&d));
    assert!(i.check_comparable(&s));
    assert!(!i.check_comparable(&b));
    assert!(!i.check_comparable(&t));
    assert!(d.check_comparable(&i));
    assert!(s.check_comparable(&b));
    assert!(s.check_comparable(&t));
    assert!(s.check_comparable(&Value::with_null(TypeId::Invalid)));
    assert!(!t.check_comparable(&t));
    assert!(!t.check_comparable(&s));
    assert!(!Value::with_null(TypeId::Invalid).check_comparable(&s));
}

fn cmp(r: Result<CmpBool, RustubError>) -> CmpBool {
    match r {
        Ok(c) => c,
        Err(e) => panic!("unexpected error: {:?}", e),
    }
}

#[test]
fn integers_compare_as_numbers_across_widths() {
    let small = Value::with_tinyint(-5);
    let big = Value::with_bigint(1 << 40);
    assert!(cmp(small.compare_less_than(&big)) == CmpBool::True);
    assert!(cmp(big.compare_less_than(&small)) == CmpBool::False);
    assert!(cmp(small.compare_greater_than(&big)) == CmpBool::False);
    assert!(cmp(big.compare_greater_than_equal(&small)) == CmpBool::True);
    let a = Value::with_integer(7);
    let b = Value::with_smallint(7);
    assert!(cmp(a.compare_equal(&b)) == CmpBool::True);
    assert!(cmp(a.compare_not_equal(&b)) == CmpBool::False);
    assert!(cmp(a.compare_less_than(&b)) == CmpBool::False);
    assert!(cmp(a.compare_less_than_equal(&b)) == CmpBool::True);
    assert!(cmp(a.compare_greater_than(&b)) == CmpBool::False);
    assert!(cmp(a.compare_greater_than_equal(&b)) == CmpBool::True);
    // a 64-bit value is not cut to the width of the left operand
    let wide = Value::with_bigint(256 + 7);
    assert!(cmp(Value::with_tinyint(7).compare_equal(&wide)) == CmpBool::False);
}

#[test]
fn a_varchar_is_cast_to_the_left_type() {
    let i = Value::with_integer(42);
    assert!(cmp(i.compare_equal(&Value::with_varchar(b"42"))) == CmpBool::True);
    assert!(cmp(i.compare_less_than(&Value::with_varchar(b"+100"))) == CmpBool::True);
    assert!(cmp(i.compare_greater_than(&Value::with_varchar(b"-1"))) == CmpBool::True);
    assert!(matches!(
        i.compare_equal(&Value::with_varchar(b"forty-two")),
        Err(RustubError::InvalidText(TypeId::Integer))
    ));
    assert!(matches!(
        Value::with_tinyint(1).compare_equal(&Value::with_varchar(b"1000")),
        Err(RustubError::NumericOutOfRange(TypeId::TinyInt))
    ));
    let b = Value::with_boolean(1);
    assert!(cmp(b.compare_equal(&Value::with_varchar(b"true"))) == CmpBool::True);
    assert!(cmp(b.compare_equal(&Value::with_varchar(b"f"))) == CmpBool::False);
    assert!(cmp(b.compare_greater_than(&Value::with_varchar(b"0"))) == CmpBool::True);
    assert!(cmp(b.compare_equal(&Value::with_boolean(1))) == CmpBool::True);
    assert!(cmp(Value::with_boolean(0).compare_less_than(&b)) == CmpBool::True);
    assert!(matches!(
        b.compare_equal(&Value::with_varchar(b"yes")),
        Err(RustubError::InvalidText(TypeId::Boolean))
    ));
}

#[test]
fn varchars_compare_as_byte_strings() {
    let a = Value::with_varchar(b"abc");
    assert!(cmp(a.compare_equal(&Value::with_varchar(b"abc"))) == CmpBool::True);
    assert!(cmp(a.compare_less_than(&Value::with_varchar(b"abd"))) == CmpBool::True);
    assert!(cmp(a.compare_less_than(&Value::with_varchar(b"abcd"))) == CmpBool::True);
    assert!(cmp(a.compare_greater_than(&Value::with_varchar(b"ab"))) == CmpBool::True);
    assert!(cmp(a.compare_greater_than(&Value::with_varchar(b""))) == CmpBool::True);
    // everything is stringifiable
    assert!(cmp(Value::with_varchar(b"12").compare_equal(&Value::with_integer(12)))
        == CmpBool::True);
    assert!(cmp(Value::with_varchar(b"-3").compare_equal(&Value::with_bigint(-3)))
        == CmpBool::True);
    assert!(cmp(Value::with_varchar(b"true").compare_equal(&Value::with_boolean(1)))
        == CmpBool::True);
    assert!(cmp(Value::with_varchar(b"77").compare_equal(&Value::with_timestamp(77)))
        == CmpBool::True);
    // as strings, "9" is above "10"
    assert!(cmp(Value::with_varchar(b"9").compare_greater_than(&Value::with_integer(10)))
        == CmpBool::True);
}

#[test]
fn incomparable_types_are_refused() {
    assert!(matches!(
        Value::with_boolean(1).compare_equal(&Value::with_integer(1)),
        Err(RustubError::IncomparableTypes(TypeId::Boolean, TypeId::Integer))
    ));
    assert!(matches!(
        Value::with_integer(1).compare_less_than(&Value::with_boolean(1)),
        Err(RustubError::IncomparableTypes(TypeId::Integer, TypeId::Boolean))
    ));
    assert!(matches!(
        Value::with_timestamp(1).compare_equal(&Value::with_timestamp(1)),
        Err(RustubError::IncomparableTypes(TypeId::Timestamp, TypeId::Timestamp))
    ));
    assert!(matches!(
        Value::with_null(TypeId::Invalid).compare_equal(&Value::with_integer(1)),
        Err(RustubError::IncomparableTypes(TypeId::Invalid, TypeId::Integer))
    ));
}

#[test]
fn null_propagates_through_every_comparison() {
    let values = [
        Value::with_boolean(1),
        Value::with_tinyint(1),
        Value::with_smallint(1),
        Value::with_integer(1),
        Value::with_bigint(1),
        Value::with_varchar(b"1"),
    ];
    let types = [
        TypeId::Boolean,
        TypeId::TinyInt,
        TypeId::SmallInt,
        TypeId::Integer,
        TypeId::BigInt,
        TypeId::Decimal,
        TypeId::VarChar,
    ];
    let mut pairs = 0;
    for v in &values {
        for t in types {
            let n = Value::with_null(t);
            if !(v.check_comparable(&n) && n.check_comparable(v)) {
                continue;
            }
            pairs += 1;
            assert!(cmp(v.compare_equal(&n)) == CmpBool::Null);
            assert!(cmp(n.compare_equal(v)) == CmpBool::Null);
            assert!(cmp(v.compare_not_equal(&n)) == CmpBool::Null);
            assert!(cmp(v.compare_less_than(&n)) == CmpBool::Null);
            assert!(cmp(n.compare_less_than_equal(v)) == CmpBool::Null);
            assert!(cmp(n.compare_greater_than(v)) == CmpBool::Null);
            assert!(cmp(v.compare_greater_than_equal(&n)) == CmpBool::Null);
        }
    }
    assert_eq!(pairs, 2 + 4 * 6 + 7);
    // a null varchar does not reach the parser
    let n = Value::with_null(TypeId::VarChar);
    assert!(cmp(Value::with_integer(3).compare_equal(&n)) == CmpBool::Null);
}

#[test]
fn cast_to_the_own_type_gives_the_value_back() {
    assert_eq!(ok(Value::with_boolean(1).cast_as(TypeId::Boolean)).as_boolean(), 1);
    assert_eq!(ok(Value::with_boolean(5).cast_as(TypeId::Boolean)).as_boolean(), 5);
    assert_eq!(ok(Value::with_tinyint(-128).cast_as(TypeId::TinyInt)).as_tinyint(), -128);
    assert_eq!(ok(Value::with_smallint(i16::MAX).cast_as(TypeId::SmallInt)).as_smallint(), 32767);
    assert_eq!(ok(Value::with_integer(i32::MIN).cast_as(TypeId::Integer)).as_integer(), i32::MIN);
    assert_eq!(ok(Value::with_bigint(i64::MAX).cast_as(TypeId::BigInt)).as_bigint(), i64::MAX);
    assert_eq!(ok(Value::with_timestamp(u64::MAX).cast_as(TypeId::Timestamp)).as_timestamp(), u64::MAX);
    let bytes = [0u8, 0xff, b'x'];
    assert_eq!(ok(Value::with_varchar(&bytes).cast_as(TypeId::VarChar)).as_varchar(), &bytes);
    let n = ok(Value::with_null(TypeId::Decimal).cast_as(TypeId::Decimal));
    assert!(n.is_null() && n.type_id() == TypeId::Decimal);
    let n = ok(Value::with_null(TypeId::Integer).cast_as(TypeId::Integer));
    assert!(n.is_null() && n.type_id() == TypeId::Integer);
}

#[test]
fn boolean_casts() {
    let t = Value::with_boolean(1);
    assert_eq!(ok(t.cast_as(TypeId::VarChar)).as_varchar(), b"true");
    assert_eq!(ok(Value::with_boolean(0).cast_as(TypeId::VarChar)).as_varchar(), b"false");
    let n = ok(Value::with_null(TypeId::Boolean).cast_as(TypeId::VarChar));
    assert!(n.is_null() && n.type_id() == TypeId::VarChar);
    for target in [
        TypeId::TinyInt,
        TypeId::SmallInt,
        TypeId::Integer,
        TypeId::BigInt,
        TypeId::Decimal,
        TypeId::Timestamp,
        TypeId::Invalid,
    ] {
        match t.cast_as(target) {
            Err(RustubError::UnsupportedCoercion(from, to)) => {
                assert!(from == TypeId::Boolean && to == target)
            }
            _ => panic!("a boolean casts to boolean and varchar only"),
        }
        // the null does not get through either
        assert!(matches!(
            Value::with_null(TypeId::Boolean).cast_as(target),
            Err(RustubError::UnsupportedCoercion(_, _))
        ));
    }
}

#[test]
fn integer_casts() {
    let v = Value::with_integer(300);
    assert_eq!(ok(v.cast_as(TypeId::SmallInt)).as_smallint(), 300);
    assert_eq!(ok(v.cast_as(TypeId::BigInt)).as_bigint(), 300);
    assert_eq!(ok(v.cast_as(TypeId::VarChar)).as_varchar(), b"300");
    assert!(matches!(
        v.cast_as(TypeId::TinyInt),
        Err(RustubError::NumericOutOfRange(TypeId::TinyInt))
    ));
    assert_eq!(ok(Value::with_bigint(127).cast_as(TypeId::TinyInt)).as_tinyint(), 127);
    assert!(matches!(
        Value::with_bigint(i64::MIN).cast_as(TypeId::Integer),
        Err(RustubError::NumericOutOfRange(TypeId::Integer))
    ));
    assert!(matches!(
        v.cast_as(TypeId::Boolean),
        Err(RustubError::UnsupportedCoercion(TypeId::Integer, TypeId::Boolean))
    ));
    assert!(matches!(
        v.cast_as(TypeId::Decimal),
        Err(RustubError::UnsupportedCoercion(TypeId::Integer, TypeId::Decimal))
    ));
    let n = ok(Value::with_null(TypeId::TinyInt).cast_as(TypeId::BigInt));
    assert!(n.is_null() && n.type_id() == TypeId::BigInt);
    assert_eq!(
        ok(Value::with_bigint(i64::MIN).cast_as(TypeId::VarChar)).as_varchar(),
        b"-9223372036854775808"
    );
}

#[test]
fn varchar_casts() {
    let v = Value::with_varchar(b"-128");
    assert_eq!(ok(v.cast_as(TypeId::TinyInt)).as_tinyint(), -128);
    assert_eq!(ok(v.cast_as(TypeId::BigInt)).as_bigint(), -128);
    assert!(matches!(
        Value::with_varchar(b"128").cast_as(TypeId::TinyInt),
        Err(RustubError::NumericOutOfRange(TypeId::TinyInt))
    ));
    assert!(matches!(
        Value::with_varchar(b"99999999999999999999999").cast_as(TypeId::BigInt),
        Err(RustubError::NumericOutOfRange(TypeId::BigInt))
    ));
    assert!(matches!(
        Value::with_varchar(b"12a").cast_as(TypeId::Integer),
        Err(RustubError::InvalidText(TypeId::Integer))
    ));
    assert!(matches!(
        Value::with_varchar(b"").cast_as(TypeId::Integer),
        Err(RustubError::InvalidText(TypeId::Integer))
    ));
    assert!(matches!(
        Value::with_varchar(b"-").cast_as(TypeId::Integer),
        Err(RustubError::InvalidText(TypeId::Integer))
    ));
    assert_eq!(ok(Value::with_varchar(b"t").cast_as(TypeId::Boolean)).as_boolean(), 1);
    assert_eq!(ok(Value::with_varchar(b"false").cast_as(TypeId::Boolean)).as_boolean(), 0);
    assert_eq!(
        ok(Value::with_varchar(b"18446744073709551615").cast_as(TypeId::Timestamp)).as_timestamp(),
        u64::MAX
    );
    assert_eq!(ok(Value::with_varchar(b"-0").cast_as(TypeId::Timestamp)).as_timestamp(), 0);
    assert!(matches!(
        Value::with_varchar(b"-1").cast_as(TypeId::Timestamp),
        Err(RustubError::NumericOutOfRange(TypeId::Timestamp))
    ));
    assert!(matches!(
        Value::with_varchar(b"18446744073709551616").cast_as(TypeId::Timestamp),
        Err(RustubError::NumericOutOfRange(TypeId::Timestamp))
    ));
    assert!(matches!(
        v.cast_as(TypeId::Decimal),
        Err(RustubError::UnsupportedCoercion(TypeId::VarChar, TypeId::Decimal))
    ));
    assert_eq!(ok(Value::with_timestamp(5).cast_as(TypeId::VarChar)).as_varchar(), b"5");
    assert!(matches!(
        Value::with_timestamp(5).cast_as(TypeId::BigInt),
        Err(RustubError::UnsupportedCoercion(TypeId::Timestamp, TypeId::BigInt))
    ));
    assert!(matches!(
        Value::with_null(TypeId::Invalid).cast_as(TypeId::Invalid),
        Err(RustubError::UnsupportedCoercion(TypeId::Invalid, TypeId::Invalid))
    ));
}

#[test]
fn arithmetic_takes_the_wider_type() {
    let a = Value::with_tinyint(100);
    let b = Value::with_integer(100);
    let sum = ok(a.add(&b));
    assert!(sum.type_id() == TypeId::Integer);
    assert_eq!(sum.as_integer(), 200);
    let sum = ok(b.add(&a));
    assert!(sum.type_id() == TypeId::Integer);
    assert!(matches!(
        a.add(&Value::with_tinyint(100)),
        Err(RustubError::NumericOutOfRange(TypeId::TinyInt))
    ));
    assert_eq!(ok(a.subtract(&Value::with_tinyint(-27))).as_tinyint(), 127);
    assert_eq!(ok(b.multiply(&Value::with_bigint(1 << 40))).as_bigint(), 100 << 40);
    assert!(matches!(
        Value::with_bigint(i64::MAX).multiply(&Value::with_bigint(i64::MAX)),
        Err(RustubError::NumericOutOfRange(TypeId::BigInt))
    ));
    assert!(matches!(
        Value::with_bigint(i64::MIN).subtract(&Value::with_tinyint(1)),
        Err(RustubError::NumericOutOfRange(TypeId::BigInt))
    ));
    assert_eq!(ok(b.add(&Value::with_varchar(b"-1"))).as_integer(), 99);
    assert!(matches!(
        b.add(&Value::with_varchar(b"x")),
        Err(RustubError::InvalidText(TypeId::Integer))
    ));
}

#[test]
fn division_rounds_towards_zero() {
    let seven = Value::with_integer(7);
    assert_eq!(ok(seven.divide(&Value::with_integer(2))).as_integer(), 3);
    assert_eq!(ok(seven.divide(&Value::with_integer(-2))).as_integer(), -3);
    assert_eq!(ok(Value::with_integer(-7).divide(&Value::with_integer(2))).as_integer(), -3);
    assert_eq!(ok(Value::with_integer(-7).divide(&Value::with_integer(-2))).as_integer(), 3);
    assert_eq!(ok(seven.modulo(&Value::with_integer(2))).as_integer(), 1);
    assert_eq!(ok(seven.modulo(&Value::with_integer(-2))).as_integer(), 1);
    assert_eq!(ok(Value::with_integer(-7).modulo(&Value::with_integer(2))).as_integer(), -1);
    assert_eq!(ok(Value::with_integer(-7).modulo(&Value::with_integer(-2))).as_integer(), -1);
    assert!(matches!(seven.divide(&Value::with_tinyint(0)), Err(RustubError::DivideByZero)));
    assert!(matches!(seven.modulo(&Value::with_bigint(0)), Err(RustubError::DivideByZero)));
    assert!(matches!(
        Value::with_bigint(i64::MIN).divide(&Value::with_bigint(-1)),
        Err(RustubError::NumericOutOfRange(TypeId::BigInt))
    ));
    assert_eq!(
        ok(Value::with_bigint(i64::MIN).modulo(&Value::with_bigint(-1))).as_bigint(),
        0
    );
}

#[test]
fn arithmetic_with_null_gives_null_of_the_result_type() {
    let a = Value::with_smallint(1);
    let n = ok(a.add(&Value::with_null(TypeId::BigInt)));
    assert!(n.is_null() && n.type_id() == TypeId::BigInt);
    let n = ok(Value::with_null(TypeId::SmallInt).divide(&Value::with_tinyint(0)));
    assert!(n.is_null() && n.type_id() == TypeId::SmallInt);
    let n = ok(a.multiply(&Value::with_null(TypeId::Decimal)));
    assert!(n.is_null() && n.type_id() == TypeId::Decimal);
    let n = ok(a.operate_null(&Value::with_integer(3)));
    assert!(n.is_null() && n.type_id() == TypeId::Integer);
    let n = ok(a.add(&Value::with_null(TypeId::VarChar)));
    assert!(n.is_null() && n.type_id() == TypeId::SmallInt);
}

#[test]
fn arithmetic_is_refused_outside_the_integers() {
    assert!(matches!(
        Value::with_boolean(1).add(&Value::with_boolean(1)),
        Err(RustubError::UnsupportedCoercion(TypeId::Boolean, TypeId::Boolean))
    ));
    assert!(matches!(
        Value::with_varchar(b"1").add(&Value::with_integer(1)),
        Err(RustubError::UnsupportedCoercion(TypeId::VarChar, TypeId::Integer))
    ));
    assert!(matches!(
        Value::with_integer(1).add(&Value::with_boolean(1)),
        Err(RustubError::IncomparableTypes(TypeId::Integer, TypeId::Boolean))
    ));
    assert!(matches!(
        Value::with_timestamp(1).operate_null(&Value::with_integer(1)),
        Err(RustubError::IncomparableTypes(TypeId::Timestamp, TypeId::Integer))
    ));
    assert!(matches!(
        Value::with_null(TypeId::Decimal).subtract(&Value::with_integer(1)),
        Err(RustubError::UnsupportedCoercion(TypeId::Decimal, TypeId::Integer))
    ));
}

#[test]
fn min_and_max() {
    let a = Value::with_integer(3);
    let b = Value::with_bigint(5);
    let m = ok(a.min(&b));
    assert!(m.type_id() == TypeId::Integer);
    assert_eq!(m.as_integer(), 3);
    let m = ok(a.max(&b));
    assert!(m.type_id() == TypeId::BigInt);
    assert_eq!(m.as_bigint(), 5);
    // on a tie the smaller is the right operand, the larger the left one
    let left = Value::with_integer(4);
    let right = Value::with_tinyint(4);
    assert!(ok(left.min(&right)).type_id() == TypeId::TinyInt);
    assert!(ok(left.max(&right)).type_id() == TypeId::Integer);
    let n = ok(a.min(&Value::with_null(TypeId::BigInt)));
    assert!(n.is_null() && n.type_id() == TypeId::BigInt);
    assert_eq!(
        ok(Value::with_varchar(b"b").max(&Value::with_varchar(b"a"))).as_varchar(),
        b"b"
    );
    assert!(matches!(
        a.min(&Value::with_boolean(1)),
        Err(RustubError::IncomparableTypes(TypeId::Integer, TypeId::Boolean))
    ));
}

#[test]
fn serialization_is_big_endian_and_fixed_width() {
    let mut buf = [0xeeu8; 12];
    Value::with_boolean(1).serialize(&mut buf).unwrap();
    assert_eq!(buf[0], 1);
    assert_eq!(buf[1], 0xee);
    Value::with_tinyint(-2).serialize(&mut buf).unwrap();
    assert_eq!(&buf[..2], &[0xfe, 0xee]);
    Value::with_smallint(0x0102).serialize(&mut buf).unwrap();
    assert_eq!(&buf[..3], &[1, 2, 0xee]);
    Value::with_integer(-2).serialize(&mut buf).unwrap();
    assert_eq!(&buf[..5], &[0xff, 0xff, 0xff, 0xfe, 0xee]);
    Value::with_bigint(0x0102030405060708).serialize(&mut buf).unwrap();
    assert_eq!(&buf[..9], &[1, 2, 3, 4, 5, 6, 7, 8, 0xee]);
    Value::with_timestamp(u64::MAX - 1).serialize(&mut buf).unwrap();
    assert_eq!(&buf[..9], &[0xff, 0xff, 0xff, 0xff, 0xff, 0xff, 0xff, 0xfe, 0xee]);
    let mut buf = [0xeeu8; 12];
    Value::with_varchar(b"hello").serialize(&mut buf).unwrap();
    assert_eq!(&buf[..10], b"\0\0\0\x05hello\xee");
}

#[test]
fn deserialization_reads_what_was_stored() {
    let mut buf = [0u8; 32];
    let values = [
        Value::with_boolean(0),
        Value::with_boolean(1),
        Value::with_tinyint(i8::MIN),
        Value::with_smallint(-12345),
        Value::with_integer(i32::MAX),
        Value::with_bigint(i64::MIN),
        Value::with_timestamp(1 << 63),
        Value::with_varchar(b""),
        Value::with_varchar(b"some bytes \xff\x00"),
    ];
    for v in &values {
        v.serialize(&mut buf).unwrap();
        let back = ok(Value::deserialize(v.type_id(), &buf));
        assert!(back.type_id() == v.type_id());
        assert!(cmp(v.cast_as(TypeId::VarChar).and_then(|s| {
            back.cast_as(TypeId::VarChar).and_then(|t| s.compare_equal(&t))
        })) == CmpBool::True);
    }
    assert_eq!(ok(Value::deserialize(TypeId::Integer, &[0xff, 0xff, 0xff, 0x85])).as_integer(), -123);
    assert_eq!(ok(Value::deserialize(TypeId::TinyInt, &[0x80, 1])).as_tinyint(), -128);
    assert_eq!(ok(Value::deserialize(TypeId::VarChar, b"\0\0\0\x02abc")).as_varchar(), b"ab");
}

#[test]
fn serialization_errors() {
    let mut buf = [0u8; 3];
    assert!(matches!(
        Value::with_integer(1).serialize(&mut buf),
        Err(RustubError::ContractViolation(Violation::BufferLength))
    ));
    assert!(matches!(
        Value::with_varchar(b"").serialize(&mut buf),
        Err(RustubError::ContractViolation(Violation::BufferLength))
    ));
    assert!(matches!(
        Value::with_timestamp(1).serialize(&mut buf),
        Err(RustubError::ContractViolation(Violation::BufferLength))
    ));
    assert!(matches!(
        Value::with_null(TypeId::Integer).serialize(&mut buf),
        Err(RustubError::NullValue(TypeId::Integer))
    ));
    assert!(matches!(
        Value::with_null(TypeId::Decimal).serialize(&mut buf),
        Err(RustubError::NullValue(TypeId::Decimal))
    ));
    assert_eq!(buf, [0u8; 3]);
    assert!(matches!(
        Value::deserialize(TypeId::Integer, &buf),
        Err(RustubError::ContractViolation(Violation::BufferLength))
    ));
    assert!(matches!(
        Value::deserialize(TypeId::VarChar, b"\0\0\0\x05abcd"),
        Err(RustubError::ContractViolation(Violation::BufferLength))
    ));
    assert!(matches!(
        Value::deserialize(TypeId::Boolean, b""),
        Err(RustubError::ContractViolation(Violation::BufferLength))
    ));
    assert!(matches!(
        Value::deserialize(TypeId::Decimal, &buf),
        Err(RustubError::UnsupportedType(TypeId::Decimal))
    ));
    assert!(matches!(
        Value::deserialize(TypeId::Invalid, &buf),
        Err(RustubError::UnsupportedType(TypeId::Invalid))
    ));
}

#[test]
fn values_as_text() {
    assert_eq!(text(&Value::with_boolean(1)), "true");
    assert_eq!(text(&Value::with_boolean(0)), "false");
    assert_eq!(text(&Value::with_boolean(2)), "boolean_null");
    assert_eq!(text(&Value::with_tinyint(-128)), "-128");
    assert_eq!(text(&Value::with_smallint(0)), "0");
    assert_eq!(text(&Value::with_integer(1234567890)), "1234567890");
    assert_eq!(text(&Value::with_bigint(i64::MAX)), "9223372036854775807");
    assert_eq!(text(&Value::with_timestamp(u64::MAX)), "18446744073709551615");
    assert_eq!(text(&Value::with_varchar("gr\u{fc}n".as_bytes())), "gr\u{fc}n");
    assert_eq!(text(&Value::with_null(TypeId::Boolean)), "boolean_null");
    assert_eq!(text(&Value::with_null(TypeId::TinyInt)), "tinyint_null");
    assert_eq!(text(&Value::with_null(TypeId::SmallInt)), "smallint_null");
    assert_eq!(text(&Value::with_null(TypeId::Integer)), "integer_null");
    assert_eq!(text(&Value::with_null(TypeId::BigInt)), "bigint_null");
    assert_eq!(text(&Value::with_null(TypeId::Decimal)), "decimal_null");
    assert_eq!(text(&Value::with_null(TypeId::VarChar)), "varlen_null");
    assert_eq!(text(&Value::with_null(TypeId::Timestamp)), "timestamp_null");
    assert_eq!(text(&Value::with_null(TypeId::Invalid)), "invalid_null");
    assert_eq!(Value::with_integer(-40).to_text(), b"-40");
}

#[test]
fn copies_hold_the_same_content() {
    assert_eq!(Value::with_integer(5).copy().as_integer(), 5);
    assert_eq!(Value::with_varchar(b"xyz").copy().as_varchar(), b"xyz");
    assert_eq!(Value::with_boolean(0).copy().as_boolean(), 0);
    assert_eq!(Value::with_timestamp(8).copy().as_timestamp(), 8);
    let n = Value::with_null(TypeId::Decimal).copy();
    assert!(n.is_null() && n.type_id() == TypeId::Decimal);
}

#[test]
fn type_behaviours_on_their_own_values() {
    let booleans = BooleanType::new();
    let t = Value::with_boolean(1);
    assert!(booleans.is_inlined(&t));
    assert_eq!(booleans.to_string(&t), "true");
    assert_eq!(booleans.copy(&t).as_boolean(), 1);
    assert!(cmp(booleans.compare_equal(&t, &Value::with_boolean(0))) == CmpBool::False);
    assert!(cmp(booleans.compare_not_equal(&t, &Value::with_boolean(0))) == CmpBool::True);
    assert!(cmp(booleans.compare_less_than(&t, &Value::with_boolean(0))) == CmpBool::False);
    assert!(cmp(booleans.compare_less_than_equal(&t, &t)) == CmpBool::True);
    assert!(cmp(booleans.compare_greater_than(&t, &Value::with_boolean(0))) == CmpBool::True);
    assert!(cmp(booleans.compare_greater_than_equal(&t, &t)) == CmpBool::True);
    assert_eq!(ok(booleans.deserialize(&[1])).as_boolean(), 1);

    let integers = IntegerType::new();
    assert!(integers.kind() == TypeId::Integer);
    let five = Value::with_integer(5);
    assert!(integers.is_inlined(&five));
    assert!(!integers.is_zero(&five));
    assert_eq!(integers.to_string(&five), "5");
    assert_eq!(ok(integers.add(&five, &five)).as_integer(), 10);
    assert_eq!(ok(integers.subtract(&five, &five)).as_integer(), 0);
    assert_eq!(ok(integers.multiply(&five, &five)).as_integer(), 25);
    assert_eq!(ok(integers.divide(&five, &Value::with_integer(2))).as_integer(), 2);
    assert_eq!(ok(integers.modulo(&five, &Value::with_integer(2))).as_integer(), 1);
    assert_eq!(ok(integers.arithmetic(Arithmetic::Add, &five, &five)).as_integer(), 10);
    assert!(ok(integers.operate_null(&five, &five)).is_null());
    assert!(cmp(integers.compare_less_than(&five, &five)) == CmpBool::False);
    assert!(cmp(integers.compare_less_than_equal(&five, &five)) == CmpBool::True);
    assert!(IntegerType::of(TypeId::VarChar).is_none());
    let tiny = IntegerType::of(TypeId::TinyInt).unwrap();
    assert_eq!(ok(tiny.deserialize(&[0xff])).as_tinyint(), -1);

    let varchars = VarCharType::new();
    let s = Value::with_varchar(b"abc");
    assert!(!varchars.is_inlined(&s));
    assert_eq!(varchars.to_string(&s), "abc");
    assert_eq!(varchars.copy(&s).as_varchar(), b"abc");
    assert!(cmp(varchars.compare_equal(&s, &s)) == CmpBool::True);
    assert!(cmp(varchars.compare_greater_than(&s, &Value::with_varchar(b"abb"))) == CmpBool::True);
}

#[test]
fn decimal_texts() {
    assert_eq!(format_decimal(false, 0), b"0");
    assert_eq!(format_decimal(false, 10), b"10");
    assert_eq!(format_decimal(true, 1), b"-1");
    assert_eq!(format_decimal(true, 1 << 63), b"-9223372036854775808");
    assert_eq!(format_decimal(false, u64::MAX), b"18446744073709551615");
    assert_eq!(parse_decimal_text(b"0"), ParsedNumber::Number { negative: false, magnitude: 0 });
    assert_eq!(parse_decimal_text(b"007"), ParsedNumber::Number { negative: false, magnitude: 7 });
    assert_eq!(parse_decimal_text(b"+15"), ParsedNumber::Number { negative: false, magnitude: 15 });
    assert_eq!(parse_decimal_text(b"-15"), ParsedNumber::Number { negative: true, magnitude: 15 });
    assert_eq!(
        parse_decimal_text(b"18446744073709551615"),
        ParsedNumber::Number { negative: false, magnitude: u64::MAX }
    );
    assert_eq!(parse_decimal_text(b"18446744073709551616"), ParsedNumber::TooLarge);
    assert_eq!(parse_decimal_text(b"-99999999999999999999"), ParsedNumber::TooLarge);
    assert_eq!(parse_decimal_text(b"99999999999999999999x"), ParsedNumber::Invalid);
    assert_eq!(parse_decimal_text(b""), ParsedNumber::Invalid);
    assert_eq!(parse_decimal_text(b"+"), ParsedNumber::Invalid);
    assert_eq!(parse_decimal_text(b" 1"), ParsedNumber::Invalid);
    assert_eq!(parse_decimal_text(b"1.5"), ParsedNumber::Invalid);
    assert_eq!(parse_decimal_text(b"--1"), ParsedNumber::Invalid);
}

#[test]
fn byte_string_order() {
    assert_eq!(compare_bytes(b"", b""), 0);
    assert_eq!(compare_bytes(b"", b"a"), -1);
    assert_eq!(compare_bytes(b"a", b""), 1);
    assert_eq!(compare_bytes(b"ab", b"ab"), 0);
    assert_eq!(compare_bytes(b"ab", b"b"), -1);
    assert_eq!(compare_bytes(b"\xff", b"\x7f"), 1);
    assert_eq!(compare_bytes(b"abc", b"abcd"), -1);
}

#[test]
fn boolean_texts() {
    assert_eq!(parse_boolean_text(b"true"), Some(1));
    assert_eq!(parse_boolean_text(b"t"), Some(1));
    assert_eq!(parse_boolean_text(b"1"), Some(1));
    assert_eq!(parse_boolean_text(b"false"), Some(0));
    assert_eq!(parse_boolean_text(b"f"), Some(0));
    assert_eq!(parse_boolean_text(b"0"), Some(0));
    assert_eq!(parse_boolean_text(b"TRUE"), None);
    assert_eq!(parse_boolean_text(b""), None);
    assert_eq!(parse_boolean_text(b"2"), None);
}

#[test]
fn comparisons_by_name() {
    let a = Value::with_integer(1);
    let b = Value::with_integer(2);
    let order = a.order(&b);
    assert!(matches!(order, Ok(Some(-1))));
    assert!(matches!(b.order(&a), Ok(Some(1))));
    assert!(matches!(a.order(&a), Ok(Some(0))));
    assert!(matches!(a.order(&Value::with_null(TypeId::Integer)), Ok(None)));
    let r = rustub::types::value::compare_outcome(Comparison::LessThan, Ok(Some(-1)));
    assert!(cmp(r) == CmpBool::True);
}
