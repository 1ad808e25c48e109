use rustlox::object::ObjArray;
use rustlox::value::is_nan;
use rustlox::value::number_eq;
use rustlox::value::number_lt;
use rustlox::value::number_neg;
use rustlox::value::Value;
use rustlox::value::ValueArray;
use rustlox::value::ValueType;

fn samples() -> Vec<f64> {
    vec![
        0.0,
        -0.0,
        1.0,
        -1.0,
        0.5,
        -0.5,
        3.0,
        1e300,
        -1e300,
        5e-324,
        -5e-324,
        f64::MIN_POSITIVE,
        f64::MAX,
        f64::MIN,
        f64::INFINITY,
        f64::NEG_INFINITY,
        f64::NAN,
        -f64::NAN,
        f64::from_bits(0x7ff0_0000_0000_0001),
        f64::from_bits(0xfff8_0000_0000_0000),
    ]
}

#[test]
fn nan_is_told_by_its_encoding() {
    for x in samples() {
        assert_eq!(is_nan(x.to_bits()), x.is_nan(), "{}", x);
    }
}

#[test]
fn number_equality_is_that_of_doubles() {
    for a in samples() {
        for b in samples() {
            assert_eq!(number_eq(a.to_bits(), b.to_bits()), a == b, "{} == {}", a, b);
        }
    }
}

#[test]
fn number_order_is_that_of_doubles() {
    for a in samples() {
        for b in samples() {
            assert_eq!(number_lt(a.to_bits(), b.to_bits()), a < b, "{} < {}", a, b);
        }
    }
}

#[test]
fn negation_is_that_of_doubles() {
    for a in samples() {
        assert_eq!(number_neg(a.to_bits()), (-a).to_bits(), "-{}", a);
    }
    assert_eq!(number_neg(1.5f64.to_bits()), (-1.5f64).to_bits());
}

#[test]
fn zeros_are_equal_and_nan_is_not() {
    assert!(number_eq(0.0f64.to_bits(), (-0.0f64).to_bits()));
    assert!(!number_eq(f64::NAN.to_bits(), f64::NAN.to_bits()));
    assert!(!number_lt((-0.0f64).to_bits(), 0.0f64.to_bits()));
}

#[test]
fn constructors_and_kinds() {
    assert_eq!(Value::nil(), Value::Nil);
    assert_eq!(Value::bool(true), Value::Bool(true));
    assert_eq!(Value::number(7), Value::Number(7));
    assert_eq!(Value::object(3), Value::Obj(3));
    assert_eq!(Value::Nil.value_type(), ValueType::Nil);
    assert_eq!(Value::Bool(false).value_type(), ValueType::Bool);
    assert_eq!(Value::Number(0).value_type(), ValueType::Number);
    assert_eq!(Value::Obj(0).value_type(), ValueType::Obj);
}

#[test]
fn kind_tests() {
    let all = [Value::Nil, Value::Bool(true), Value::Number(1), Value::Obj(0)];
    let expected = [
        (true, false, false, false),
        (false, true, false, false),
        (false, false, true, false),
        (false, false, false, true),
    ];
    for (v, e) in all.iter().zip(expected.iter()) {
        assert_eq!((v.is_nil(), v.is_bool(), v.is_number(), v.is_object()), *e);
    }
}

#[test]
fn only_nil_and_false_are_falsey() {
    assert!(Value::Nil.is_falsey());
    assert!(Value::Bool(false).is_falsey());
    assert!(!Value::Bool(true).is_falsey());
    assert!(!Value::Number(0.0f64.to_bits()).is_falsey());
    assert!(!Value::Number(f64::NAN.to_bits()).is_falsey());
    assert!(!Value::Obj(0).is_falsey());
}

#[test]
fn equality_across_kinds_is_false() {
    let all = [
        Value::Nil,
        Value::Bool(false),
        Value::Bool(true),
        Value::Number(0),
        Value::Number(1.0f64.to_bits()),
        Value::Obj(0),
        Value::Obj(1),
    ];
    for (i, a) in all.iter().enumerate() {
        for (j, b) in all.iter().enumerate() {
            assert_eq!(a.equals(*b), i == j, "{:?} {:?}", a, b);
        }
    }
}

#[test]
fn equality_of_numbers_follows_doubles() {
    assert!(Value::Number(0.0f64.to_bits()).equals(Value::Number((-0.0f64).to_bits())));
    assert!(!Value::Number(f64::NAN.to_bits()).equals(Value::Number(f64::NAN.to_bits())));
    assert!(Value::Nil.equals(Value::Nil));
}

#[test]
fn unwrapping() {
    assert!(Value::Bool(true).as_bool());
    assert!(!Value::Bool(false).as_bool());
    assert_eq!(Value::Number(2.5f64.to_bits()).as_number(), 2.5f64.to_bits());
    assert_eq!(Value::Obj(9).as_object(), 9);
}

#[test]
fn strings_among_values() {
    let mut heap = ObjArray::default();
    let s = heap.copy_string(b"text");
    let v = Value::Obj(s);
    assert!(v.is_string(&heap));
    assert!(!Value::Obj(s + 1).is_string(&heap));
    assert!(!Value::Nil.is_string(&heap));
    assert!(!Value::Number(s as u64).is_string(&heap));
    assert_eq!(v.as_string(&heap), s);
    assert_eq!(v.as_str(&heap), b"text".to_vec());
}

#[test]
fn printed_forms() {
    let mut heap = ObjArray::default();
    let s = heap.copy_string(b"raw \"contents\"");
    assert_eq!(Value::Nil.print(&heap), Some(b"nil".to_vec()));
    assert_eq!(Value::Bool(true).print(&heap), Some(b"true".to_vec()));
    assert_eq!(Value::Bool(false).print(&heap), Some(b"false".to_vec()));
    assert_eq!(Value::Obj(s).print(&heap), Some(b"raw \"contents\"".to_vec()));
    assert_eq!(Value::Number(1.0f64.to_bits()).print(&heap), None);
}

#[test]
fn value_array_appends() {
    let mut array = ValueArray::default();
    assert!(array.values.is_empty());
    array.write(Value::Nil);
    array.write(Value::Number(4));
    assert_eq!(array.values, vec![Value::Nil, Value::Number(4)]);
}
