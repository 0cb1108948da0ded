use boa::builtins::bigint::BigInt;
use boa::builtins::function::make_builtin_fn;
use boa::builtins::number::{
    double_is_finite, double_is_nan, double_is_zero, double_to_count, double_to_i64,
    double_to_int32,
    wrap_residue, wrap_to_int32,
};
use boa::builtins::object::{Callable, Heap, NativeFunction, Object, ObjectKind};
use boa::builtins::property::{Property, Slot};
use boa::builtins::value::{number_to_string, Value};
use boa::text::{chars_of, digits_residue, signed_to_string, string_of, unsigned_to_string};

#[test]
fn decimal_notation() {
    assert_eq!(unsigned_to_string(0), "0");
    assert_eq!(unsigned_to_string(10), "10");
    assert_eq!(unsigned_to_string(u64::MAX), "18446744073709551615");
    assert_eq!(signed_to_string(-1), "-1");
    assert_eq!(signed_to_string(i64::MIN), "-9223372036854775808");
    assert_eq!(signed_to_string(i64::MAX), "9223372036854775807");
}

#[test]
fn characters_and_strings() {
    assert_eq!(chars_of("aé"), vec!['a', 'é']);
    assert_eq!(string_of(&vec!['x', 'y']), "xy");
    assert_eq!(digits_residue(&chars_of("x12"), 1), Some(12));
    assert_eq!(digits_residue(&chars_of("4294967298"), 0), Some(2));
    assert_eq!(digits_residue(&chars_of("12x"), 0), None);
    assert_eq!(digits_residue(&chars_of("12"), 2), None);
}

#[test]
fn double_classification() {
    assert!(double_is_nan(f64::NAN.to_bits()));
    assert!(!double_is_nan(f64::INFINITY.to_bits()));
    assert!(!double_is_finite(f64::NEG_INFINITY.to_bits()));
    assert!(double_is_finite(f64::MAX.to_bits()));
    assert!(double_is_zero(0.0f64.to_bits()));
    assert!(double_is_zero((-0.0f64).to_bits()));
    assert!(!double_is_zero(5e-324f64.to_bits()));
}

#[test]
fn double_to_integer() {
    assert_eq!(double_to_i64(0.0f64.to_bits()), Some(0));
    assert_eq!(double_to_i64((-0.0f64).to_bits()), Some(0));
    assert_eq!(double_to_i64(1.0f64.to_bits()), Some(1));
    assert_eq!(double_to_i64((-2.0f64).to_bits()), Some(-2));
    assert_eq!(double_to_i64(0.5f64.to_bits()), None);
    assert_eq!(double_to_i64(1.5f64.to_bits()), None);
    assert_eq!(double_to_i64(9007199254740993.0f64.to_bits()), Some(9007199254740992));
    assert_eq!(double_to_i64(4611686018427387904.0f64.to_bits()), Some(1 << 62));
    assert_eq!(double_to_i64(9223372036854775808.0f64.to_bits()), None);
    assert_eq!(double_to_i64((-9223372036854775808.0f64).to_bits()), Some(i64::MIN));
    assert_eq!(double_to_i64(1e19f64.to_bits()), None);
    assert_eq!(double_to_i64(f64::NAN.to_bits()), None);
    assert_eq!(double_to_i64(f64::INFINITY.to_bits()), None);
    assert_eq!(double_to_i64(5e-324f64.to_bits()), None);
}

#[test]
fn double_to_int32_wraps() {
    assert_eq!(double_to_int32(0.0f64.to_bits()), 0);
    assert_eq!(double_to_int32(0.99f64.to_bits()), 0);
    assert_eq!(double_to_int32((-0.99f64).to_bits()), 0);
    assert_eq!(double_to_int32(1.0f64.to_bits()), 1);
    assert_eq!(double_to_int32((-1.0f64).to_bits()), -1);
    assert_eq!(double_to_int32(2147483647.0f64.to_bits()), i32::MAX);
    assert_eq!(double_to_int32(2147483648.0f64.to_bits()), i32::MIN);
    assert_eq!(double_to_int32((-2147483648.0f64).to_bits()), i32::MIN);
    assert_eq!(double_to_int32((-2147483649.0f64).to_bits()), i32::MAX);
    assert_eq!(double_to_int32(4294967296.0f64.to_bits()), 0);
    assert_eq!(double_to_int32(4294967297.5f64.to_bits()), 1);
    assert_eq!(double_to_int32((-4294967297.5f64).to_bits()), -1);
    assert_eq!(double_to_int32(6442450943.0f64.to_bits()), 2147483647);
    assert_eq!(double_to_int32(1e21f64.to_bits()), -559939584);
    assert_eq!(double_to_int32(18446744073709551616.0f64.to_bits()), 0);
    assert_eq!(double_to_int32(f64::MAX.to_bits()), 0);
    assert_eq!(double_to_int32(f64::NAN.to_bits()), 0);
    assert_eq!(double_to_int32(f64::NEG_INFINITY.to_bits()), 0);
}

#[test]
fn double_as_small_count() {
    assert_eq!(double_to_count(0.0f64.to_bits()), 0);
    assert_eq!(double_to_count(0.9f64.to_bits()), 0);
    assert_eq!(double_to_count(1.0f64.to_bits()), 1);
    assert_eq!(double_to_count(9.99f64.to_bits()), 9);
    assert_eq!(double_to_count(10.0f64.to_bits()), 10);
    assert_eq!(double_to_count(15.9f64.to_bits()), 10);
    assert_eq!(double_to_count(16.0f64.to_bits()), 10);
    assert_eq!(double_to_count(4294967297.0f64.to_bits()), 10);
    assert_eq!(double_to_count((-1.0f64).to_bits()), 0);
    assert_eq!(double_to_count((-1e30f64).to_bits()), 0);
    assert_eq!(double_to_count(f64::INFINITY.to_bits()), 10);
    assert_eq!(double_to_count(f64::NEG_INFINITY.to_bits()), 0);
    assert_eq!(double_to_count(f64::NAN.to_bits()), 0);
}

#[test]
fn integer_wrapping() {
    assert_eq!(wrap_to_int32(0), 0);
    assert_eq!(wrap_to_int32(-1), -1);
    assert_eq!(wrap_to_int32(0x8000_0000), i32::MIN);
    assert_eq!(wrap_to_int32(0x1_0000_0005), 5);
    assert_eq!(wrap_to_int32(-0x1_0000_0005), -5);
    assert_eq!(wrap_to_int32(i64::MIN), 0);
    assert_eq!(wrap_to_int32(i64::MAX), -1);
    assert_eq!(wrap_residue(true, 1), -1);
    assert_eq!(wrap_residue(false, 0xffff_ffff), -1);
    assert_eq!(wrap_residue(true, 0), 0);
}

#[test]
fn number_text() {
    assert_eq!(number_to_string(f64::NAN.to_bits()), "NaN");
    assert_eq!(number_to_string(f64::INFINITY.to_bits()), "Infinity");
    assert_eq!(number_to_string(f64::NEG_INFINITY.to_bits()), "-Infinity");
    assert_eq!(number_to_string(0.0f64.to_bits()), "0");
    assert_eq!(number_to_string((-0.0f64).to_bits()), "0");
    assert_eq!(number_to_string(2.0f64.to_bits()), "2");
    assert_eq!(number_to_string((-1e15f64).to_bits()), "-1000000000000000");
    assert_eq!(number_to_string(1.5f64.to_bits()), "0x3ff8000000000000");
    assert_eq!(number_to_string(1e300f64.to_bits()), "0x7e37e43c8800759c");
}

#[test]
fn value_text() {
    assert_eq!(Value::null().to_string(), "null");
    assert_eq!(Value::undefined().to_string(), "undefined");
    assert_eq!(Value::boolean(true).to_string(), "true");
    assert_eq!(Value::boolean(false).to_string(), "false");
    assert_eq!(Value::string("s".to_string()).to_string(), "s");
    assert_eq!(Value::integer(-12).to_string(), "-12");
    assert_eq!(Value::rational(3.0f64.to_bits()).to_string(), "3");
    assert_eq!(Value::BigInt(BigInt::from_i64(-40)).to_string(), "-40");
    assert_eq!(Value::Object(0).to_string(), "[object Object]");
    assert_eq!(Value::Function(0).to_string(), "[object Function]");
    assert_eq!(Value::Symbol(0).to_string(), "Symbol()");
}

#[test]
fn value_kinds() {
    assert!(Value::Object(1).is_object());
    assert!(!Value::Function(1).is_object());
    assert!(Value::Function(1).is_function());
    assert!(Value::Symbol(1).is_symbol());
    assert!(Value::Null.is_null_or_undefined());
    assert!(Value::Undefined.is_null_or_undefined());
    assert!(!Value::Integer(0).is_null_or_undefined());
    assert!(Value::Undefined.is_undefined());
    assert!(!Value::Null.is_undefined());
    assert!(Value::BigInt(BigInt::from_i64(1)).is_true());
    assert!(!Value::BigInt(BigInt::from_i64(0)).is_true());
    assert!(Value::Symbol(0).is_true());
}

#[test]
fn value_equality() {
    let one = Value::Integer(1);
    assert!(one.strict_equals(&Value::Rational(1.0f64.to_bits())));
    assert!(Value::Rational(1.0f64.to_bits()).strict_equals(&one));
    assert!(!one.strict_equals(&Value::Rational(1.5f64.to_bits())));
    assert!(!one.strict_equals(&Value::String("1".to_string())));
    assert!(!one.loose_equals(&Value::String("1".to_string())));
    let nan = Value::Rational(f64::NAN.to_bits());
    assert!(!nan.strict_equals(&nan));
    assert!(Value::Rational(0.0f64.to_bits()).strict_equals(&Value::Rational((-0.0f64).to_bits())));
    assert!(Value::Null.loose_equals(&Value::Undefined));
    assert!(!Value::Null.strict_equals(&Value::Undefined));
    assert!(Value::Object(2).strict_equals(&Value::Object(2)));
    assert!(!Value::Object(2).strict_equals(&Value::Object(3)));
    assert!(!Value::Object(2).strict_equals(&Value::Function(2)));
    assert!(Value::BigInt(BigInt::from_i64(7)).strict_equals(&Value::BigInt(BigInt::from_i64(7))));
    assert!(!Value::BigInt(BigInt::from_i64(7)).strict_equals(&Value::Integer(7)));
}

#[test]
fn bigint_text_and_tests() {
    assert_eq!(BigInt::from_i64(0).to_string(), "0");
    assert_eq!(BigInt::from_i64(i64::MIN).to_string(), "-9223372036854775808");
    let big = BigInt::from_decimal("123456789012345678901234567890").unwrap();
    assert_eq!(big.to_string(), "123456789012345678901234567890");
    assert!(!big.is_zero());
    assert!(!big.is_negative());
    assert!(BigInt::from_decimal("-5").unwrap().is_negative());
    assert!(BigInt::from_decimal("0").unwrap().is_zero());
    assert!(BigInt::from_decimal("").is_none());
    assert!(BigInt::from_decimal("-").is_none());
    assert!(BigInt::from_decimal("-0").is_none());
    assert!(BigInt::from_decimal("007").is_none());
    assert!(BigInt::from_decimal("1a").is_none());
    assert!(BigInt::from_decimal("+1").is_none());
    assert!(big.clone().equals(&big));
    assert!(!big.equals(&BigInt::from_i64(1)));
}

#[test]
fn bigint_to_native_integers() {
    assert!(BigInt::from_i64(5).equals_i32(5));
    assert!(!BigInt::from_i64(-5).equals_i32(5));
    assert_eq!(BigInt::from_i64(7).to_i32(), Some(7));
    assert_eq!(BigInt::from_i64(i32::MIN as i64).to_i32(), Some(i32::MIN));
    assert_eq!(BigInt::from_i64(i32::MAX as i64 + 1).to_i32(), None);
    assert_eq!(BigInt::from_decimal("99999999999999999999").unwrap().to_i32(), None);
    assert_eq!(BigInt::from_i64(0x1_0000_0003).to_int32(), 3);
    assert_eq!(BigInt::from_i64(-1).to_int32(), -1);
    assert_eq!(Value::BigInt(BigInt::from_i64(0x1_0000_0003)).to_integer(), 3);
    assert_eq!(BigInt::from_i64(12).right_shift_count(), 12);
    assert_eq!(BigInt::from_i64(-12).right_shift_count(), -12);
    assert_eq!(BigInt::from_i64(1 << 40).right_shift_count(), i32::MAX);
    assert_eq!(BigInt::from_i64(-(1 << 40)).right_shift_count(), i32::MAX);
}

#[test]
fn property_builders() {
    let p = Property::default();
    assert!(!p.configurable && !p.enumerable && !p.is_writable());
    assert!(p.stored_value().is_undefined());
    let p = Property::default()
        .value(Value::Integer(3))
        .writable(true)
        .enumerable(true)
        .configurable(true);
    assert!(p.configurable && p.enumerable && p.is_writable());
    assert_eq!(p.stored_value().to_integer(), 3);
    let q = p.clone().get(Some(4));
    assert!(matches!(q.slot, Slot::Accessor { get: Some(4), set: None }));
    assert!(q.stored_value().is_undefined());
    assert!(!q.is_writable());
    assert!(q.enumerable);
    let q = q.set(Some(5));
    assert!(matches!(q.slot, Slot::Accessor { get: Some(4), set: Some(5) }));
    let back = q.value(Value::Integer(1));
    assert!(matches!(back.slot, Slot::Data { writable: false, .. }));
    let d = Property::data(Value::Null, false, true, false);
    assert!(d.enumerable && !d.configurable && !d.is_writable());
}

#[test]
fn object_properties_keep_insertion_order() {
    let mut object = Object::new(ObjectKind::Ordinary);
    object.insert("b".to_string(), Property::data(Value::Integer(1), true, true, true));
    object.insert("a".to_string(), Property::data(Value::Integer(2), true, true, true));
    object.insert("b".to_string(), Property::data(Value::Integer(3), true, true, true));
    assert_eq!(object.properties.len(), 2);
    assert_eq!(object.properties[0].0, "b");
    assert_eq!(object.properties[0].1.stored_value().to_integer(), 3);
    assert_eq!(object.position(&"a".to_string()), Some(1));
    assert_eq!(object.position(&"c".to_string()), None);
    assert!(object.has_property(&"a".to_string()));
    assert!(object.get_property(&"c".to_string()).is_none());
    object.remove(&"b".to_string());
    assert_eq!(object.properties.len(), 1);
    assert_eq!(object.properties[0].0, "a");
    object.remove(&"missing".to_string());
    assert_eq!(object.properties.len(), 1);
}

#[test]
fn fields_of_objects_in_the_heap() {
    let mut heap = Heap::new();
    let parent = Value::new_object(&mut heap, None);
    let child = Value::new_object(&mut heap, Some(&parent));
    assert_eq!(heap.objects[1].prototype, None);
    assert_eq!(heap.object(0).prototype, None);
    assert_eq!(heap.target(&child), Some(1));
    {
        let mut heap = Heap::new();
        let global = Value::new_object(&mut heap, None);
        let constructor = Value::new_object(&mut heap, None);
        let prototype = Value::new_object(&mut heap, None);
        constructor.set_field(&mut heap, "prototype".to_string(), prototype);
        global.set_field(&mut heap, "Object".to_string(), constructor);
        let made = Value::new_object(&mut heap, Some(&global));
        assert_eq!(heap.objects[heap.target(&made).unwrap()].prototype, Some(2));
    }
    assert_eq!(heap.target(&Value::Object(9)), None);
    assert_eq!(heap.target(&Value::Integer(0)), None);

    child.set_field(&mut heap, "x".to_string(), Value::Integer(1));
    assert!(child.has_field(&heap, "x"));
    assert!(!parent.has_field(&heap, "x"));
    child.set_field(&mut heap, "x".to_string(), Value::Integer(2));
    assert_eq!(child.get_field(&heap, "x").to_integer(), 2);
    let p = child.get_property(&heap, "x").unwrap();
    assert!(p.enumerable && p.configurable && p.is_writable());

    child.set_property(
        &mut heap,
        "fixed".to_string(),
        Property::data(Value::Integer(5), false, true, true),
    );
    child.set_field(&mut heap, "fixed".to_string(), Value::Integer(6));
    assert_eq!(child.get_field(&heap, "fixed").to_integer(), 5);

    child.remove_property(&mut heap, "x");
    assert!(!child.has_field(&heap, "x"));
    assert!(child.get_field(&heap, "x").is_undefined());

    Value::Integer(1).set_field(&mut heap, "x".to_string(), Value::Null);
    assert!(!Value::Integer(1).has_field(&heap, "x"));
    assert!(Value::Object(7).get_field(&heap, "x").is_undefined());
    heap.delete_property(1, &"fixed".to_string());
    assert!(!child.has_field(&heap, "fixed"));
    heap.insert_property(0, "k".to_string(), Property::default());
    assert!(parent.has_field(&heap, "k"));
}

#[test]
fn builtin_functions_are_function_objects() {
    let mut heap = Heap::new();
    let parent = Value::new_object(&mut heap, None);
    make_builtin_fn(NativeFunction::JsonParse, "parse", &parent, 2, &mut heap);
    let f = parent.get_field(&heap, "parse");
    assert!(matches!(f, Value::Function(1)));
    assert!(heap.objects[1].kind == ObjectKind::Function);
    assert!(heap.objects[1].call == Some(Callable::Native(NativeFunction::JsonParse)));
    assert_eq!(f.get_field(&heap, "length").to_integer(), 2);
    let copy = heap.objects[1].clone();
    assert!(copy.call == Some(Callable::Native(NativeFunction::JsonParse)));
    assert_eq!(copy.properties.len(), 1);
}
