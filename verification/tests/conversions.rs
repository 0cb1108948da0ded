use boa::builtins::json::tree::Json;
use boa::builtins::object::{Heap, Object, ObjectKind};
use boa::builtins::property::Property;
use boa::builtins::value::conversions::{from_value, to_value, FromValue, ToValue};
use boa::builtins::value::Value;

#[test]
fn string_round_trip() {
    let mut heap = Heap::new();
    let v = to_value("héllo".to_string(), &mut heap);
    assert_eq!(from_value::<String>(v, &heap), Ok("héllo".to_string()));
    let v = to_value("slice", &mut heap);
    assert_eq!(from_value::<String>(v, &heap), Ok("slice".to_string()));
}

#[test]
fn bool_round_trip_and_truthiness() {
    let mut heap = Heap::new();
    assert_eq!(from_value::<bool>(to_value(true, &mut heap), &heap), Ok(true));
    assert_eq!(from_value::<bool>(to_value(false, &mut heap), &heap), Ok(false));
    assert_eq!(from_value::<bool>(Value::String(String::new()), &heap), Ok(false));
    assert_eq!(from_value::<bool>(Value::String("0".to_string()), &heap), Ok(true));
    assert_eq!(from_value::<bool>(Value::Integer(0), &heap), Ok(false));
    assert_eq!(from_value::<bool>(Value::Rational(f64::NAN.to_bits()), &heap), Ok(false));
    assert_eq!(from_value::<bool>(Value::Rational((-0.0f64).to_bits()), &heap), Ok(false));
    assert_eq!(from_value::<bool>(Value::Rational(0.1f64.to_bits()), &heap), Ok(true));
    assert_eq!(from_value::<bool>(Value::Null, &heap), Ok(false));
    assert_eq!(from_value::<bool>(Value::Undefined, &heap), Ok(false));
    let object = Value::new_object(&mut heap, None);
    assert_eq!(from_value::<bool>(object, &heap), Ok(true));
}

#[test]
fn i32_round_trip() {
    let mut heap = Heap::new();
    for x in [0, 1, -1, 42, i32::MAX, i32::MIN] {
        assert_eq!(from_value::<i32>(to_value(x, &mut heap), &heap), Ok(x));
    }
}

#[test]
fn i32_from_other_values() {
    let heap = Heap::new();
    assert_eq!(from_value::<i32>(Value::String("123".to_string()), &heap), Ok(123));
    assert_eq!(from_value::<i32>(Value::String("-7".to_string()), &heap), Ok(-7));
    assert_eq!(from_value::<i32>(Value::String("+7".to_string()), &heap), Ok(7));
    assert_eq!(from_value::<i32>(Value::String("4294967297".to_string()), &heap), Ok(1));
    assert_eq!(from_value::<i32>(Value::String("12x".to_string()), &heap), Ok(0));
    assert_eq!(from_value::<i32>(Value::String("-".to_string()), &heap), Ok(0));
    assert_eq!(from_value::<i32>(Value::String(String::new()), &heap), Ok(0));
    assert_eq!(from_value::<i32>(Value::Boolean(true), &heap), Ok(1));
    assert_eq!(from_value::<i32>(Value::Null, &heap), Ok(0));
    assert_eq!(from_value::<i32>(Value::Rational(3.99f64.to_bits()), &heap), Ok(3));
    assert_eq!(from_value::<i32>(Value::Rational((-3.99f64).to_bits()), &heap), Ok(-3));
    assert_eq!(from_value::<i32>(Value::Rational(2147483648.0f64.to_bits()), &heap), Ok(i32::MIN));
    assert_eq!(from_value::<i32>(Value::Rational(4294967301.0f64.to_bits()), &heap), Ok(5));
    assert_eq!(from_value::<i32>(Value::Rational(f64::INFINITY.to_bits()), &heap), Ok(0));
    assert_eq!(from_value::<i32>(Value::Rational(f64::NAN.to_bits()), &heap), Ok(0));
    assert_eq!(from_value::<i32>(Value::Rational(1e300f64.to_bits()), &heap), Ok(0));
    assert_eq!(from_value::<i32>(Value::Rational(5e-324f64.to_bits()), &heap), Ok(0));
}

#[test]
fn usize_round_trip_within_i32() {
    let mut heap = Heap::new();
    for x in [0usize, 1, 77, i32::MAX as usize] {
        assert_eq!(from_value::<usize>(to_value(x, &mut heap), &heap), Ok(x));
    }
}

#[test]
fn usize_wraps_above_i32() {
    let mut heap = Heap::new();
    let v = to_value(0x8000_0001usize, &mut heap);
    assert_eq!(v.to_integer(), -2147483647);
    assert_eq!(from_value::<usize>(v, &heap), Ok(0x8000_0001usize));
    assert_eq!(from_value::<usize>(Value::Integer(-1), &heap), Ok(0xffff_ffffusize));
}

#[test]
fn unit_round_trip() {
    let mut heap = Heap::new();
    let v = to_value((), &mut heap);
    assert!(matches!(v, Value::Null));
    assert_eq!(from_value::<()>(v, &heap), Ok(()));
    assert_eq!(from_value::<()>(Value::Integer(3), &heap), Ok(()));
}

#[test]
fn char_round_trip() {
    let mut heap = Heap::new();
    assert_eq!(from_value::<char>(to_value('ß', &mut heap), &heap), Ok('ß'));
    assert_eq!(from_value::<char>(Value::String("xyz".to_string()), &heap), Ok('x'));
    assert_eq!(from_value::<char>(Value::Integer(-5), &heap), Ok('-'));
    assert_eq!(
        from_value::<char>(Value::String(String::new()), &heap),
        Err("Could not get next char")
    );
}

#[test]
fn option_round_trip() {
    let mut heap = Heap::new();
    assert_eq!(from_value::<Option<i32>>(to_value(Some(5), &mut heap), &heap), Ok(Some(5)));
    assert_eq!(from_value::<Option<i32>>(to_value(None::<i32>, &mut heap), &heap), Ok(None));
    assert_eq!(from_value::<Option<i32>>(Value::Undefined, &heap), Ok(None));
    assert_eq!(
        from_value::<Option<String>>(to_value(Some("s".to_string()), &mut heap), &heap),
        Ok(Some("s".to_string()))
    );
    assert_eq!(from_value::<Option<()>>(to_value(Some(()), &mut heap), &heap), Ok(None));
}

#[test]
fn value_is_passed_through() {
    let mut heap = Heap::new();
    let v = to_value(Value::Integer(9), &mut heap);
    match from_value::<Value>(v, &heap) {
        Ok(Value::Integer(9)) => {}
        _ => panic!("a value converts to itself"),
    }
}

#[test]
fn vec_round_trip() {
    let mut heap = Heap::new();
    let v = to_value(vec![3, -4, 5], &mut heap);
    assert!(v.is_object());
    assert_eq!(heap.objects[0].kind == ObjectKind::Array, true);
    assert_eq!(v.get_field(&heap, "length").to_integer(), 3);
    assert_eq!(v.get_field(&heap, "1").to_integer(), -4);
    assert_eq!(from_value::<Vec<i32>>(v, &heap), Ok(vec![3, -4, 5]));

    let nested = to_value(vec![vec!["a".to_string()], vec![]], &mut heap);
    assert_eq!(
        from_value::<Vec<Vec<String>>>(nested, &heap),
        Ok(vec![vec!["a".to_string()], vec![]])
    );
    let array: [bool; 2] = [true, false];
    let from_slice = to_value(&array[..], &mut heap);
    assert_eq!(from_value::<Vec<bool>>(from_slice, &heap), Ok(vec![true, false]));
}

#[test]
fn vec_conversion_reads_length_then_indices() {
    let mut heap = Heap::new();
    let sparse = Value::new_object(&mut heap, None);
    sparse.set_field(&mut heap, "length".to_string(), Value::Integer(3));
    sparse.set_field(&mut heap, "1".to_string(), Value::Integer(11));
    sparse.set_field(&mut heap, "name".to_string(), Value::Integer(12));
    assert_eq!(from_value::<Vec<i32>>(sparse.clone(), &heap), Ok(vec![0, 11, 0]));
    assert_eq!(
        from_value::<Vec<Option<i32>>>(sparse, &heap),
        Ok(vec![None, Some(11), None])
    );
    assert_eq!(from_value::<Vec<i32>>(Value::Integer(1), &heap), Ok(vec![]));
    let negative = Value::new_object(&mut heap, None);
    negative.set_field(&mut heap, "length".to_string(), Value::Integer(-2));
    assert_eq!(from_value::<Vec<i32>>(negative, &heap), Ok(vec![]));
}

#[test]
fn vec_conversion_reports_the_first_error() {
    let mut heap = Heap::new();
    let list = to_value(vec![1, 2], &mut heap);
    assert!(matches!(
        from_value::<Vec<Object>>(list, &heap),
        Err("Value is not a valid object")
    ));
    let texts = to_value(vec!["a".to_string(), String::new()], &mut heap);
    assert_eq!(
        from_value::<Vec<char>>(texts, &heap),
        Err("Could not get next char")
    );
}

#[test]
fn object_round_trip() {
    let mut heap = Heap::new();
    let mut object = Object::new(ObjectKind::Ordinary);
    object.insert(
        "k".to_string(),
        Property::default().value(Value::Integer(8)).enumerable(true),
    );
    let v = object.to_value(&mut heap);
    assert_eq!(v.get_field(&heap, "k").to_integer(), 8);
    let back = Object::from_value(v, &heap).unwrap();
    assert_eq!(back.properties.len(), 1);
    assert_eq!(back.properties[0].0, "k");
    assert!(back.properties[0].1.enumerable);
    assert!(!back.properties[0].1.is_writable());
    assert_eq!(back.properties[0].1.stored_value().to_integer(), 8);
}

#[test]
fn object_from_other_values_is_an_error() {
    let heap = Heap::new();
    assert!(matches!(
        from_value::<Object>(Value::String("s".to_string()), &heap),
        Err("Value is not a valid object")
    ));
    assert!(matches!(
        from_value::<Object>(Value::Object(3), &heap),
        Err("Value is not a valid object")
    ));
    assert!(matches!(
        from_value::<Object>(Value::Function(0), &heap),
        Err("Value is not a valid object")
    ));
}

#[test]
fn json_conversion_goes_through_the_tree() {
    let mut heap = Heap::new();
    let tree = Json::Array(vec![Json::Integer(1), Json::String("x".to_string())]);
    let v = to_value(tree, &mut heap);
    match from_value::<Json>(v, &heap) {
        Ok(Json::Array(items)) => {
            assert_eq!(items.len(), 2);
            assert!(matches!(items[0], Json::Integer(1)));
        }
        _ => panic!("an array converts to an array"),
    }
    let big = Value::BigInt(boa::builtins::bigint::BigInt::from_i64(1));
    assert!(matches!(
        from_value::<Json>(big, &heap),
        Err("TypeError: BigInt value can't be serialized in JSON")
    ));
}
