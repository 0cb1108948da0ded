use boa::builtins::json::tree::{Json, JsonError};
use boa::builtins::json;
use boa::builtins::json::{parse, supports_replacer, value_of_parsed};
use boa::builtins::object::{Heap, Object, ObjectKind};
use boa::builtins::property::Property;
use boa::builtins::value::Value;
use boa::exec::Interpreter;
use boa::realm::Realm;
use boa::{exec, forward};

#[test]
fn json_sanity() {
    let realm = Realm::create();
    let mut engine = Interpreter::new(realm);
    assert_eq!(
        forward(&mut engine, r#"JSON.parse('{"aaa":"bbb"}').aaa == 'bbb'"#),
        "true"
    );
    assert_eq!(
        forward(
            &mut engine,
            r#"JSON.stringify({aaa: 'bbb'}) == '{"aaa":"bbb"}'"#
        ),
        "true"
    );
}

#[test]
fn json_stringify_remove_undefined_values_from_objects() {
    let realm = Realm::create();
    let mut engine = Interpreter::new(realm);

    let actual = forward(
        &mut engine,
        r#"JSON.stringify({ aaa: undefined, bbb: 'ccc' })"#,
    );
    let expected = r#"{"bbb":"ccc"}"#;

    assert_eq!(actual, expected);
}

#[test]
fn json_stringify_remove_function_values_from_objects() {
    let realm = Realm::create();
    let mut engine = Interpreter::new(realm);

    let actual = forward(
        &mut engine,
        r#"JSON.stringify({ aaa: () => {}, bbb: 'ccc' })"#,
    );
    let expected = r#"{"bbb":"ccc"}"#;

    assert_eq!(actual, expected);
}

#[test]
fn json_stringify_remove_symbols_from_objects() {
    let realm = Realm::create();
    let mut engine = Interpreter::new(realm);

    let actual = forward(
        &mut engine,
        r#"JSON.stringify({ aaa: Symbol(), bbb: 'ccc' })"#,
    );
    let expected = r#"{"bbb":"ccc"}"#;

    assert_eq!(actual, expected);
}

#[test]
fn json_stringify_replacer_array_strings() {
    let realm = Realm::create();
    let mut engine = Interpreter::new(realm);
    let actual = forward(
        &mut engine,
        r#"JSON.stringify({aaa: 'bbb', bbb: 'ccc', ccc: 'ddd'}, ['aaa', 'bbb'])"#,
    );
    let expected = forward(&mut engine, r#"'{"aaa":"bbb","bbb":"ccc"}'"#);
    assert_eq!(actual, expected);
}

#[test]
fn json_stringify_replacer_array_numbers() {
    let realm = Realm::create();
    let mut engine = Interpreter::new(realm);
    let actual = forward(
        &mut engine,
        r#"JSON.stringify({ 0: 'aaa', 1: 'bbb', 2: 'ccc'}, [1, 2])"#,
    );
    let expected = forward(&mut engine, r#"'{"1":"bbb","2":"ccc"}'"#);
    assert_eq!(actual, expected);
}

#[test]
fn json_stringify_replacer_keeps_object_order() {
    let actual = exec(r#"JSON.stringify({zzz: 1, aaa: 2, mmm: 3}, ['mmm', 'aaa', 'zzz'])"#);
    assert_eq!(actual, r#"{"zzz":1,"aaa":2,"mmm":3}"#);
}

#[test]
fn json_stringify_replacer_does_not_reach_nested_objects() {
    let actual = exec(r#"JSON.stringify({a: {b: 1, c: 2}, c: 3}, ['a'])"#);
    assert_eq!(actual, r#"{"a":{"b":1,"c":2}}"#);
}

#[test]
fn json_stringify_rejects_function_replacer() {
    let actual = exec(r#"JSON.stringify({aaa: 1}, () => {})"#);
    assert_eq!(actual, "Error: replacer only supports arrays at this time");
}

#[test]
fn json_stringify_rejects_object_replacer() {
    let actual = exec(r#"JSON.stringify({aaa: 1}, {aaa: 1})"#);
    assert_eq!(actual, "Error: replacer only supports arrays at this time");
}

#[test]
fn json_stringify_ignores_primitive_replacer() {
    assert_eq!(exec(r#"JSON.stringify({aaa: 1}, null)"#), r#"{"aaa":1}"#);
    assert_eq!(exec(r#"JSON.stringify({aaa: 1}, 'aaa')"#), r#"{"aaa":1}"#);
}

#[test]
fn json_stringify_keeps_insertion_order() {
    assert_eq!(
        exec(r#"JSON.stringify({b: 1, a: 2, c: [3, 'x', null, true, false]})"#),
        r#"{"b":1,"a":2,"c":[3,"x",null,true,false]}"#
    );
}

#[test]
fn json_stringify_array_holes_are_null() {
    assert_eq!(
        exec(r#"JSON.stringify([undefined, () => {}, Symbol(), 1])"#),
        "[null,null,null,1]"
    );
}

#[test]
fn json_stringify_primitives() {
    assert_eq!(exec("JSON.stringify(null)"), "null");
    assert_eq!(exec("JSON.stringify(true)"), "true");
    assert_eq!(exec("JSON.stringify(42)"), "42");
    assert_eq!(exec("JSON.stringify('a\"b')"), r#""a\"b""#);
    assert_eq!(exec("JSON.stringify()"), "null");
    assert_eq!(exec("JSON.stringify({})"), "{}");
    assert_eq!(exec("JSON.stringify([])"), "[]");
}

#[test]
fn json_parse_reads_every_kind() {
    assert_eq!(exec(r#"JSON.parse('null')"#), "null");
    assert_eq!(exec(r#"JSON.parse('true')"#), "true");
    assert_eq!(exec(r#"JSON.parse('-17')"#), "-17");
    assert_eq!(exec(r#"JSON.parse('"text"')"#), "text");
    assert_eq!(exec(r#"JSON.parse('[10,20,30]').length"#), "3");
    assert_eq!(exec(r#"JSON.parse('[10,20,30]')[1]"#), "20");
    assert_eq!(exec(r#"JSON.parse('{"a":{"b":[true,null]}}').a.b[0]"#), "true");
    assert_eq!(exec(r#"JSON.parse('{"a":1}').b"#), "undefined");
}

#[test]
fn json_parse_then_stringify() {
    assert_eq!(
        exec(r#"JSON.stringify(JSON.parse('{"b":[1,{"c":null}],"a":"x"}'))"#),
        r#"{"b":[1,{"c":null}],"a":"x"}"#
    );
}

#[test]
fn json_parse_malformed_text_is_a_script_error() {
    assert_eq!(
        exec(r#"JSON.parse('{bad')"#),
        "Error: key must be a string at line 1 column 2"
    );
    assert_eq!(
        exec(r#"JSON.parse()"#),
        "Error: expected value at line 1 column 1"
    );
}

#[test]
fn json_parse_large_and_fractional_numbers() {
    let mut engine = Interpreter::new(Realm::create());
    assert_eq!(forward(&mut engine, "JSON.parse('4294967296')"), "4294967296");
    assert_eq!(forward(&mut engine, "JSON.parse('1e3')"), "1000");
    assert_eq!(
        forward(&mut engine, "JSON.stringify(JSON.parse('4294967296'))"),
        "4294967296"
    );
    assert_eq!(
        forward(&mut engine, "JSON.parse('1.5')"),
        "0x3ff8000000000000"
    );
    assert_eq!(
        forward(&mut engine, "JSON.stringify(JSON.parse('1.5'))"),
        "Error: TypeError: number is not an integer and cannot be written"
    );
}

#[test]
fn parse_and_stringify_called_directly() {
    let mut engine = Interpreter::new(Realm::create());
    let this = Value::Undefined;
    let parsed = parse(
        &this,
        &[Value::String(r#"{"k":[1,2]}"#.to_string())],
        &mut engine,
    );
    let value = match parsed {
        Ok(v) => v,
        Err(_) => panic!("the text is JSON"),
    };
    assert!(value.is_object());
    let args = [value];
    assert!(supports_replacer(&engine.realm.heap, &args));
    let text = match json::stringify(&this, &args, &mut engine) {
        Ok(Value::String(s)) => s,
        _ => panic!("the value has a JSON text"),
    };
    assert_eq!(text, r#"{"k":[1,2]}"#);
}

#[test]
fn value_of_parsed_maps_both_outcomes() {
    let mut heap = Heap::new();
    let ok = value_of_parsed(serde_json::from_str("[true]"), &mut heap);
    match ok {
        Ok(Value::Object(id)) => {
            assert_eq!(id, 0);
            assert!(heap.objects[0].kind == ObjectKind::Array);
        }
        _ => panic!("an array is an object"),
    }
    let err = value_of_parsed(serde_json::from_str("[true"), &mut heap);
    match err {
        Err(Value::String(message)) => {
            assert_eq!(message, "EOF while parsing a list at line 1 column 5")
        }
        _ => panic!("the text is not JSON"),
    }
    assert_eq!(heap.len(), 1);
}

#[test]
fn from_outside_reads_the_tree() {
    let outside: serde_json::Value =
        serde_json::from_str(r#"{"z":[1,-2,2.5,"x",null,true,{"b":4294967296}],"a":{}}"#).unwrap();
    let tree = Json::from_outside(&outside);
    let expected = Json::Object(vec![
        (
            "z".to_string(),
            Json::Array(vec![
                Json::Integer(1),
                Json::Integer(-2),
                Json::Rational(2.5f64.to_bits()),
                Json::String("x".to_string()),
                Json::Null,
                Json::Bool(true),
                Json::Object(vec![(
                    "b".to_string(),
                    Json::Rational(4294967296.0f64.to_bits()),
                )]),
            ]),
        ),
        ("a".to_string(), Json::Object(vec![])),
    ]);
    assert!(same_json(&tree.unwrap(), &expected));
}

#[test]
fn to_outside_writes_the_tree() {
    let tree = Json::Object(vec![
        ("b".to_string(), Json::Array(vec![Json::Integer(-1), Json::Null])),
        ("a".to_string(), Json::Rational(3.0f64.to_bits())),
        ("s".to_string(), Json::String("é\n".to_string())),
        ("t".to_string(), Json::Bool(false)),
    ]);
    let outside = tree.to_outside().unwrap();
    assert_eq!(outside.to_string(), "{\"b\":[-1,null],\"a\":3,\"s\":\"é\\n\",\"t\":false}");
    assert!(Json::Rational(0.5f64.to_bits()).to_outside().is_none());
    assert!(Json::Array(vec![Json::Rational(1e300f64.to_bits())])
        .to_outside()
        .is_none());
}

#[test]
fn json_tree_round_trips_through_values() {
    let tree = Json::Object(vec![
        ("list".to_string(), Json::Array(vec![
            Json::Integer(7),
            Json::Rational(0.25f64.to_bits()),
            Json::Array(vec![]),
            Json::Object(vec![("deep".to_string(), Json::Null)]),
        ])),
        ("flag".to_string(), Json::Bool(true)),
        ("name".to_string(), Json::String("n".to_string())),
    ]);
    let mut heap = Heap::new();
    let value = Value::from_json(&tree, &mut heap);
    assert_eq!(heap.len(), 4);
    let back = value.to_json(&heap);
    match back {
        Ok(j) => assert!(same_json(&j, &tree)),
        Err(_) => panic!("the value came from a tree"),
    }
}

#[test]
fn from_json_makes_arrays_with_length() {
    let mut heap = Heap::new();
    let value = Value::from_json(
        &Json::Array(vec![Json::String("a".to_string()), Json::Integer(5)]),
        &mut heap,
    );
    assert_eq!(value.get_field(&heap, "length").to_integer(), 2);
    assert_eq!(value.get_field(&heap, "0").to_string(), "a");
    assert_eq!(value.get_field(&heap, "1").to_integer(), 5);
    assert!(value.get_field(&heap, "2").is_undefined());
    let length = value.get_property(&heap, "length").unwrap();
    assert!(!length.enumerable);
    assert!(!length.configurable);
    assert!(length.is_writable());
}

#[test]
fn to_json_reports_cycles_and_bigints() {
    let mut heap = Heap::new();
    let object = Value::new_object(&mut heap, None);
    object.set_field(&mut heap, "me".to_string(), object.clone());
    assert!(matches!(object.to_json(&heap), Err(JsonError::Cyclic)));
    assert_eq!(JsonError::Cyclic.message(), "TypeError: cyclic object value");

    let big = Value::BigInt(boa::builtins::bigint::BigInt::from_i64(5));
    assert!(matches!(big.to_json(&heap), Err(JsonError::BigInt)));
    assert_eq!(
        JsonError::BigInt.message(),
        "TypeError: BigInt value can't be serialized in JSON"
    );
    assert!(matches!(object.to_json_within(&heap, 0), Err(JsonError::Cyclic)));
}

#[test]
fn to_json_skips_properties_that_are_not_enumerable() {
    let mut heap = Heap::new();
    let mut object = Object::new(ObjectKind::Ordinary);
    object.insert(
        "hidden".to_string(),
        Property::data(Value::Integer(1), true, false, true),
    );
    object.insert(
        "shown".to_string(),
        Property::data(Value::Rational(f64::NAN.to_bits()), true, true, true),
    );
    let id = heap.allocate(object);
    let tree = Value::Object(id).to_json(&heap);
    match tree {
        Ok(j) => assert!(same_json(
            &j,
            &Json::Object(vec![("shown".to_string(), Json::Null)])
        )),
        Err(_) => panic!("no cycle and no BigInt"),
    }
}

fn same_json(a: &Json, b: &Json) -> bool {
    match (a, b) {
        (Json::Null, Json::Null) => true,
        (Json::Bool(x), Json::Bool(y)) => x == y,
        (Json::Integer(x), Json::Integer(y)) => x == y,
        (Json::Rational(x), Json::Rational(y)) => x == y,
        (Json::String(x), Json::String(y)) => x == y,
        (Json::Array(x), Json::Array(y)) => {
            x.len() == y.len() && x.iter().zip(y.iter()).all(|(p, q)| same_json(p, q))
        }
        (Json::Object(x), Json::Object(y)) => {
            x.len() == y.len()
                && x.iter()
                    .zip(y.iter())
                    .all(|(p, q)| p.0 == q.0 && same_json(&p.1, &q.1))
        }
        _ => false,
    }
}

#[test]
fn json_stringify_indents_by_space() {
    assert_eq!(
        exec("JSON.stringify({a: [1, 2], b: {}, c: []}, null, 2)"),
        "{\n  \"a\": [\n    1,\n    2\n  ],\n  \"b\": {},\n  \"c\": []\n}"
    );
    assert_eq!(
        exec("JSON.stringify({a: 1}, ['a'], '--')"),
        "{\n--\"a\": 1\n}"
    );
    assert_eq!(
        exec("JSON.stringify([1], null, 'abcdefghijklmnop')"),
        "[\nabcdefghij1\n]"
    );
    assert_eq!(
        exec("JSON.stringify([1], null, 99)"),
        "[\n          1\n]"
    );
    assert_eq!(exec("JSON.stringify([1], null, JSON.parse('1.5'))"), "[\n 1\n]");
    assert_eq!(exec("JSON.stringify([1], null, 0)"), "[1]");
    assert_eq!(exec("JSON.stringify([1], null, '')"), "[1]");
    assert_eq!(exec("JSON.stringify([1], null, true)"), "[1]");
    assert_eq!(exec("JSON.stringify([1], null, null)"), "[1]");
}

#[test]
fn gap_text_is_at_most_ten_characters() {
    assert_eq!(json::gap_text(&Value::Integer(3)), "   ");
    assert_eq!(json::gap_text(&Value::Integer(-3)), "");
    assert_eq!(json::gap_text(&Value::Integer(11)), "          ");
    assert_eq!(json::gap_text(&Value::Rational(2.9f64.to_bits())), "  ");
    assert_eq!(json::gap_text(&Value::Rational(1e100f64.to_bits())), "          ");
    assert_eq!(json::gap_text(&Value::Rational(f64::NAN.to_bits())), "");
    assert_eq!(json::gap_text(&Value::String("éé".to_string())), "éé");
    assert_eq!(json::gap_text(&Value::String("0123456789ab".to_string())), "0123456789");
    assert_eq!(json::gap_text(&Value::Null), "");
    assert_eq!(json::blanks(2), "  ");
}
