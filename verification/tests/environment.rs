use boa::builtins::object::Heap;
use boa::builtins::value::Value;
use boa::environment::lexical_environment::{Environment, EnvironmentType, LexicalEnvironment};
use boa::environment::declarative_environment_record::DeclarativeEnvironmentRecord;
use boa::environment::function_environment_record::FunctionEnvironmentRecord;
use boa::environment::object_environment_record::ObjectEnvironmentRecord;
use boa::realm::Realm;

fn record(heap: &mut Heap) -> ObjectEnvironmentRecord {
    let bindings = Value::new_object(heap, None);
    ObjectEnvironmentRecord::new(bindings, false)
}

#[test]
fn binding_is_absent_until_created() {
    let mut heap = Heap::new();
    let env = record(&mut heap);
    assert!(!env.has_binding(&heap, "x"));
    env.create_mutable_binding(&mut heap, "y".to_string(), true);
    assert!(!env.has_binding(&heap, "x"));
    env.create_mutable_binding(&mut heap, "x".to_string(), false);
    assert!(env.has_binding(&heap, "x"));
    assert!(env.has_binding(&heap, "y"));
    assert!(env.get_binding_value(&heap, "x", false).is_undefined());
}

#[test]
fn created_binding_has_the_documented_attributes() {
    let mut heap = Heap::new();
    let env = record(&mut heap);
    env.create_mutable_binding(&mut heap, "x".to_string(), true);
    let property = env.bindings.get_property(&heap, "x").unwrap();
    assert!(property.is_writable());
    assert!(property.enumerable);
    assert!(property.configurable);
    env.create_mutable_binding(&mut heap, "z".to_string(), false);
    assert!(!env.bindings.get_property(&heap, "z").unwrap().configurable);
}

#[test]
fn create_mutable_binding_is_idempotent() {
    let mut heap = Heap::new();
    let env = record(&mut heap);
    env.create_mutable_binding(&mut heap, "x".to_string(), true);
    env.create_mutable_binding(&mut heap, "x".to_string(), true);
    assert_eq!(heap.objects[0].properties.len(), 1);
    assert!(env.get_binding_value(&heap, "x", true).is_undefined());
}

#[test]
fn delete_binding_unbinds() {
    let mut heap = Heap::new();
    let env = record(&mut heap);
    env.create_mutable_binding(&mut heap, "x".to_string(), true);
    env.create_mutable_binding(&mut heap, "y".to_string(), true);
    assert!(env.delete_binding(&mut heap, "x"));
    assert!(!env.has_binding(&heap, "x"));
    assert!(env.has_binding(&heap, "y"));
    assert!(env.delete_binding(&mut heap, "never"));
}

#[test]
fn initialize_and_set_mutable_binding() {
    let mut heap = Heap::new();
    let env = record(&mut heap);
    let first = Value::new_object(&mut heap, None);
    let second = Value::new_object(&mut heap, None);
    env.create_mutable_binding(&mut heap, "x".to_string(), true);
    env.initialize_binding(&mut heap, "x", first.clone());
    assert!(env.get_binding_value(&heap, "x", false).strict_equals(&first));
    assert!(env
        .set_mutable_binding(&mut heap, "x", second.clone(), true)
        .is_ok());
    assert!(env.get_binding_value(&heap, "x", false).strict_equals(&second));
}

#[test]
fn set_mutable_binding_honours_strict() {
    let mut heap = Heap::new();
    let env = record(&mut heap);
    let object = Value::new_object(&mut heap, None);
    assert!(env
        .set_mutable_binding(&mut heap, "missing", object.clone(), false)
        .is_ok());
    assert!(!env.has_binding(&heap, "missing"));
    match env.set_mutable_binding(&mut heap, "missing", object.clone(), true) {
        Err(Value::String(message)) => {
            assert_eq!(message, "ReferenceError: assignment to an undeclared binding")
        }
        _ => panic!("a strict assignment to an unbound name fails"),
    }
    env.bindings.set_property(
        &mut heap,
        "fixed".to_string(),
        boa::builtins::property::Property::data(Value::Integer(1), false, true, true),
    );
    assert!(env
        .set_mutable_binding(&mut heap, "fixed", object.clone(), false)
        .is_ok());
    assert_eq!(env.get_binding_value(&heap, "fixed", false).to_integer(), 1);
    match env.set_mutable_binding(&mut heap, "fixed", object, true) {
        Err(Value::String(message)) => {
            assert_eq!(message, "TypeError: assignment to a binding that is not writable")
        }
        _ => panic!("a strict assignment to a read-only binding fails"),
    }
}

#[test]
fn object_record_answers_about_itself() {
    let mut heap = Heap::new();
    let mut env = record(&mut heap);
    assert!(env.create_immutable_binding("x".to_string(), true));
    assert!(!env.has_binding(&heap, "x"));
    assert!(!env.has_this_binding());
    assert!(!env.has_super_binding());
    assert!(env.with_base_object().is_undefined());
    assert!(env.get_environment_type() == EnvironmentType::Function);
    assert!(env.get_outer_environment().is_none());
    env.set_outer_environment(0);
    assert_eq!(env.get_outer_environment(), Some(0));

    let with = ObjectEnvironmentRecord::new(env.bindings.clone(), true);
    assert!(with.with_base_object().strict_equals(&env.bindings));
}

#[test]
fn global_object_is_found_through_the_chain() {
    let mut heap = Heap::new();
    let global = Value::new_object(&mut heap, None);
    let inner_object = Value::new_object(&mut heap, None);
    let mut chain = LexicalEnvironment::new();

    let lonely = ObjectEnvironmentRecord::new(inner_object.clone(), false);
    assert!(lonely.get_global_object(&chain).is_none());

    let global_id = chain.push(Environment::Global(ObjectEnvironmentRecord::new(
        global.clone(),
        false,
    )));
    let mut middle = ObjectEnvironmentRecord::new(inner_object.clone(), false);
    middle.set_outer_environment(global_id);
    let middle_id = chain.push(Environment::Object(middle));
    let mut leaf = ObjectEnvironmentRecord::new(inner_object.clone(), true);
    leaf.set_outer_environment(middle_id);

    let found = leaf.get_global_object(&chain).unwrap();
    assert!(found.strict_equals(&global));
    assert!(chain.get_global_object(middle_id).unwrap().strict_equals(&global));

    let mut detached = LexicalEnvironment::new();
    let id = detached.push(Environment::Object(ObjectEnvironmentRecord::new(
        inner_object,
        false,
    )));
    let mut orphan = ObjectEnvironmentRecord::new(global, false);
    orphan.set_outer_environment(id);
    assert!(orphan.get_global_object(&detached).is_none());
}

#[test]
fn realm_starts_with_the_global_bindings() {
    let realm = Realm::create();
    assert!(realm.global_obj.has_field(&realm.heap, "JSON"));
    assert!(realm.global_obj.has_field(&realm.heap, "Symbol"));
    assert!(realm.global_obj.has_field(&realm.heap, "undefined"));
    let json = realm.global_obj.get_field(&realm.heap, "JSON");
    assert!(json.is_object());
    assert!(json.get_field(&realm.heap, "parse").is_function());
    assert!(json.get_field(&realm.heap, "stringify").is_function());
    assert_eq!(
        json.get_field(&realm.heap, "stringify")
            .get_field(&realm.heap, "length")
            .to_integer(),
        3
    );
    assert_eq!(realm.environment.len(), 1);
    assert!(realm
        .environment
        .get_global_object(realm.global_env)
        .unwrap()
        .strict_equals(&realm.global_obj));
}

#[test]
fn capture_cycle_holds_no_owning_links() {
    let mut realm = Realm::create();
    let scope_object = Value::new_object(&mut realm.heap, None);
    let mut scope_record = ObjectEnvironmentRecord::new(scope_object.clone(), false);
    scope_record.set_outer_environment(realm.global_env);
    let scope = realm.environment.push(Environment::Object(scope_record));

    let mut closure = boa::builtins::object::Object::new(boa::builtins::object::ObjectKind::Function);
    closure.call = Some(boa::builtins::object::Callable::Closure(scope, 0));
    let closure = Value::Function(realm.heap.allocate(closure));
    let holder = Value::new_object(&mut realm.heap, None);
    holder.set_field(&mut realm.heap, "callback".to_string(), closure);
    scope_object.set_field(&mut realm.heap, "holder".to_string(), holder);

    let reached = scope_object
        .get_field(&realm.heap, "holder")
        .get_field(&realm.heap, "callback");
    let id = realm.heap.target(&reached).unwrap();
    assert!(
        realm.heap.objects[id].call == Some(boa::builtins::object::Callable::Closure(scope, 0))
    );
    assert_eq!(realm.environment.get(scope).get_outer_environment(), Some(0));
    let objects = realm.heap.len();
    let records = realm.environment.len();
    drop(realm);
    assert_eq!((objects, records), (8, 2));
}

#[test]
fn declarative_binding_is_absent_until_created() {
    let mut env = DeclarativeEnvironmentRecord::new();
    assert!(!env.has_binding("x"));
    env.create_mutable_binding("y".to_string(), true);
    assert!(!env.has_binding("x"));
    env.create_mutable_binding("x".to_string(), false);
    assert!(env.has_binding("x"));
    assert!(env.get_binding_value("x", false).is_undefined());
    assert!(env.bindings[1].1.mutable);
    assert!(!env.bindings[1].1.initialized);
    assert!(!env.bindings[1].1.deletable);
    env.create_mutable_binding("x".to_string(), false);
    assert_eq!(env.bindings.len(), 2);
    assert_eq!(env.position(&"x".to_string()), Some(1));
}

#[test]
fn declarative_bindings_are_initialized_and_assigned() {
    let mut env = DeclarativeEnvironmentRecord::new();
    env.create_mutable_binding("x".to_string(), true);
    env.initialize_binding("x", Value::Integer(1));
    assert_eq!(env.get_binding_value("x", true).to_integer(), 1);
    assert!(env.bindings[0].1.initialized);
    assert!(env.set_mutable_binding("x", Value::Integer(2), true).is_ok());
    assert_eq!(env.get_binding_value("x", true).to_integer(), 2);

    assert!(env.create_immutable_binding("c".to_string(), true));
    env.initialize_binding("c", Value::Integer(7));
    assert!(env.set_mutable_binding("c", Value::Integer(8), false).is_ok());
    assert_eq!(env.get_binding_value("c", false).to_integer(), 7);
    match env.set_mutable_binding("c", Value::Integer(8), true) {
        Err(Value::String(message)) => {
            assert_eq!(message, "TypeError: assignment to a binding that is not writable")
        }
        _ => panic!("a strict assignment to an immutable binding fails"),
    }
    assert!(env.set_mutable_binding("missing", Value::Null, false).is_ok());
    assert!(!env.has_binding("missing"));
    match env.set_mutable_binding("missing", Value::Null, true) {
        Err(Value::String(message)) => {
            assert_eq!(message, "ReferenceError: assignment to an undeclared binding")
        }
        _ => panic!("a strict assignment to an unbound name fails"),
    }
    assert!(env.get_binding_value("missing", true).is_undefined());
}

#[test]
fn declarative_delete_binding_unbinds() {
    let mut env = DeclarativeEnvironmentRecord::new();
    env.create_mutable_binding("x".to_string(), true);
    env.create_mutable_binding("y".to_string(), false);
    assert!(env.delete_binding("x"));
    assert!(!env.has_binding("x"));
    assert!(env.has_binding("y"));
    assert!(env.delete_binding("y"));
    assert!(!env.has_binding("y"));
    assert!(env.delete_binding("never"));
}

#[test]
fn declarative_record_answers_about_itself() {
    let mut env = DeclarativeEnvironmentRecord::new();
    assert!(!env.has_this_binding());
    assert!(!env.has_super_binding());
    assert!(env.with_base_object().is_undefined());
    assert!(env.get_environment_type() == EnvironmentType::Declarative);
    assert!(env.get_outer_environment().is_none());

    let realm = Realm::create();
    assert!(env.get_global_object(&realm.environment).is_none());
    env.set_outer_environment(realm.global_env);
    assert_eq!(env.get_outer_environment(), Some(0));
    assert!(env
        .get_global_object(&realm.environment)
        .unwrap()
        .strict_equals(&realm.global_obj));
}

#[test]
fn function_record_binds_this_once() {
    let mut env = FunctionEnvironmentRecord::new();
    assert!(!env.has_this_binding());
    assert!(!env.has_super_binding());
    assert!(env.get_this_binding().is_undefined());
    assert!(env.bind_this_value(Value::Integer(4)).is_ok());
    assert!(env.has_this_binding());
    assert!(!env.has_super_binding());
    assert_eq!(env.get_this_binding().to_integer(), 4);
    match env.bind_this_value(Value::Integer(5)) {
        Err(Value::String(message)) => {
            assert_eq!(message, "ReferenceError: this is already bound")
        }
        _ => panic!("this is bound once"),
    }
    assert_eq!(env.get_this_binding().to_integer(), 4);
    env.home_object = Some(Value::Object(0));
    assert!(env.has_super_binding());
    assert!(env.get_environment_type() == EnvironmentType::Function);
}

#[test]
fn names_resolve_through_declarative_scopes() {
    let mut realm = Realm::create();
    let mut inner = DeclarativeEnvironmentRecord::new();
    inner.set_outer_environment(realm.global_env);
    inner.create_mutable_binding("local".to_string(), true);
    inner.initialize_binding("local", Value::Integer(3));
    inner.create_mutable_binding("JSON".to_string(), true);
    let inner = realm.environment.push(Environment::Declarative(inner));
    let mut function = FunctionEnvironmentRecord::new();
    function.declarative.set_outer_environment(inner);
    function.declarative.create_mutable_binding("argument".to_string(), false);
    function.declarative.initialize_binding("argument", Value::Boolean(true));
    let function = realm.environment.push(Environment::Function(function));

    let mut engine = boa::exec::Interpreter::new(realm);
    let mut read = |src: &str| match engine.run(&boa::parser_expr(src).unwrap(), function, 4) {
        Ok(v) => v.to_string(),
        Err(e) => format!("Error: {}", e.to_string()),
    };
    assert_eq!(read("local"), "3");
    assert_eq!(read("argument"), "true");
    assert_eq!(read("JSON"), "undefined");
    assert_eq!(read("Symbol == Symbol"), "true");
    assert_eq!(read("nowhere"), "Error: ReferenceError: nowhere is not defined");
    assert_eq!(boa::forward(&mut engine, "JSON == undefined"), "false");
    assert!(engine
        .realm
        .environment
        .get_global_object(function)
        .unwrap()
        .strict_equals(&engine.realm.global_obj));
}
