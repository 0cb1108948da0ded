//! The realm: the heap, the global object and the global scope that a
//! program starts with.

use vstd::prelude::*;
use crate::builtins::function::{builtin_installed, make_builtin_fn};
use crate::builtins::json;
use crate::builtins::object::{
    object_of, set_field, Heap, HeapView, NativeFunction, Object, ObjectKind, ObjectView,
};
use crate::builtins::value::{Value, ValueView};
use crate::environment::lexical_environment::{
    Environment, EnvironmentId, EnvironmentType, EnvironmentView, LexicalEnvironment, Store,
};
use crate::environment::object_environment_record::ObjectEnvironmentRecord;
use crate::syntax::ast::{texts, Node, NodeView};

verus! {

/// The definition of a function of the script.
pub struct FunctionDefinition {
    /// The names of the parameters.
    pub parameters: Vec<String>,
    /// The body: an expression, or a block of statements.
    pub body: Node,
}

/// Mathematical model of a [`FunctionDefinition`].
pub struct FunctionView {
    pub parameters: Seq<Seq<char>>,
    pub body: NodeView,
}

impl View for FunctionDefinition {
    type V = FunctionView;

    open spec fn view(&self) -> FunctionView {
        FunctionView { parameters: texts(self.parameters@), body: self.body@ }
    }
}

/// The models of `functions`, in order.
pub open spec fn functions_view(functions: Seq<FunctionDefinition>) -> Seq<FunctionView> {
    Seq::new(functions.len(), |i: int| functions[i]@)
}

/// The state that a program starts with and changes.
pub struct Realm {
    /// The objects.
    pub heap: Heap,
    /// The global object.
    pub global_obj: Value,
    /// The environment records.
    pub environment: LexicalEnvironment,
    /// The record of the global scope.
    pub global_env: EnvironmentId,
    /// The definitions of the functions that programs have made.
    pub functions: Vec<FunctionDefinition>,
}

/// The heap of a new realm: the global object at index 0 with the fields
/// `JSON`, `Symbol` and `undefined`.
pub open spec fn global_heap() -> HeapView {
    let global = ValueView::Object(0);
    let h0 = Seq::<ObjectView>::empty().push(ObjectView::empty(ObjectKind::Ordinary));
    let h1 = json::initialised(h0, global);
    let h2 = builtin_installed(h1, global, NativeFunction::Symbol, "Symbol"@, 1);
    set_field(h2, global, "undefined"@, ValueView::Undefined)
}

impl Realm {
    /// Validity: the heap and the chain of records are valid, and the global
    /// scope is a global record whose binding object is the global object.
    pub open spec fn wf(&self) -> bool {
        &&& self.heap.wf()
        &&& self.environment.wf()
        &&& object_of(self.heap@, self.global_obj@) is Some
        &&& self.global_env < self.environment@.len()
        &&& self.environment@[self.global_env as int].kind == EnvironmentType::Global
        &&& self.environment@[self.global_env as int].store == Store::Object(self.global_obj@)
    }

    /// A new realm.
    pub fn create() -> (r: Realm)
        ensures
            r.wf(),
            r.heap@ == global_heap(),
            r.global_obj@ == ValueView::Object(0),
            r.global_env == 0,
            r.functions@.len() == 0,
            r.environment@ == seq![
                EnvironmentView {
                    kind: EnvironmentType::Global,
                    store: Store::Object(ValueView::Object(0)),
                    outer: None,
                },
            ],
    {
        let mut heap = Heap::new();
        let id = heap.allocate(Object::new(ObjectKind::Ordinary));
        let global = Value::Object(id);
        json::init(&global, &mut heap);
        make_builtin_fn(NativeFunction::Symbol, "Symbol", &global, 1, &mut heap);
        global.set_field(&mut heap, "undefined".to_owned(), Value::Undefined);
        let mut environment = LexicalEnvironment::new();
        let record = ObjectEnvironmentRecord::new(global.clone(), false);
        let global_env = environment.push(Environment::Global(record));
        assert(environment@ =~= seq![
            EnvironmentView {
                kind: EnvironmentType::Global,
                store: Store::Object(ValueView::Object(0)),
                outer: None,
            },
        ]);
        Realm { heap, global_obj: global, environment, global_env, functions: Vec::new() }
    }
}

} // verus!
