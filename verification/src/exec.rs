//! The interpreter: running a syntax tree against a realm.
//!
//! Names are resolved through the chain of environment records, from the
//! current scope outward. A call of a function of the script runs its body in
//! a new function environment record that binds the parameters and is nested
//! in the scope that the function was made in. Calls nest no deeper than the
//! fuel that a run is given.

use vstd::prelude::*;
use crate::builtins::json;
use crate::builtins::json::outside::parsed;
use crate::builtins::json::tree::{array_object, MAX_ARRAY_LENGTH};
use crate::builtins::object::{
    get_field, index_of, set_field, Callable, HeapView, NativeFunction, Object, ObjectKind,
    ObjectView,
};
use crate::builtins::property::{Property, PropertyView};
use crate::builtins::value::{
    display, fresh_object, loose_equals, strict_equals, values_view, ResultValue, Value, ValueView,
};
use crate::environment::declarative_environment_record::{
    installed, mutable_placeholder, BindingView, BindingsView,
};
use crate::environment::function_environment_record::FunctionEnvironmentRecord;
use crate::environment::lexical_environment::{
    binding_value, binds, Environment, EnvironmentId, EnvironmentType, EnvironmentView, Store,
};
use crate::realm::{functions_view, FunctionDefinition, FunctionView, Realm};
use crate::syntax::ast::{
    clone_names, lemma_member_models_index, lemma_node_models_index, lemma_texts_index,
    member_models, node_models, CompareOp, Node, NodeView,
};

verus! {

broadcast use vstd::std_specs::vec::axiom_vec_index_decreases;

/// An interpreter and the realm it runs programs in.
pub struct Interpreter {
    pub realm: Realm,
}

/// Mathematical model of what a program changes: the objects, the
/// environment records and the definitions of functions.
pub struct StateView {
    pub heap: HeapView,
    pub chain: Seq<EnvironmentView>,
    pub functions: Seq<FunctionView>,
}

/// What evaluation reads and does not change: the record of the current
/// scope, and the global object.
pub struct Scope {
    pub current: EnvironmentId,
    pub global: ValueView,
}

/// The state after an evaluation, and its value or the error it raised.
pub type Outcome = (StateView, Result<ValueView, ValueView>);

/// The depth to which `forward` lets calls nest.
pub const CALL_DEPTH: u64 = 128;

/// The value that `name` is bound to in the scope `id` or in the nearest
/// scope around it that binds the name.
pub open spec fn resolve(h: HeapView, chain: Seq<EnvironmentView>, id: EnvironmentId, name: Seq<char>) -> Option<
    ValueView,
>
    decreases id,
{
    if id >= chain.len() {
        None
    } else if binds(h, chain[id as int], name) {
        Some(binding_value(h, chain[id as int], name))
    } else {
        match chain[id as int].outer {
            Some(outer) => if outer < id {
                resolve(h, chain, outer, name)
            } else {
                None
            },
            None => None,
        }
    }
}

/// The error for a name that no scope binds.
pub open spec fn not_defined(name: Seq<char>) -> ValueView {
    ValueView::String("ReferenceError: "@ + name + " is not defined"@)
}

/// The error for a call of a value that is not a function.
pub open spec fn not_a_function() -> ValueView {
    ValueView::String("TypeError: not a function"@)
}

/// The error for a call that nests deeper than the fuel allows.
pub open spec fn too_much_recursion() -> ValueView {
    ValueView::String("RangeError: too much recursion"@)
}

/// The error for a replacer that `JSON.stringify` does not take.
pub open spec fn replacer_error() -> ValueView {
    ValueView::String("replacer only supports arrays at this time"@)
}

/// The error for an array literal with more elements than an array can
/// hold.
pub open spec fn array_too_long() -> ValueView {
    ValueView::String("RangeError: array is too long"@)
}

/// The function object of an arrow function with `n` parameters that was
/// made in the scope `environment` and is defined by entry `function` of the
/// table of functions.
pub open spec fn closure_object(n: nat, environment: EnvironmentId, function: usize) -> ObjectView {
    ObjectView {
        kind: ObjectKind::Function,
        properties: seq![
            (
                "length"@,
                PropertyView::data(
                    ValueView::Integer(
                        if n <= i32::MAX {
                            n as i32
                        } else {
                            i32::MAX
                        },
                    ),
                    false,
                    false,
                    true,
                ),
            ),
        ],
        prototype: None,
        call: Some(Callable::Closure(environment, function)),
    }
}

/// What a comparison gives.
pub open spec fn compare(op: CompareOp, a: ValueView, b: ValueView) -> bool {
    match op {
        CompareOp::Equal => loose_equals(a, b),
        CompareOp::NotEqual => !loose_equals(a, b),
        CompareOp::StrictEqual => strict_equals(a, b),
        CompareOp::StrictNotEqual => !strict_equals(a, b),
    }
}

/// The arguments of a call of a function that reads its first argument: a
/// call without arguments passes `undefined`.
pub open spec fn padded(args: Seq<ValueView>) -> Seq<ValueView> {
    if args.len() == 0 {
        seq![ValueView::Undefined]
    } else {
        args
    }
}

/// A result whose error is a message, as a result whose error is a string
/// value.
pub open spec fn raised(r: Result<ValueView, Seq<char>>) -> Result<ValueView, ValueView> {
    match r {
        Ok(v) => Ok(v),
        Err(message) => Err(ValueView::String(message)),
    }
}

/// What a call of a function of the runtime does to the heap, and what it
/// gives.
pub open spec fn call_native(h: HeapView, f: NativeFunction, args: Seq<ValueView>) -> (
    HeapView,
    Result<ValueView, ValueView>,
) {
    match f {
        NativeFunction::JsonParse => {
            let outcome = json::parse_outcome(h, parsed(display(padded(args)[0])));
            (outcome.0, raised(outcome.1))
        },
        NativeFunction::JsonStringify => if json::replacer_supported(h, padded(args)) {
            (
                h,
                match json::stringify_text(h, padded(args)) {
                    Ok(text) => Ok(ValueView::String(text)),
                    Err(message) => Err(ValueView::String(message)),
                },
            )
        } else {
            (h, Err(replacer_error()))
        },
        NativeFunction::Symbol => (
            h.push(ObjectView::empty(ObjectKind::Symbol)),
            Ok(ValueView::Symbol(h.len() as usize)),
        ),
    }
}

/// What a call of `callee` does where `callee` is not a function of the
/// script: a function of the runtime is run, anything else is an error.
pub open spec fn call(h: HeapView, callee: ValueView, args: Seq<ValueView>) -> (
    HeapView,
    Result<ValueView, ValueView>,
) {
    match callee {
        ValueView::Function(id) => if id < h.len() {
            match h[id as int].call {
                Some(Callable::Native(f)) => call_native(h, f, args),
                _ => (h, Err(not_a_function())),
            }
        } else {
            (h, Err(not_a_function()))
        },
        _ => (h, Err(not_a_function())),
    }
}

/// The scope and the definition of the function of the script that `f`
/// refers to, if it refers to one.
pub open spec fn closure_of(s: StateView, f: ValueView) -> Option<(EnvironmentId, usize)> {
    match f {
        ValueView::Function(id) => if id < s.heap.len() {
            match s.heap[id as int].call {
                Some(Callable::Closure(environment, function)) => if environment < s.chain.len()
                    && function < s.functions.len() {
                    Some((environment, function))
                } else {
                    None
                },
                _ => None,
            }
        } else {
            None
        },
        _ => None,
    }
}

/// The argument with index `i`; `undefined` where the call passed fewer.
pub open spec fn argument(values: Seq<ValueView>, i: int) -> ValueView {
    if 0 <= i < values.len() {
        values[i]
    } else {
        ValueView::Undefined
    }
}

/// The bindings of a call: each parameter is bound, in order, by creating a
/// mutable binding that cannot be deleted and initializing it with the
/// argument of the same index.
pub open spec fn bound(parameters: Seq<Seq<char>>, values: Seq<ValueView>) -> BindingsView
    decreases parameters.len(),
{
    if parameters.len() == 0 {
        Seq::empty()
    } else {
        let name = parameters.last();
        let created = installed(
            bound(parameters.drop_last(), values),
            name,
            mutable_placeholder(false),
        );
        installed(
            created,
            name,
            BindingView {
                value: argument(values, parameters.len() - 1),
                initialized: true,
                ..created[index_of(created, name)].1
            },
        )
    }
}

/// The record of a call of a function that was made in the scope
/// `environment`.
pub open spec fn call_record(
    environment: EnvironmentId,
    parameters: Seq<Seq<char>>,
    values: Seq<ValueView>,
) -> EnvironmentView {
    EnvironmentView {
        kind: EnvironmentType::Function,
        store: Store::Local(bound(parameters, values)),
        outer: Some(environment),
    }
}

/// What evaluating `node` in the scope `scope` does to the state `s`, and
/// the value it gives or the error it raises. Calls nest no deeper than
/// `fuel`.
pub open spec fn evaluate(s: StateView, scope: Scope, node: NodeView, fuel: nat) -> Outcome
    decreases fuel, node, 0nat,
{
    match node {
        NodeView::Null => (s, Ok(ValueView::Null)),
        NodeView::Bool(b) => (s, Ok(ValueView::Boolean(b))),
        NodeView::Number(i) => (s, Ok(ValueView::Integer(i))),
        NodeView::Text(t) => (s, Ok(ValueView::String(t))),
        NodeView::Local(name) => match resolve(s.heap, s.chain, scope.current, name) {
            Some(v) => (s, Ok(v)),
            None => (s, Err(not_defined(name))),
        },
        NodeView::Object(members) => evaluate_members(
            StateView { heap: s.heap.push(fresh_object(s.heap, Some(scope.global))), ..s },
            scope,
            ValueView::Object(s.heap.len() as usize),
            members,
            fuel,
        ),
        NodeView::Array(items) => match evaluate_list(s, scope, items, fuel) {
            (s1, Err(e)) => (s1, Err(e)),
            (s1, Ok(values)) => if values.len() > MAX_ARRAY_LENGTH {
                (s1, Err(array_too_long()))
            } else {
                (
                    StateView { heap: s1.heap.push(array_object(values)), ..s1 },
                    Ok(ValueView::Object(s1.heap.len() as usize)),
                )
            },
        },
        NodeView::Arrow(parameters, body) => (
            StateView {
                heap: s.heap.push(
                    closure_object(parameters.len(), scope.current, s.functions.len() as usize),
                ),
                functions: s.functions.push(FunctionView { parameters, body: *body }),
                ..s
            },
            Ok(ValueView::Function(s.heap.len() as usize)),
        ),
        NodeView::Field(object, name) => match evaluate(s, scope, *object, fuel) {
            (s1, Err(e)) => (s1, Err(e)),
            (s1, Ok(v)) => (s1, Ok(get_field(s1.heap, v, name))),
        },
        NodeView::Index(object, key) => match evaluate(s, scope, *object, fuel) {
            (s1, Err(e)) => (s1, Err(e)),
            (s1, Ok(v)) => match evaluate(s1, scope, *key, fuel) {
                (s2, Err(e)) => (s2, Err(e)),
                (s2, Ok(k)) => (s2, Ok(get_field(s2.heap, v, display(k)))),
            },
        },
        NodeView::Call(callee, arguments) => match evaluate(s, scope, *callee, fuel) {
            (s1, Err(e)) => (s1, Err(e)),
            (s1, Ok(f)) => match evaluate_list(s1, scope, arguments, fuel) {
                (s2, Err(e)) => (s2, Err(e)),
                (s2, Ok(values)) => match closure_of(s2, f) {
                    None => (
                        StateView { heap: call(s2.heap, f, values).0, ..s2 },
                        call(s2.heap, f, values).1,
                    ),
                    Some((environment, function)) => if fuel == 0 {
                        (s2, Err(too_much_recursion()))
                    } else {
                        let definition = s2.functions[function as int];
                        let entered = StateView {
                            chain: s2.chain.push(
                                call_record(environment, definition.parameters, values),
                            ),
                            ..s2
                        };
                        let inner = Scope { current: s2.chain.len() as usize, global: scope.global };
                        match evaluate(entered, inner, definition.body, (fuel - 1) as nat) {
                            (s3, Err(e)) => (s3, Err(e)),
                            (s3, Ok(v)) => (
                                s3,
                                Ok(
                                    if definition.body is Block {
                                        ValueView::Undefined
                                    } else {
                                        v
                                    },
                                ),
                            ),
                        }
                    },
                },
            },
        },
        NodeView::Compare(op, left, right) => match evaluate(s, scope, *left, fuel) {
            (s1, Err(e)) => (s1, Err(e)),
            (s1, Ok(a)) => match evaluate(s1, scope, *right, fuel) {
                (s2, Err(e)) => (s2, Err(e)),
                (s2, Ok(b)) => (s2, Ok(ValueView::Boolean(compare(op, a, b)))),
            },
        },
        NodeView::Block(statements) => evaluate_statements(s, scope, statements, fuel),
    }
}

/// What evaluating `nodes` one after the other does, and their values.
pub open spec fn evaluate_list(s: StateView, scope: Scope, nodes: Seq<NodeView>, fuel: nat) -> (
    StateView,
    Result<Seq<ValueView>, ValueView>,
)
    decreases fuel, nodes, 1nat,
{
    if nodes.len() == 0 {
        (s, Ok(Seq::empty()))
    } else {
        match evaluate_list(s, scope, nodes.drop_last(), fuel) {
            (s1, Err(e)) => (s1, Err(e)),
            (s1, Ok(front)) => match evaluate(s1, scope, nodes.last(), fuel) {
                (s2, Err(e)) => (s2, Err(e)),
                (s2, Ok(v)) => (s2, Ok(front.push(v))),
            },
        }
    }
}

/// What evaluating statements one after the other does. The value is that of
/// the last statement, `undefined` where there is none.
pub open spec fn evaluate_statements(s: StateView, scope: Scope, nodes: Seq<NodeView>, fuel: nat) -> Outcome
    decreases fuel, nodes, 1nat,
{
    if nodes.len() == 0 {
        (s, Ok(ValueView::Undefined))
    } else {
        match evaluate_statements(s, scope, nodes.drop_last(), fuel) {
            (s1, Err(e)) => (s1, Err(e)),
            (s1, Ok(_)) => evaluate(s1, scope, nodes.last(), fuel),
        }
    }
}

/// What evaluating the members of an object literal does: each value is
/// evaluated and assigned to its field of `object` before the next. The
/// value is `object`.
pub open spec fn evaluate_members(
    s: StateView,
    scope: Scope,
    object: ValueView,
    members: Seq<(Seq<char>, NodeView)>,
    fuel: nat,
) -> Outcome
    decreases fuel, members, 1nat,
{
    if members.len() == 0 {
        (s, Ok(object))
    } else {
        match evaluate_members(s, scope, object, members.drop_last(), fuel) {
            (s1, Err(e)) => (s1, Err(e)),
            (s1, Ok(_)) => match evaluate(s1, scope, members.last().1, fuel) {
                (s2, Err(e)) => (s2, Err(e)),
                (s2, Ok(v)) => (
                    StateView { heap: set_field(s2.heap, object, members.last().0, v), ..s2 },
                    Ok(object),
                ),
            },
        }
    }
}

/// An error among the first `k` nodes is the outcome of the whole list.
pub proof fn lemma_list_error(s: StateView, scope: Scope, nodes: Seq<NodeView>, fuel: nat, k: int)
    requires
        0 <= k <= nodes.len(),
        evaluate_list(s, scope, nodes.take(k), fuel).1 is Err,
    ensures
        evaluate_list(s, scope, nodes, fuel) == evaluate_list(s, scope, nodes.take(k), fuel),
    decreases nodes.len() - k,
{
    if k < nodes.len() {
        assert(nodes.take(k + 1).drop_last() =~= nodes.take(k));
        lemma_list_error(s, scope, nodes, fuel, k + 1);
    } else {
        assert(nodes.take(k) =~= nodes);
    }
}

/// An error among the first `k` statements is the outcome of them all.
pub proof fn lemma_statements_error(
    s: StateView,
    scope: Scope,
    nodes: Seq<NodeView>,
    fuel: nat,
    k: int,
)
    requires
        0 <= k <= nodes.len(),
        evaluate_statements(s, scope, nodes.take(k), fuel).1 is Err,
    ensures
        evaluate_statements(s, scope, nodes, fuel) == evaluate_statements(
            s,
            scope,
            nodes.take(k),
            fuel,
        ),
    decreases nodes.len() - k,
{
    if k < nodes.len() {
        assert(nodes.take(k + 1).drop_last() =~= nodes.take(k));
        lemma_statements_error(s, scope, nodes, fuel, k + 1);
    } else {
        assert(nodes.take(k) =~= nodes);
    }
}

/// An error among the first `k` members is the outcome of them all.
pub proof fn lemma_members_error(
    s: StateView,
    scope: Scope,
    object: ValueView,
    members: Seq<(Seq<char>, NodeView)>,
    fuel: nat,
    k: int,
)
    requires
        0 <= k <= members.len(),
        evaluate_members(s, scope, object, members.take(k), fuel).1 is Err,
    ensures
        evaluate_members(s, scope, object, members, fuel) == evaluate_members(
            s,
            scope,
            object,
            members.take(k),
            fuel,
        ),
    decreases members.len() - k,
{
    if k < members.len() {
        assert(members.take(k + 1).drop_last() =~= members.take(k));
        lemma_members_error(s, scope, object, members, fuel, k + 1);
    } else {
        assert(members.take(k) =~= members);
    }
}

/// The model of a result.
pub open spec fn result_view(r: ResultValue) -> Result<ValueView, ValueView> {
    match r {
        Ok(v) => Ok(v@),
        Err(e) => Err(e@),
    }
}

/// The model of the values of a list, or of the error that it raised.
pub open spec fn list_view(r: Result<Vec<Value>, Value>) -> Result<Seq<ValueView>, ValueView> {
    match r {
        Ok(values) => Ok(values_view(values@)),
        Err(e) => Err(e@),
    }
}

impl Interpreter {
    /// Validity: the realm is valid.
    pub open spec fn wf(&self) -> bool {
        self.realm.wf()
    }

    /// What a program changes of the interpreter.
    pub open spec fn state(&self) -> StateView {
        StateView {
            heap: self.realm.heap@,
            chain: self.realm.environment@,
            functions: functions_view(self.realm.functions@),
        }
    }

    /// The scope `current` of this interpreter.
    pub open spec fn scope(&self, current: EnvironmentId) -> Scope {
        Scope { current, global: self.realm.global_obj@ }
    }

    /// The global object and the global scope are those of `other`, and no
    /// environment record of `other` is missing.
    pub open spec fn kept(&self, other: &Interpreter) -> bool {
        &&& self.realm.global_obj == other.realm.global_obj
        &&& self.realm.global_env == other.realm.global_env
        &&& other.realm.environment@.len() <= self.realm.environment@.len()
    }

    /// An interpreter for the given realm.
    pub fn new(realm: Realm) -> (r: Self)
        ensures
            r.realm == realm,
    {
        Interpreter { realm }
    }

    /// The value that `name` is bound to in the scope `current` or around
    /// it, as [`resolve`] defines it.
    pub fn resolve(&self, name: &String, current: EnvironmentId) -> (r: Option<Value>)
        requires
            self.wf(),
            current < self.realm.environment@.len(),
        ensures
            match r {
                Some(v) => resolve(self.realm.heap@, self.realm.environment@, current, name@)
                    == Some(v@),
                None => resolve(self.realm.heap@, self.realm.environment@, current, name@) is None,
            },
    {
        let mut id = current;
        loop
            invariant
                self.wf(),
                id < self.realm.environment@.len(),
                resolve(self.realm.heap@, self.realm.environment@, id, name@) == resolve(
                    self.realm.heap@,
                    self.realm.environment@,
                    current,
                    name@,
                ),
            decreases id,
        {
            let record = self.realm.environment.get(id);
            if record.has_binding(&self.realm.heap, name.as_str()) {
                return Some(record.get_binding_value(&self.realm.heap, name.as_str(), false));
            }
            match record.get_outer_environment() {
                Some(outer) => {
                    assert(self.realm.environment@[id as int].outer == Some(outer));
                    id = outer;
                },
                None => {
                    return None;
                },
            }
        }
    }

    /// Calls a function of the runtime, as [`call_native`] defines it.
    pub fn call_native(&mut self, f: NativeFunction, this: &Value, args: Vec<Value>) -> (r:
        ResultValue)
        requires
            old(self).wf(),
        ensures
            final(self).wf(),
            final(self).kept(old(self)),
            final(self).realm.environment == old(self).realm.environment,
            final(self).realm.functions == old(self).realm.functions,
            (final(self).realm.heap@, result_view(r)) == call_native(
                old(self).realm.heap@,
                f,
                values_view(args@),
            ),
    {
        let ghost given = values_view(args@);
        let mut args = args;
        if args.len() == 0 {
            args.push(Value::Undefined);
            assert(values_view(args@) =~= seq![ValueView::Undefined]);
        }
        assert(values_view(args@) == padded(given));
        assert(values_view(args@)[0] == args@[0]@);
        match f {
            NativeFunction::JsonParse => json::parse(this, args.as_slice(), self),
            NativeFunction::JsonStringify => {
                if json::supports_replacer(&self.realm.heap, args.as_slice()) {
                    json::stringify(this, args.as_slice(), self)
                } else {
                    Err(Value::String("replacer only supports arrays at this time".to_owned()))
                }
            },
            NativeFunction::Symbol => {
                let id = self.realm.heap.allocate(Object::new(ObjectKind::Symbol));
                Ok(Value::Symbol(id))
            },
        }
    }

    /// Calls `callee`, which is not a function of the script, as [`call`]
    /// defines it.
    pub fn call(&mut self, callee: &Value, this: &Value, args: Vec<Value>) -> (r: ResultValue)
        requires
            old(self).wf(),
        ensures
            final(self).wf(),
            final(self).kept(old(self)),
            final(self).realm.environment == old(self).realm.environment,
            final(self).realm.functions == old(self).realm.functions,
            (final(self).realm.heap@, result_view(r)) == call(
                old(self).realm.heap@,
                callee@,
                values_view(args@),
            ),
    {
        match callee {
            Value::Function(id) => {
                if *id < self.realm.heap.len() {
                    match self.realm.heap.object(*id).call {
                        Some(Callable::Native(f)) => self.call_native(f, this, args),
                        _ => Err(Value::String("TypeError: not a function".to_owned())),
                    }
                } else {
                    Err(Value::String("TypeError: not a function".to_owned()))
                }
            },
            _ => Err(Value::String("TypeError: not a function".to_owned())),
        }
    }

    /// The scope and the definition of the function of the script that `f`
    /// refers to, as [`closure_of`] defines it.
    pub fn closure(&self, f: &Value) -> (r: Option<(EnvironmentId, usize)>)
        ensures
            r == closure_of(self.state(), f@),
    {
        match f {
            Value::Function(id) => {
                if *id < self.realm.heap.len() {
                    match self.realm.heap.object(*id).call {
                        Some(Callable::Closure(environment, function)) => {
                            if environment < self.realm.environment.len()
                                && function < self.realm.functions.len() {
                                Some((environment, function))
                            } else {
                                None
                            }
                        },
                        _ => None,
                    }
                } else {
                    None
                }
            },
            _ => None,
        }
    }

    /// Adds the record of a call of the function `function`, which was made
    /// in the scope `environment`, and returns its index.
    pub fn enter(&mut self, environment: EnvironmentId, function: usize, values: &Vec<Value>) -> (id:
        EnvironmentId)
        requires
            old(self).wf(),
            environment < old(self).realm.environment@.len(),
            function < old(self).realm.functions@.len(),
        ensures
            final(self).wf(),
            final(self).kept(old(self)),
            final(self).realm.heap == old(self).realm.heap,
            final(self).realm.functions == old(self).realm.functions,
            id == old(self).realm.environment@.len(),
            final(self).realm.environment@ == old(self).realm.environment@.push(
                call_record(
                    environment,
                    old(self).state().functions[function as int].parameters,
                    values_view(values@),
                ),
            ),
    {
        let mut record = FunctionEnvironmentRecord::new();
        let parameters = &self.realm.functions[function].parameters;
        let ghost names = crate::syntax::ast::texts(parameters@);
        let ghost arguments = values_view(values@);
        let mut i: usize = 0;
        proof {
            lemma_texts_index(parameters@);
            assert(names.take(0) =~= Seq::<Seq<char>>::empty());
            assert(record.declarative@ =~= bound(names.take(0), arguments));
        }
        while i < parameters.len()
            invariant
                i <= parameters@.len(),
                names == crate::syntax::ast::texts(parameters@),
                names.len() == parameters@.len(),
                forall|k: int| 0 <= k < parameters@.len() ==> (#[trigger] names[k]) == parameters@[k]@,
                arguments == values_view(values@),
                record.declarative.wf(),
                record.declarative.outer_env is None,
                record.declarative@ == bound(names.take(i as int), arguments),
            decreases parameters.len() - i,
        {
            proof {
                assert(names.take(i + 1).drop_last() =~= names.take(i as int));
                assert(names.take(i + 1).last() == parameters@[i as int]@);
            }
            let value = if i < values.len() {
                assert(arguments[i as int] == values@[i as int]@);
                values[i].clone()
            } else {
                Value::Undefined
            };
            record.declarative.create_mutable_binding(parameters[i].clone(), false);
            record.declarative.initialize_binding(parameters[i].as_str(), value);
            i += 1;
        }
        proof {
            assert(names.take(parameters@.len() as int) =~= names);
        }
        record.declarative.set_outer_environment(environment);
        self.realm.environment.push(Environment::Function(record))
    }

    /// Evaluates the nodes one after the other, as [`evaluate_list`] defines
    /// it.
    #[verifier::loop_isolation(false)]
    pub fn run_list(&mut self, nodes: &Vec<Node>, current: EnvironmentId, fuel: u64) -> (r: Result<
        Vec<Value>,
        Value,
    >)
        requires
            old(self).wf(),
            current < old(self).realm.environment@.len(),
        ensures
            final(self).wf(),
            final(self).kept(old(self)),
            (final(self).state(), list_view(r)) == evaluate_list(
                old(self).state(),
                old(self).scope(current),
                node_models(nodes@),
                fuel as nat,
            ),
        decreases fuel, nodes, 1nat,
    {
        let ghost s = self.state();
        let ghost scope = self.scope(current);
        let ghost models = node_models(nodes@);
        let mut values: Vec<Value> = Vec::new();
        let mut i: usize = 0;
        proof {
            lemma_node_models_index(nodes@);
            assert(models.take(0) =~= Seq::<NodeView>::empty());
            assert(values_view(values@) =~= Seq::<ValueView>::empty());
        }
        while i < nodes.len()
            invariant
                i <= nodes@.len(),
                self.wf(),
                self.kept(old(self)),
                evaluate_list(s, scope, models.take(i as int), fuel as nat) == (
                    self.state(),
                    Ok::<Seq<ValueView>, ValueView>(values_view(values@)),
                ),
            decreases nodes.len() - i,
        {
            proof {
                assert(models.take(i + 1).drop_last() =~= models.take(i as int));
                assert(models.take(i + 1).last() == nodes@[i as int]@);
            }
            match self.run(&nodes[i], current, fuel) {
                Ok(v) => {
                    let ghost before = values_view(values@);
                    values.push(v);
                    assert(values_view(values@) =~= before.push(v@));
                },
                Err(e) => {
                    proof {
                        lemma_list_error(s, scope, models, fuel as nat, i + 1);
                    }
                    return Err(e);
                },
            }
            i += 1;
        }
        proof {
            assert(models.take(nodes@.len() as int) =~= models);
        }
        Ok(values)
    }

    /// Evaluates a syntax tree in the scope `current`, as [`evaluate`]
    /// defines it.
    pub fn run(&mut self, node: &Node, current: EnvironmentId, fuel: u64) -> (r: ResultValue)
        requires
            old(self).wf(),
            current < old(self).realm.environment@.len(),
        ensures
            final(self).wf(),
            final(self).kept(old(self)),
            (final(self).state(), result_view(r)) == evaluate(
                old(self).state(),
                old(self).scope(current),
                node@,
                fuel as nat,
            ),
        decreases fuel, node, 0nat,
    {
        match node {
            Node::Null => Ok(Value::Null),
            Node::Bool(b) => Ok(Value::Boolean(*b)),
            Node::Number(i) => Ok(Value::Integer(*i)),
            Node::Text(s) => Ok(Value::String(s.clone())),
            Node::Local(name) => match self.resolve(name, current) {
                Some(v) => Ok(v),
                None => {
                    let mut message = "ReferenceError: ".to_owned();
                    message.append(name.as_str());
                    message.append(" is not defined");
                    Err(Value::String(message))
                },
            },
            Node::Object(members) => {
                let global = self.realm.global_obj.clone();
                let object = Value::new_object(&mut self.realm.heap, Some(&global));
                self.run_members(object, members, current, fuel)
            },
            Node::Array(items) => match self.run_list(items, current, fuel) {
                Err(e) => Err(e),
                Ok(values) => {
                    if values.len() > MAX_ARRAY_LENGTH {
                        Err(Value::String("RangeError: array is too long".to_owned()))
                    } else {
                        Ok(Value::array_from(&values, &mut self.realm.heap))
                    }
                },
            },
            Node::Arrow(parameters, body) => {
                proof {
                    lemma_texts_index(parameters@);
                }
                let n = parameters.len();
                let length: i32 = if n <= 0x7fff_ffff {
                    n as i32
                } else {
                    0x7fff_ffff
                };
                let function = self.realm.functions.len();
                let ghost before = functions_view(self.realm.functions@);
                let definition = FunctionDefinition {
                    parameters: clone_names(parameters),
                    body: (**body).clone(),
                };
                self.realm.functions.push(definition);
                assert(functions_view(self.realm.functions@) =~= before.push(definition@));
                let mut object = Object::new(ObjectKind::Function);
                object.call = Some(Callable::Closure(current, function));
                object.properties.push(
                    ("length".to_owned(), Property::data(Value::Integer(length), false, false, true)),
                );
                assert(object@.properties =~= closure_object(n as nat, current, function).properties);
                Ok(Value::Function(self.realm.heap.allocate(object)))
            },
            Node::Field(object, name) => match self.run(object, current, fuel) {
                Err(e) => Err(e),
                Ok(v) => Ok(v.get_field(&self.realm.heap, name.as_str())),
            },
            Node::Index(object, key) => match self.run(object, current, fuel) {
                Err(e) => Err(e),
                Ok(v) => match self.run(key, current, fuel) {
                    Err(e) => Err(e),
                    Ok(k) => {
                        let name = k.to_string();
                        Ok(v.get_field(&self.realm.heap, name.as_str()))
                    },
                },
            },
            Node::Call(callee, arguments) => match self.run(callee, current, fuel) {
                Err(e) => Err(e),
                Ok(f) => match self.run_list(arguments, current, fuel) {
                    Err(e) => Err(e),
                    Ok(values) => match self.closure(&f) {
                        None => {
                            let this = Value::Undefined;
                            self.call(&f, &this, values)
                        },
                        Some((environment, function)) => {
                            if fuel == 0 {
                                Err(Value::String("RangeError: too much recursion".to_owned()))
                            } else {
                                let ghost definition = self.state().functions[function as int];
                                let inner = self.enter(environment, function, &values);
                                let body = self.realm.functions[function].body.clone();
                                assert(body@ == definition.body);
                                let block = match &body {
                                    Node::Block(_) => true,
                                    _ => false,
                                };
                                match self.run(&body, inner, fuel - 1) {
                                    Err(e) => Err(e),
                                    Ok(v) => if block {
                                        Ok(Value::Undefined)
                                    } else {
                                        Ok(v)
                                    },
                                }
                            }
                        },
                    },
                },
            },
            Node::Compare(op, left, right) => match self.run(left, current, fuel) {
                Err(e) => Err(e),
                Ok(a) => match self.run(right, current, fuel) {
                    Err(e) => Err(e),
                    Ok(b) => {
                        let result = match op {
                            CompareOp::Equal => a.loose_equals(&b),
                            CompareOp::NotEqual => !a.loose_equals(&b),
                            CompareOp::StrictEqual => a.strict_equals(&b),
                            CompareOp::StrictNotEqual => !a.strict_equals(&b),
                        };
                        Ok(Value::Boolean(result))
                    },
                },
            },
            Node::Block(statements) => self.run_statements(statements, current, fuel),
        }
    }

    /// Evaluates statements one after the other, as [`evaluate_statements`]
    /// defines it.
    #[verifier::loop_isolation(false)]
    pub fn run_statements(&mut self, statements: &Vec<Node>, current: EnvironmentId, fuel: u64) -> (r:
        ResultValue)
        requires
            old(self).wf(),
            current < old(self).realm.environment@.len(),
        ensures
            final(self).wf(),
            final(self).kept(old(self)),
            (final(self).state(), result_view(r)) == evaluate_statements(
                old(self).state(),
                old(self).scope(current),
                node_models(statements@),
                fuel as nat,
            ),
        decreases fuel, statements, 1nat,
    {
        let ghost s = self.state();
        let ghost scope = self.scope(current);
        let ghost models = node_models(statements@);
        let mut last = Value::Undefined;
        let mut i: usize = 0;
        proof {
            lemma_node_models_index(statements@);
            assert(models.take(0) =~= Seq::<NodeView>::empty());
        }
        while i < statements.len()
            invariant
                i <= statements@.len(),
                self.wf(),
                self.kept(old(self)),
                evaluate_statements(s, scope, models.take(i as int), fuel as nat) == (
                    self.state(),
                    Ok::<ValueView, ValueView>(last@),
                ),
            decreases statements.len() - i,
        {
            proof {
                assert(models.take(i + 1).drop_last() =~= models.take(i as int));
                assert(models.take(i + 1).last() == statements@[i as int]@);
            }
            match self.run(&statements[i], current, fuel) {
                Ok(v) => {
                    last = v;
                },
                Err(e) => {
                    proof {
                        lemma_statements_error(s, scope, models, fuel as nat, i + 1);
                    }
                    return Err(e);
                },
            }
            i += 1;
        }
        proof {
            assert(models.take(statements@.len() as int) =~= models);
        }
        Ok(last)
    }

    /// Evaluates the members of an object literal and assigns them to the
    /// fields of `object`, as [`evaluate_members`] defines it.
    #[verifier::loop_isolation(false)]
    pub fn run_members(
        &mut self,
        object: Value,
        members: &Vec<(String, Node)>,
        current: EnvironmentId,
        fuel: u64,
    ) -> (r: ResultValue)
        requires
            old(self).wf(),
            current < old(self).realm.environment@.len(),
        ensures
            final(self).wf(),
            final(self).kept(old(self)),
            (final(self).state(), result_view(r)) == evaluate_members(
                old(self).state(),
                old(self).scope(current),
                object@,
                member_models(members@),
                fuel as nat,
            ),
        decreases fuel, members, 1nat,
    {
        let ghost s = self.state();
        let ghost scope = self.scope(current);
        let ghost models = member_models(members@);
        let mut i: usize = 0;
        proof {
            lemma_member_models_index(members@);
            assert(models.take(0) =~= Seq::<(Seq<char>, NodeView)>::empty());
        }
        while i < members.len()
            invariant
                i <= members@.len(),
                self.wf(),
                self.kept(old(self)),
                evaluate_members(s, scope, object@, models.take(i as int), fuel as nat) == (
                    self.state(),
                    Ok::<ValueView, ValueView>(object@),
                ),
            decreases members.len() - i,
        {
            proof {
                assert(models.take(i + 1).drop_last() =~= models.take(i as int));
                assert(models.take(i + 1).last() == models[i as int]);
            }
            match self.run(&members[i].1, current, fuel) {
                Ok(v) => {
                    object.set_field(&mut self.realm.heap, members[i].0.clone(), v);
                },
                Err(e) => {
                    proof {
                        lemma_members_error(s, scope, object@, models, fuel as nat, i + 1);
                    }
                    return Err(e);
                },
            }
            i += 1;
        }
        proof {
            assert(models.take(members@.len() as int) =~= models);
        }
        Ok(object)
    }
}

} // verus!
