//! The chain of environment records.
//!
//! Records live in an arena and name the record of the enclosing scope by its
//! index. A record is added after the record it is nested in, so that the
//! walk outward from any record ends.

use vstd::prelude::*;
use crate::builtins::object::{get_field, has_field, has_key, Heap, HeapView};
use crate::builtins::value::{Value, ValueView};
use crate::environment::declarative_environment_record::{
    bound_value, BindingsView, DeclarativeEnvironmentRecord,
};
use crate::environment::function_environment_record::FunctionEnvironmentRecord;
use crate::environment::object_environment_record::ObjectEnvironmentRecord;

verus! {

/// Index of a record in the chain that owns it.
pub type EnvironmentId = usize;

/// The kinds of scope that identifier resolution tells apart.
#[derive(Clone, Copy, Debug, PartialEq, Eq, Structural)]
pub enum EnvironmentType {
    Declarative,
    Function,
    Global,
    Object,
}

/// A record of the chain.
pub enum Environment {
    /// The global scope: its bindings are the properties of the global
    /// object.
    Global(ObjectEnvironmentRecord),
    /// A scope whose bindings are the properties of an object.
    Object(ObjectEnvironmentRecord),
    /// A scope that holds its bindings itself.
    Declarative(DeclarativeEnvironmentRecord),
    /// The top-level scope of a function.
    Function(FunctionEnvironmentRecord),
}

/// Where a record keeps its bindings: in the properties of an object, or in
/// the record itself.
pub enum Store {
    Object(ValueView),
    Local(BindingsView),
}

/// Mathematical model of an [`Environment`]: its kind, its bindings and the
/// record it is nested in.
pub struct EnvironmentView {
    pub kind: EnvironmentType,
    pub store: Store,
    pub outer: Option<EnvironmentId>,
}

impl View for Environment {
    type V = EnvironmentView;

    open spec fn view(&self) -> EnvironmentView {
        match self {
            Environment::Global(r) => EnvironmentView {
                kind: EnvironmentType::Global,
                store: Store::Object(r.bindings@),
                outer: r.outer_env,
            },
            Environment::Object(r) => EnvironmentView {
                kind: EnvironmentType::Object,
                store: Store::Object(r.bindings@),
                outer: r.outer_env,
            },
            Environment::Declarative(r) => EnvironmentView {
                kind: EnvironmentType::Declarative,
                store: Store::Local(r@),
                outer: r.outer_env,
            },
            Environment::Function(r) => EnvironmentView {
                kind: EnvironmentType::Function,
                store: Store::Local(r.declarative@),
                outer: r.declarative.outer_env,
            },
        }
    }
}

impl Environment {
    /// Validity: the bindings that the record holds itself are valid.
    pub open spec fn wf(&self) -> bool {
        match self {
            Environment::Declarative(r) => r.wf(),
            Environment::Function(r) => r.declarative.wf(),
            _ => true,
        }
    }

    /// The record of the enclosing scope.
    pub fn get_outer_environment(&self) -> (r: Option<EnvironmentId>)
        ensures
            r == self@.outer,
    {
        match self {
            Environment::Global(r) => r.outer_env,
            Environment::Object(r) => r.outer_env,
            Environment::Declarative(r) => r.outer_env,
            Environment::Function(r) => r.declarative.outer_env,
        }
    }

    /// Whether `name` is bound in this record.
    pub fn has_binding(&self, heap: &Heap, name: &str) -> (r: bool)
        ensures
            r == binds(heap@, self@, name@),
    {
        match self {
            Environment::Global(r) => r.has_binding(heap, name),
            Environment::Object(r) => r.has_binding(heap, name),
            Environment::Declarative(r) => r.has_binding(name),
            Environment::Function(r) => r.declarative.has_binding(name),
        }
    }

    /// The value bound to `name` in this record; `undefined` where the name
    /// is not bound.
    pub fn get_binding_value(&self, heap: &Heap, name: &str, strict: bool) -> (r: Value)
        requires
            heap.wf(),
            self.wf(),
        ensures
            r@ == binding_value(heap@, self@, name@),
    {
        match self {
            Environment::Global(r) => r.get_binding_value(heap, name, strict),
            Environment::Object(r) => r.get_binding_value(heap, name, strict),
            Environment::Declarative(r) => r.get_binding_value(name, strict),
            Environment::Function(r) => r.declarative.get_binding_value(name, strict),
        }
    }
}

/// `name` is bound in the record `e`.
pub open spec fn binds(h: HeapView, e: EnvironmentView, name: Seq<char>) -> bool {
    match e.store {
        Store::Object(bindings) => has_field(h, bindings, name),
        Store::Local(bindings) => has_key(bindings, name),
    }
}

/// The value bound to `name` in the record `e`; `undefined` where the name
/// is not bound.
pub open spec fn binding_value(h: HeapView, e: EnvironmentView, name: Seq<char>) -> ValueView {
    match e.store {
        Store::Object(bindings) => get_field(h, bindings, name),
        Store::Local(bindings) => bound_value(bindings, name),
    }
}

/// The arena of environment records.
pub struct LexicalEnvironment {
    pub records: Vec<Environment>,
}

impl View for LexicalEnvironment {
    type V = Seq<EnvironmentView>;

    open spec fn view(&self) -> Seq<EnvironmentView> {
        Seq::new(self.records@.len(), |i: int| self.records@[i]@)
    }
}

/// Every record is nested in a record that was added before it: the chain is
/// acyclic when walked outward.
pub open spec fn chain_wf(chain: Seq<EnvironmentView>) -> bool {
    forall|i: int|
        0 <= i < chain.len() ==> ((#[trigger] chain[i]).outer matches Some(outer) ==> outer < i)
}

/// The global object as the record `id` answers: a global record answers
/// with its binding object, any other record asks the record it is nested
/// in.
pub open spec fn global_object_of(chain: Seq<EnvironmentView>, id: EnvironmentId) -> Option<
    ValueView,
>
    decreases id,
{
    if id >= chain.len() {
        None
    } else {
        match (chain[id as int].kind, chain[id as int].store) {
            (EnvironmentType::Global, Store::Object(bindings)) => Some(bindings),
            _ => match chain[id as int].outer {
                Some(outer) => if outer < id {
                    global_object_of(chain, outer)
                } else {
                    None
                },
                None => None,
            },
        }
    }
}

/// The global object as a record answers that is nested in `outer`.
pub open spec fn global_object_from(chain: Seq<EnvironmentView>, outer: Option<EnvironmentId>) -> Option<
    ValueView,
> {
    match outer {
        Some(id) => global_object_of(chain, id),
        None => None,
    }
}

impl LexicalEnvironment {
    /// Validity: the chain is acyclic when walked outward, and every record
    /// is valid.
    pub open spec fn wf(&self) -> bool {
        &&& chain_wf(self@)
        &&& forall|i: int| 0 <= i < self.records@.len() ==> (#[trigger] self.records@[i]).wf()
    }

    /// A chain without records.
    pub fn new() -> (r: Self)
        ensures
            r@ == Seq::<EnvironmentView>::empty(),
            r.wf(),
    {
        let r = LexicalEnvironment { records: Vec::new() };
        assert(r@ =~= Seq::<EnvironmentView>::empty());
        r
    }

    /// The number of records.
    pub fn len(&self) -> (n: usize)
        ensures
            n == self@.len(),
    {
        self.records.len()
    }

    /// Adds a record and returns the index that names it from now on. The
    /// record it is nested in must be in the chain already.
    pub fn push(&mut self, environment: Environment) -> (id: EnvironmentId)
        requires
            old(self).wf(),
            environment.wf(),
            environment@.outer matches Some(outer) ==> outer < old(self)@.len(),
        ensures
            final(self)@ == old(self)@.push(environment@),
            id == old(self)@.len(),
            final(self).wf(),
    {
        let id = self.records.len();
        self.records.push(environment);
        assert(self@ =~= old(self)@.push(environment@));
        assert forall|i: int| 0 <= i < self.records@.len() implies (
        #[trigger] self.records@[i]).wf() by {
            if i < id {
                assert(old(self).records@[i].wf());
            }
        }
        id
    }

    /// The record with index `id`.
    pub fn get(&self, id: EnvironmentId) -> (r: &Environment)
        requires
            id < self@.len(),
        ensures
            r@ == self@[id as int],
            self.wf() ==> r.wf(),
    {
        &self.records[id]
    }

    /// The global object as the record `id` answers.
    pub fn get_global_object(&self, id: EnvironmentId) -> (r: Option<Value>)
        requires
            self.wf(),
            id < self@.len(),
        ensures
            r is Some == global_object_of(self@, id) is Some,
            r matches Some(v) ==> global_object_of(self@, id) == Some(v@),
    {
        let mut current = id;
        loop
            invariant
                self.wf(),
                current < self@.len(),
                global_object_of(self@, current) == global_object_of(self@, id),
            decreases current,
        {
            let record = &self.records[current];
            assert(record@ == self@[current as int]);
            if let Environment::Global(r) = record {
                return Some(r.bindings.clone());
            }
            match record.get_outer_environment() {
                Some(outer) => {
                    current = outer;
                },
                None => {
                    return None;
                },
            }
        }
    }
}

} // verus!
