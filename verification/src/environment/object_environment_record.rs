//! Object environment records.
//!
//! An object environment record is associated with an object called its
//! binding object: the names it binds are the names of that object's own
//! properties. The global scope and the scope of a `with` statement are of
//! this kind.

use vstd::prelude::*;
use crate::builtins::object::{
    get_field, get_property, has_field, heap_wf, index_of, lemma_index_of, object_of,
    remove_property, set_property, Heap, HeapView, ObjectKind, ObjectView,
};
use crate::builtins::property::{Property, PropertyView};
use crate::builtins::value::{Value, ValueView};
use crate::environment::lexical_environment::{
    global_object_from, EnvironmentId, EnvironmentType, LexicalEnvironment,
};

verus! {

/// The binding table of a scope whose bindings are the properties of an
/// object.
pub struct ObjectEnvironmentRecord {
    /// The binding object.
    pub bindings: Value,
    /// Whether the record belongs to a `with` statement.
    pub with_environment: bool,
    /// The record of the enclosing scope, by its index in the chain. The link
    /// does not own what it points to.
    pub outer_env: Option<EnvironmentId>,
}

/// The message of the error that a strict assignment to an unbound name
/// raises.
pub open spec fn unbound_message() -> Seq<char> {
    "ReferenceError: assignment to an undeclared binding"@
}

/// The message of the error that a strict assignment to a binding that is
/// not writable raises.
pub open spec fn read_only_message() -> Seq<char> {
    "TypeError: assignment to a binding that is not writable"@
}

/// The property that [`ObjectEnvironmentRecord::create_mutable_binding`]
/// installs: an `undefined` placeholder that is writable and enumerable, and
/// configurable where the binding may be deleted.
pub open spec fn placeholder(deletion: bool) -> PropertyView {
    PropertyView::data(ValueView::Undefined, true, true, deletion)
}

/// What an assignment to the binding `name` does, given the heap, the
/// binding object, the new value and whether the code is strict: the heap
/// afterwards, or the message of the error that is raised.
///
/// A writable binding takes the value and keeps its attributes. A strict
/// assignment fails on a name that is not bound and on a binding that is not
/// writable; one that is not strict leaves the heap as it is.
pub open spec fn assign_binding(
    h: HeapView,
    bindings: ValueView,
    name: Seq<char>,
    value: ValueView,
    strict: bool,
) -> Result<HeapView, Seq<char>> {
    match get_property(h, bindings, name) {
        Some(p) => if p.writable() {
            Ok(set_property(h, bindings, name, p.with_value(value)))
        } else if strict {
            Err(read_only_message())
        } else {
            Ok(h)
        },
        None => if strict {
            Err(unbound_message())
        } else {
            Ok(h)
        },
    }
}

impl ObjectEnvironmentRecord {
    /// Validity with respect to a heap: the binding object is an object of
    /// that heap.
    pub open spec fn wf(&self, h: HeapView) -> bool {
        object_of(h, self.bindings@) is Some
    }

    /// A record for the given binding object, without an enclosing scope.
    pub fn new(bindings: Value, with_environment: bool) -> (r: Self)
        ensures
            r.bindings@ == bindings@,
            r.with_environment == with_environment,
            r.outer_env is None,
    {
        ObjectEnvironmentRecord { bindings, with_environment, outer_env: None }
    }

    /// Whether `name` is bound: whether the binding object has an own
    /// property of that name.
    pub fn has_binding(&self, heap: &Heap, name: &str) -> (r: bool)
        ensures
            r == has_field(heap@, self.bindings@, name@),
    {
        self.bindings.has_field(heap, name)
    }

    /// Binds `name` to an `undefined` placeholder, before the binding gets
    /// its real value. A name that was bound already is bound anew, in its
    /// old place.
    pub fn create_mutable_binding(&self, heap: &mut Heap, name: String, deletion: bool)
        requires
            old(heap).wf(),
            self.wf(old(heap)@),
        ensures
            final(heap)@ == set_property(old(heap)@, self.bindings@, name@, placeholder(deletion)),
            final(heap).wf(),
            self.wf(final(heap)@),
            has_field(final(heap)@, self.bindings@, name@),
            get_field(final(heap)@, self.bindings@, name@) == ValueView::Undefined,
    {
        let property = Property::data(Value::Undefined, true, true, deletion);
        proof {
            law_created_binding_is_bound(heap@, self.bindings@, name@, property@);
        }
        self.bindings.set_property(heap, name, property);
    }

    /// An object environment record cannot hold an immutable binding: the
    /// call changes nothing and reports success.
    pub fn create_immutable_binding(&self, name: String, strict: bool) -> (r: bool)
        ensures
            r,
    {
        true
    }

    /// Gives the binding `name` its first value, by an assignment that is
    /// not strict. The name must be bound.
    pub fn initialize_binding(&self, heap: &mut Heap, name: &str, value: Value)
        requires
            old(heap).wf(),
            has_field(old(heap)@, self.bindings@, name@),
            value@.is_object() || value@.is_function(),
        ensures
            Ok::<HeapView, Seq<char>>(final(heap)@) == assign_binding(
                old(heap)@,
                self.bindings@,
                name@,
                value@,
                false,
            ),
            final(heap).wf(),
    {
        let r = self.set_mutable_binding(heap, name, value, false);
        proof {
            reveal_strlit("ReferenceError: assignment to an undeclared binding");
            reveal_strlit("TypeError: assignment to a binding that is not writable");
        }
    }

    /// Assigns `value` to the binding `name`, as [`assign_binding`] defines
    /// it. The value must be a reference to an object or a function. The
    /// error of a strict assignment that fails is a string value.
    pub fn set_mutable_binding(&self, heap: &mut Heap, name: &str, value: Value, strict: bool) -> (r:
        Result<(), Value>)
        requires
            old(heap).wf(),
            value@.is_object() || value@.is_function(),
        ensures
            match r {
                Ok(_) => Ok::<HeapView, Seq<char>>(final(heap)@) == assign_binding(
                    old(heap)@,
                    self.bindings@,
                    name@,
                    value@,
                    strict,
                ),
                Err(e) => final(heap)@ == old(heap)@ && Err::<HeapView, Seq<char>>(
                    e@->String_0,
                ) == assign_binding(old(heap)@, self.bindings@, name@, value@, strict) && e@ is String,
            },
            final(heap).wf(),
    {
        match self.bindings.get_property(heap, name) {
            Some(p) => {
                if p.is_writable() {
                    let key = name.to_owned();
                    self.bindings.set_property(heap, key, p.value(value));
                    Ok(())
                } else if strict {
                    Err(
                        Value::String(
                            "TypeError: assignment to a binding that is not writable".to_owned(),
                        ),
                    )
                } else {
                    Ok(())
                }
            },
            None => {
                if strict {
                    Err(
                        Value::String(
                            "ReferenceError: assignment to an undeclared binding".to_owned(),
                        ),
                    )
                } else {
                    Ok(())
                }
            },
        }
    }

    /// The value bound to `name`; `undefined` where the name is not bound,
    /// in strict code too.
    pub fn get_binding_value(&self, heap: &Heap, name: &str, strict: bool) -> (r: Value)
        requires
            heap.wf(),
        ensures
            r@ == get_field(heap@, self.bindings@, name@),
    {
        if self.bindings.has_field(heap, name) {
            self.bindings.get_field(heap, name)
        } else {
            Value::Undefined
        }
    }

    /// Removes the binding `name`. An object environment record always
    /// reports success.
    pub fn delete_binding(&self, heap: &mut Heap, name: &str) -> (r: bool)
        requires
            old(heap).wf(),
        ensures
            r,
            final(heap)@ == remove_property(old(heap)@, self.bindings@, name@),
            final(heap).wf(),
            !has_field(final(heap)@, self.bindings@, name@),
    {
        proof {
            law_deleted_binding_is_unbound(heap@, self.bindings@, name@);
        }
        self.bindings.remove_property(heap, name);
        true
    }

    /// An object environment record binds no `this`.
    pub fn has_this_binding(&self) -> (r: bool)
        ensures
            !r,
    {
        false
    }

    /// An object environment record binds no `super`.
    pub fn has_super_binding(&self) -> (r: bool)
        ensures
            !r,
    {
        false
    }

    /// The binding object where the record belongs to a `with` statement,
    /// else `undefined`.
    pub fn with_base_object(&self) -> (r: Value)
        ensures
            r@ == if self.with_environment {
                self.bindings@
            } else {
                ValueView::Undefined
            },
    {
        if self.with_environment {
            return self.bindings.clone();
        }
        Value::Undefined
    }

    /// The record of the enclosing scope.
    pub fn get_outer_environment(&self) -> (r: Option<EnvironmentId>)
        ensures
            r == self.outer_env,
    {
        self.outer_env
    }

    /// Links the record to the record of the enclosing scope.
    pub fn set_outer_environment(&mut self, env: EnvironmentId)
        ensures
            final(self).outer_env == Some(env),
            final(self).bindings == old(self).bindings,
            final(self).with_environment == old(self).with_environment,
    {
        self.outer_env = Some(env);
    }

    /// The tag by which identifier resolution tells the kinds of record
    /// apart. An object environment record answers with the tag of a
    /// function scope.
    pub fn get_environment_type(&self) -> (r: EnvironmentType)
        ensures
            r == EnvironmentType::Function,
    {
        EnvironmentType::Function
    }

    /// The global object: what the enclosing scopes answer, asked outward
    /// one after the other. There is none where the record has no enclosing
    /// scope or the chain ends before a global scope.
    pub fn get_global_object(&self, environments: &LexicalEnvironment) -> (r: Option<Value>)
        requires
            environments.wf(),
            self.outer_env matches Some(outer) ==> outer < environments@.len(),
        ensures
            r is Some == global_object_from(environments@, self.outer_env) is Some,
            r matches Some(v) ==> global_object_from(environments@, self.outer_env) == Some(v@),
    {
        match self.outer_env {
            Some(outer) => environments.get_global_object(outer),
            None => None,
        }
    }
}

/// A name is bound as soon as a binding for it has been created: after
/// `create_mutable_binding(n, _)`, `has_binding(n)` holds.
pub proof fn law_created_binding_is_bound(
    h: HeapView,
    bindings: ValueView,
    name: Seq<char>,
    property: PropertyView,
)
    requires
        heap_wf(h),
        object_of(h, bindings) is Some,
    ensures
        has_field(set_property(h, bindings, name, property), bindings, name),
        get_property(set_property(h, bindings, name, property), bindings, name) == Some(property),
{
    let o = object_of(h, bindings)->0;
    let after = o.insert(name, property);
    assert(o.wf());
    if o.has(name) {
        let i = index_of(o.properties, name);
        assert(after.properties[i].0 == name);
        assert forall|a: int, b: int| 0 <= a < b < after.properties.len() implies (
        #[trigger] after.properties[a]).0 != (#[trigger] after.properties[b]).0 by {
            assert(o.properties[a].0 != o.properties[b].0);
        }
        lemma_index_of(after.properties, name, i);
    } else {
        let i = o.properties.len() as int;
        assert(after.properties[i].0 == name);
        assert forall|a: int, b: int| 0 <= a < b < after.properties.len() implies (
        #[trigger] after.properties[a]).0 != (#[trigger] after.properties[b]).0 by {
            if b < i {
                assert(o.properties[a].0 != o.properties[b].0);
            } else {
                assert(o.properties[a].0 != name);
            }
        }
        lemma_index_of(after.properties, name, i);
    }
}

/// Creating a binding twice is the same as creating it once.
pub proof fn law_create_is_idempotent(
    h: HeapView,
    bindings: ValueView,
    name: Seq<char>,
    property: PropertyView,
)
    requires
        heap_wf(h),
    ensures
        set_property(set_property(h, bindings, name, property), bindings, name, property)
            == set_property(h, bindings, name, property),
{
    if object_of(h, bindings) is Some {
        law_created_binding_is_bound(h, bindings, name, property);
        let once = set_property(h, bindings, name, property);
        let o = object_of(once, bindings)->0;
        let id = bindings.object_id()->0 as int;
        let i = index_of(o.properties, name);
        assert(o.properties.update(i, (name, property)) =~= o.properties);
        assert(once.update(id, o.insert(name, property)) =~= once);
    }
}

/// Creating or deleting the binding of one name leaves every other name as
/// it was: a name is not bound until a binding is created for it.
pub proof fn law_other_bindings_untouched(
    h: HeapView,
    bindings: ValueView,
    name: Seq<char>,
    property: PropertyView,
    other: Seq<char>,
)
    requires
        heap_wf(h),
        other != name,
    ensures
        has_field(set_property(h, bindings, name, property), bindings, other) == has_field(
            h,
            bindings,
            other,
        ),
        has_field(remove_property(h, bindings, name), bindings, other) == has_field(
            h,
            bindings,
            other,
        ),
{
    if object_of(h, bindings) is Some {
        let o = object_of(h, bindings)->0;
        assert(o.wf());
        let inserted = o.insert(name, property);
        let removed = o.remove(name);
        if o.has(other) {
            let k = index_of(o.properties, other);
            if o.has(name) {
                let i = index_of(o.properties, name);
                assert(inserted.properties[k].0 == other);
                let k2 = if k < i {
                    k
                } else {
                    k - 1
                };
                assert(removed.properties[k2].0 == other);
            } else {
                assert(inserted.properties[k].0 == other);
            }
        }
        if inserted.has(other) {
            let k = index_of(inserted.properties, other);
            assert(o.properties[k].0 == other);
        }
        if removed.has(other) {
            let k = index_of(removed.properties, other);
            if o.has(name) {
                let i = index_of(o.properties, name);
                let k2 = if k < i {
                    k
                } else {
                    k + 1
                };
                assert(o.properties[k2].0 == other);
            }
        }
    }
}

/// A new object binds no name: `has_binding` is false on a record whose
/// binding object has just been made.
pub proof fn law_new_record_binds_nothing(h: HeapView, kind: ObjectKind, name: Seq<char>)
    requires
        h.len() <= usize::MAX,
    ensures
        !has_field(h.push(ObjectView::empty(kind)), ValueView::Object(h.len() as usize), name),
{
}

/// After `delete_binding(n)`, `has_binding(n)` is false.
pub proof fn law_deleted_binding_is_unbound(h: HeapView, bindings: ValueView, name: Seq<char>)
    requires
        heap_wf(h),
    ensures
        !has_field(remove_property(h, bindings, name), bindings, name),
{
    if object_of(h, bindings) is Some {
        let o = object_of(h, bindings)->0;
        assert(o.wf());
        let removed = o.remove(name);
        if removed.has(name) {
            let k = index_of(removed.properties, name);
            if o.has(name) {
                let i = index_of(o.properties, name);
                let k2 = if k < i {
                    k
                } else {
                    k + 1
                };
                assert(o.properties[k2].0 == name);
                assert(o.properties[i].0 == name);
                if k2 < i {
                    assert(o.properties[k2].0 != o.properties[i].0);
                } else {
                    assert(o.properties[i].0 != o.properties[k2].0);
                }
            } else {
                assert(o.properties[k].0 == name);
            }
        }
    }
}

} // verus!
