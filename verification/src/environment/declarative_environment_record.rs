//! Declarative environment records.
//!
//! A declarative environment record holds its bindings itself: each name is
//! bound to a value, and the binding records whether it may be assigned to,
//! whether it has been given its first value, and whether it may be deleted.

use vstd::prelude::*;
use crate::builtins::object::{has_key, index_of, keys_distinct, lemma_index_of};
use crate::builtins::value::{Value, ValueView};
use crate::environment::lexical_environment::{
    global_object_from, EnvironmentId, EnvironmentType, LexicalEnvironment,
};
use crate::environment::object_environment_record::{read_only_message, unbound_message};

verus! {

/// A binding of a declarative environment record.
pub struct Binding {
    /// The bound value; `undefined` until the binding is initialized.
    pub value: Value,
    /// Whether the binding may be assigned to.
    pub mutable: bool,
    /// Whether the binding has been given its first value.
    pub initialized: bool,
    /// Whether the binding was created as one that may be deleted.
    pub deletable: bool,
}

/// Mathematical model of a [`Binding`].
pub struct BindingView {
    pub value: ValueView,
    pub mutable: bool,
    pub initialized: bool,
    pub deletable: bool,
}

impl View for Binding {
    type V = BindingView;

    open spec fn view(&self) -> BindingView {
        BindingView {
            value: self.value@,
            mutable: self.mutable,
            initialized: self.initialized,
            deletable: self.deletable,
        }
    }
}

/// Mathematical model of the bindings of a record: names and bindings in the
/// order in which the names were first bound.
pub type BindingsView = Seq<(Seq<char>, BindingView)>;

/// The model of a list of named bindings.
pub open spec fn bindings_view(bindings: Seq<(String, Binding)>) -> BindingsView {
    Seq::new(bindings.len(), |i: int| (bindings[i].0@, bindings[i].1@))
}

/// The bindings after `name` has been given the binding `binding`: in place
/// where the name was bound already, else at the end.
pub open spec fn installed(b: BindingsView, name: Seq<char>, binding: BindingView) -> BindingsView {
    if has_key(b, name) {
        b.update(index_of(b, name), (name, binding))
    } else {
        b.push((name, binding))
    }
}

/// The bindings without the binding of `name`.
pub open spec fn uninstalled(b: BindingsView, name: Seq<char>) -> BindingsView {
    if has_key(b, name) {
        b.remove(index_of(b, name))
    } else {
        b
    }
}

/// The value bound to `name`; `undefined` where the name is not bound.
pub open spec fn bound_value(b: BindingsView, name: Seq<char>) -> ValueView {
    if has_key(b, name) {
        b[index_of(b, name)].1.value
    } else {
        ValueView::Undefined
    }
}

/// A new binding that may be assigned to and has no value yet.
pub open spec fn mutable_placeholder(deletion: bool) -> BindingView {
    BindingView {
        value: ValueView::Undefined,
        mutable: true,
        initialized: false,
        deletable: deletion,
    }
}

/// A new binding that may not be assigned to and has no value yet.
pub open spec fn immutable_placeholder() -> BindingView {
    BindingView { value: ValueView::Undefined, mutable: false, initialized: false, deletable: true }
}

/// What an assignment to the binding `name` does: the bindings afterwards,
/// or the message of the error that is raised.
///
/// A mutable binding takes the value and counts as initialized. A strict
/// assignment fails on a name that is not bound and on a binding that is not
/// mutable; one that is not strict leaves the bindings as they are.
pub open spec fn assigned(b: BindingsView, name: Seq<char>, value: ValueView, strict: bool) -> Result<
    BindingsView,
    Seq<char>,
> {
    if has_key(b, name) {
        let old = b[index_of(b, name)].1;
        if old.mutable {
            Ok(installed(b, name, BindingView { value, initialized: true, ..old }))
        } else if strict {
            Err(read_only_message())
        } else {
            Ok(b)
        }
    } else if strict {
        Err(unbound_message())
    } else {
        Ok(b)
    }
}

/// The binding table of a scope that holds its bindings itself.
pub struct DeclarativeEnvironmentRecord {
    /// The bindings. No name occurs twice.
    pub bindings: Vec<(String, Binding)>,
    /// The record of the enclosing scope, by its index in the chain.
    pub outer_env: Option<EnvironmentId>,
}

impl View for DeclarativeEnvironmentRecord {
    type V = BindingsView;

    open spec fn view(&self) -> BindingsView {
        bindings_view(self.bindings@)
    }
}

impl Clone for Binding {
    fn clone(&self) -> (r: Self)
        ensures
            r@ == self@,
    {
        Binding {
            value: self.value.clone(),
            mutable: self.mutable,
            initialized: self.initialized,
            deletable: self.deletable,
        }
    }
}

impl DeclarativeEnvironmentRecord {
    /// Validity: no name is bound twice.
    pub open spec fn wf(&self) -> bool {
        keys_distinct(self@)
    }

    /// A record without bindings and without an enclosing scope.
    pub fn new() -> (r: Self)
        ensures
            r@ == Seq::<(Seq<char>, BindingView)>::empty(),
            r.outer_env is None,
            r.wf(),
    {
        let r = DeclarativeEnvironmentRecord { bindings: Vec::new(), outer_env: None };
        assert(r@ =~= Seq::<(Seq<char>, BindingView)>::empty());
        r
    }

    /// The position of the binding of `name`.
    pub fn position(&self, name: &String) -> (r: Option<usize>)
        ensures
            match r {
                Some(i) => i < self@.len() && self@[i as int].0 == name@ && has_key(self@, name@),
                None => !has_key(self@, name@),
            },
            self.wf() ==> (r matches Some(i) ==> index_of(self@, name@) == i),
    {
        let mut i: usize = 0;
        while i < self.bindings.len()
            invariant
                i <= self.bindings.len(),
                forall|j: int| 0 <= j < i ==> (#[trigger] self@[j]).0 != name@,
            decreases self.bindings.len() - i,
        {
            if self.bindings[i].0 == *name {
                assert(self@[i as int].0 == name@);
                proof {
                    if self.wf() {
                        lemma_index_of(self@, name@, i as int);
                    }
                }
                return Some(i);
            }
            assert(self@[i as int].0 != name@);
            i += 1;
        }
        None
    }

    /// Gives `name` the binding `binding`.
    pub fn install(&mut self, name: String, binding: Binding)
        requires
            old(self).wf(),
        ensures
            final(self)@ == installed(old(self)@, name@, binding@),
            final(self).wf(),
            final(self).outer_env == old(self).outer_env,
            has_key(final(self)@, name@),
            bound_value(final(self)@, name@) == binding@.value,
    {
        let ghost before = self@;
        match self.position(&name) {
            Some(i) => {
                self.bindings.set(i, (name, binding));
                proof {
                    assert(self@ =~= before.update(i as int, (name@, binding@)));
                    assert forall|a: int, b: int| 0 <= a < b < self@.len() implies (
                    #[trigger] self@[a]).0 != (#[trigger] self@[b]).0 by {
                        assert(before[a].0 != before[b].0);
                    }
                    lemma_index_of(self@, name@, i as int);
                }
            },
            None => {
                self.bindings.push((name, binding));
                proof {
                    assert(self@ =~= before.push((name@, binding@)));
                    assert forall|a: int, b: int| 0 <= a < b < self@.len() implies (
                    #[trigger] self@[a]).0 != (#[trigger] self@[b]).0 by {
                        if b < before.len() {
                            assert(before[a].0 != before[b].0);
                        } else {
                            assert(before[a].0 != name@);
                        }
                    }
                    lemma_index_of(self@, name@, before.len() as int);
                }
            },
        }
    }

    /// Whether `name` is bound.
    pub fn has_binding(&self, name: &str) -> (r: bool)
        ensures
            r == has_key(self@, name@),
    {
        let key = name.to_owned();
        self.position(&key).is_some()
    }

    /// Binds `name` to an `undefined` placeholder that may be assigned to. A
    /// name that was bound already is bound anew, in its old place.
    pub fn create_mutable_binding(&mut self, name: String, deletion: bool)
        requires
            old(self).wf(),
        ensures
            final(self)@ == installed(old(self)@, name@, mutable_placeholder(deletion)),
            final(self).wf(),
            final(self).outer_env == old(self).outer_env,
            has_key(final(self)@, name@),
    {
        self.install(
            name,
            Binding { value: Value::Undefined, mutable: true, initialized: false, deletable: deletion },
        );
    }

    /// Binds `name` to an `undefined` placeholder that may not be assigned
    /// to, and reports success.
    pub fn create_immutable_binding(&mut self, name: String, strict: bool) -> (r: bool)
        requires
            old(self).wf(),
        ensures
            r,
            final(self)@ == installed(old(self)@, name@, immutable_placeholder()),
            final(self).wf(),
            final(self).outer_env == old(self).outer_env,
            has_key(final(self)@, name@),
    {
        self.install(
            name,
            Binding { value: Value::Undefined, mutable: false, initialized: false, deletable: true },
        );
        true
    }

    /// Gives the binding `name` its first value. The name must be bound.
    pub fn initialize_binding(&mut self, name: &str, value: Value)
        requires
            old(self).wf(),
            has_key(old(self)@, name@),
        ensures
            final(self)@ == installed(
                old(self)@,
                name@,
                BindingView {
                    value: value@,
                    initialized: true,
                    ..old(self)@[index_of(old(self)@, name@)].1
                },
            ),
            final(self).wf(),
            final(self).outer_env == old(self).outer_env,
            bound_value(final(self)@, name@) == value@,
    {
        let key = name.to_owned();
        match self.position(&key) {
            Some(i) => {
                let binding = Binding {
                    value,
                    mutable: self.bindings[i].1.mutable,
                    initialized: true,
                    deletable: self.bindings[i].1.deletable,
                };
                self.install(key, binding);
            },
            None => {},
        }
    }

    /// Assigns `value` to the binding `name`, as [`assigned`] defines it. The
    /// error of a strict assignment that fails is a string value.
    pub fn set_mutable_binding(&mut self, name: &str, value: Value, strict: bool) -> (r: Result<
        (),
        Value,
    >)
        requires
            old(self).wf(),
        ensures
            match r {
                Ok(_) => Ok::<BindingsView, Seq<char>>(final(self)@) == assigned(
                    old(self)@,
                    name@,
                    value@,
                    strict,
                ),
                Err(e) => final(self)@ == old(self)@ && e@ is String && Err::<
                    BindingsView,
                    Seq<char>,
                >(e@->String_0) == assigned(old(self)@, name@, value@, strict),
            },
            final(self).wf(),
            final(self).outer_env == old(self).outer_env,
    {
        let key = name.to_owned();
        match self.position(&key) {
            Some(i) => {
                if self.bindings[i].1.mutable {
                    let binding = Binding {
                        value,
                        mutable: true,
                        initialized: true,
                        deletable: self.bindings[i].1.deletable,
                    };
                    self.install(key, binding);
                    Ok(())
                } else if strict {
                    Err(
                        Value::String(
                            "TypeError: assignment to a binding that is not writable".to_owned(),
                        ),
                    )
                } else {
                    Ok(())
                }
            },
            None => {
                if strict {
                    Err(
                        Value::String(
                            "ReferenceError: assignment to an undeclared binding".to_owned(),
                        ),
                    )
                } else {
                    Ok(())
                }
            },
        }
    }

    /// The value bound to `name`; `undefined` where the name is not bound or
    /// not initialized, in strict code too.
    pub fn get_binding_value(&self, name: &str, strict: bool) -> (r: Value)
        requires
            self.wf(),
        ensures
            r@ == bound_value(self@, name@),
    {
        let key = name.to_owned();
        match self.position(&key) {
            Some(i) => self.bindings[i].1.value.clone(),
            None => Value::Undefined,
        }
    }

    /// Removes the binding `name` and reports success.
    pub fn delete_binding(&mut self, name: &str) -> (r: bool)
        requires
            old(self).wf(),
        ensures
            r,
            final(self)@ == uninstalled(old(self)@, name@),
            final(self).wf(),
            final(self).outer_env == old(self).outer_env,
            !has_key(final(self)@, name@),
    {
        let ghost before = self@;
        let key = name.to_owned();
        match self.position(&key) {
            Some(i) => {
                self.bindings.remove(i);
                proof {
                    assert(self@ =~= before.remove(i as int));
                    assert forall|a: int, b: int| 0 <= a < b < self@.len() implies (
                    #[trigger] self@[a]).0 != (#[trigger] self@[b]).0 by {
                        let a0 = if a < i {
                            a
                        } else {
                            a + 1
                        };
                        let b0 = if b < i {
                            b
                        } else {
                            b + 1
                        };
                        assert(before[a0].0 != before[b0].0);
                    }
                    law_uninstalled_is_unbound(before, name@);
                }
            },
            None => {},
        }
        true
    }

    /// A declarative environment record binds no `this`.
    pub fn has_this_binding(&self) -> (r: bool)
        ensures
            !r,
    {
        false
    }

    /// A declarative environment record binds no `super`.
    pub fn has_super_binding(&self) -> (r: bool)
        ensures
            !r,
    {
        false
    }

    /// A declarative environment record has no base object.
    pub fn with_base_object(&self) -> (r: Value)
        ensures
            r@ == ValueView::Undefined,
    {
        Value::Undefined
    }

    /// The record of the enclosing scope.
    pub fn get_outer_environment(&self) -> (r: Option<EnvironmentId>)
        ensures
            r == self.outer_env,
    {
        self.outer_env
    }

    /// Links the record to the record of the enclosing scope.
    pub fn set_outer_environment(&mut self, env: EnvironmentId)
        ensures
            final(self).outer_env == Some(env),
            final(self)@ == old(self)@,
    {
        self.outer_env = Some(env);
    }

    /// The tag by which identifier resolution tells the kinds of record
    /// apart.
    pub fn get_environment_type(&self) -> (r: EnvironmentType)
        ensures
            r == EnvironmentType::Declarative,
    {
        EnvironmentType::Declarative
    }

    /// The global object: what the enclosing scopes answer, asked outward
    /// one after the other.
    pub fn get_global_object(&self, environments: &LexicalEnvironment) -> (r: Option<Value>)
        requires
            environments.wf(),
            self.outer_env matches Some(outer) ==> outer < environments@.len(),
        ensures
            r is Some == global_object_from(environments@, self.outer_env) is Some,
            r matches Some(v) ==> global_object_from(environments@, self.outer_env) == Some(v@),
    {
        match self.outer_env {
            Some(outer) => environments.get_global_object(outer),
            None => None,
        }
    }
}

/// A name is bound as soon as a binding for it has been created, and other
/// names are as they were.
pub proof fn law_installed_is_bound(
    b: BindingsView,
    name: Seq<char>,
    binding: BindingView,
    other: Seq<char>,
)
    requires
        keys_distinct(b),
    ensures
        has_key(installed(b, name, binding), name),
        other != name ==> has_key(installed(b, name, binding), other) == has_key(b, other),
{
    let after = installed(b, name, binding);
    if has_key(b, name) {
        let i = index_of(b, name);
        assert(after[i].0 == name);
        if has_key(b, other) {
            assert(after[index_of(b, other)].0 == other);
        }
        if has_key(after, other) && other != name {
            assert(b[index_of(after, other)].0 == other);
        }
    } else {
        assert(after[b.len() as int].0 == name);
        if has_key(b, other) {
            assert(after[index_of(b, other)].0 == other);
        }
        if has_key(after, other) && other != name {
            assert(b[index_of(after, other)].0 == other);
        }
    }
}

/// After a binding has been deleted its name is not bound, and other names
/// are as they were.
pub proof fn law_uninstalled_is_unbound(b: BindingsView, name: Seq<char>)
    requires
        keys_distinct(b),
    ensures
        !has_key(uninstalled(b, name), name),
        forall|other: Seq<char>|
            other != name ==> has_key(uninstalled(b, name), other) == #[trigger] has_key(b, other),
{
    let after = uninstalled(b, name);
    if has_key(b, name) {
        let i = index_of(b, name);
        if has_key(after, name) {
            let k = index_of(after, name);
            let k0 = if k < i {
                k
            } else {
                k + 1
            };
            assert(b[k0].0 == name);
            if k0 < i {
                assert(b[k0].0 != b[i].0);
            } else {
                assert(b[i].0 != b[k0].0);
            }
        }
        assert forall|other: Seq<char>| other != name implies has_key(after, other) == #[trigger] has_key(
            b,
            other,
        ) by {
            if has_key(b, other) {
                let k = index_of(b, other);
                let k2 = if k < i {
                    k
                } else {
                    k - 1
                };
                assert(after[k2].0 == other);
            }
            if has_key(after, other) {
                let k = index_of(after, other);
                let k0 = if k < i {
                    k
                } else {
                    k + 1
                };
                assert(b[k0].0 == other);
            }
        }
    }
}

} // verus!
