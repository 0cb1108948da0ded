//! Objects and the heap that owns them.
//!
//! An object is an ordered list of named properties with a kind tag and a
//! prototype link. Objects refer to one another by index into the heap, so
//! that cyclic graphs (an object that holds a closure that captured the scope
//! that holds the object) need no owning pointers.

use vstd::prelude::*;
use crate::builtins::property::{Property, PropertyView};
use crate::builtins::value::{ObjectId, Value, ValueView};

verus! {

/// What kind of object this is: the internal behaviour tag.
#[derive(Clone, Copy, Debug, PartialEq, Eq, Structural)]
pub enum ObjectKind {
    Ordinary,
    Array,
    Function,
    Symbol,
}

/// The functions that the runtime itself provides.
#[derive(Clone, Copy, Debug, PartialEq, Eq, Structural)]
pub enum NativeFunction {
    JsonParse,
    JsonStringify,
    Symbol,
}

/// What calling a function object runs.
#[derive(Clone, Copy, Debug, PartialEq, Eq, Structural)]
pub enum Callable {
    /// A function of the runtime.
    Native(NativeFunction),
    /// A function of the script: the index of the environment record of the
    /// scope that it was made in, and the index of its definition in the
    /// realm's table of functions.
    Closure(usize, usize),
}

/// An object.
pub struct Object {
    /// The internal kind.
    pub kind: ObjectKind,
    /// The own properties, in insertion order. No name occurs twice.
    pub properties: Vec<(String, Property)>,
    /// The prototype, if any.
    pub prototype: Option<ObjectId>,
    /// What a call of the object runs, if it is callable.
    pub call: Option<Callable>,
}

/// Mathematical model of the properties of an object: names and properties
/// in insertion order.
pub type PropertiesView = Seq<(Seq<char>, PropertyView)>;

/// Mathematical model of an [`Object`].
pub struct ObjectView {
    pub kind: ObjectKind,
    pub properties: PropertiesView,
    pub prototype: Option<ObjectId>,
    pub call: Option<Callable>,
}

/// No name occurs twice.
pub open spec fn keys_distinct<T>(p: Seq<(Seq<char>, T)>) -> bool {
    forall|i: int, j: int| 0 <= i < j < p.len() ==> (#[trigger] p[i]).0 != (#[trigger] p[j]).0
}

/// Some entry has the name `key`.
pub open spec fn has_key<T>(p: Seq<(Seq<char>, T)>, key: Seq<char>) -> bool {
    exists|i: int| 0 <= i < p.len() && (#[trigger] p[i]).0 == key
}

/// The position of the entry named `key`, where there is one.
pub open spec fn index_of<T>(p: Seq<(Seq<char>, T)>, key: Seq<char>) -> int {
    choose|i: int| 0 <= i < p.len() && (#[trigger] p[i]).0 == key
}

impl ObjectView {
    /// The object has an own property named `key`.
    pub open spec fn has(self, key: Seq<char>) -> bool {
        has_key(self.properties, key)
    }

    /// The own property named `key`.
    pub open spec fn get(self, key: Seq<char>) -> Option<PropertyView> {
        if self.has(key) {
            Some(self.properties[index_of(self.properties, key)].1)
        } else {
            None
        }
    }

    /// The object after `key` has been given the property `property`: in
    /// place where the name was there already, else at the end.
    pub open spec fn insert(self, key: Seq<char>, property: PropertyView) -> ObjectView {
        ObjectView {
            properties: if self.has(key) {
                self.properties.update(index_of(self.properties, key), (key, property))
            } else {
                self.properties.push((key, property))
            },
            ..self
        }
    }

    /// The object without the property named `key`.
    pub open spec fn remove(self, key: Seq<char>) -> ObjectView {
        ObjectView {
            properties: if self.has(key) {
                self.properties.remove(index_of(self.properties, key))
            } else {
                self.properties
            },
            ..self
        }
    }

    /// An object of the given kind without properties.
    pub open spec fn empty(kind: ObjectKind) -> ObjectView {
        ObjectView { kind, properties: Seq::empty(), prototype: None, call: None }
    }

    /// Validity of the model: no property name occurs twice.
    pub open spec fn wf(self) -> bool {
        keys_distinct(self.properties)
    }
}

/// The model of a list of named properties.
pub open spec fn properties_view(properties: Seq<(String, Property)>) -> PropertiesView {
    Seq::new(properties.len(), |i: int| (properties[i].0@, properties[i].1@))
}

impl View for Object {
    type V = ObjectView;

    open spec fn view(&self) -> ObjectView {
        ObjectView {
            kind: self.kind,
            properties: properties_view(self.properties@),
            prototype: self.prototype,
            call: self.call,
        }
    }
}

/// Where `key` is found at position `i` of a list without repeated names,
/// `i` is the position that `index_of` picks.
pub proof fn lemma_index_of<T>(p: Seq<(Seq<char>, T)>, key: Seq<char>, i: int)
    requires
        keys_distinct(p),
        0 <= i < p.len(),
        p[i].0 == key,
    ensures
        has_key(p, key),
        index_of(p, key) == i,
{
    let j = index_of(p, key);
    assert(0 <= j < p.len() && p[j].0 == key);
    if j < i {
        assert(p[j].0 != p[i].0);
    } else if i < j {
        assert(p[i].0 != p[j].0);
    }
}

impl Object {
    /// Validity: no property name occurs twice.
    pub open spec fn wf(&self) -> bool {
        self@.wf()
    }

    /// An object of the given kind without properties, prototype or call
    /// behaviour.
    pub fn new(kind: ObjectKind) -> (r: Self)
        ensures
            r@ == ObjectView::empty(kind),
            r.wf(),
    {
        let r = Object { kind, properties: Vec::new(), prototype: None, call: None };
        assert(r@.properties =~= Seq::empty());
        r
    }

    /// The position of the property named `key`.
    pub fn position(&self, key: &String) -> (r: Option<usize>)
        ensures
            match r {
                Some(i) => i < self@.properties.len() && self@.properties[i as int].0 == key@,
                None => !self@.has(key@),
            },
            self.wf() ==> (r matches Some(i) ==> self@.has(key@) && index_of(self@.properties, key@) == i),
    {
        let mut i: usize = 0;
        while i < self.properties.len()
            invariant
                i <= self.properties.len(),
                forall|j: int| 0 <= j < i ==> (#[trigger] self@.properties[j]).0 != key@,
            decreases self.properties.len() - i,
        {
            if self.properties[i].0 == *key {
                assert(self@.properties[i as int].0 == key@);
                proof {
                    if self.wf() {
                        lemma_index_of(self@.properties, key@, i as int);
                    }
                }
                return Some(i);
            }
            assert(self@.properties[i as int].0 != key@);
            i += 1;
        }
        None
    }

    /// Whether the object has an own property named `key`.
    pub fn has_property(&self, key: &String) -> (r: bool)
        ensures
            r == self@.has(key@),
    {
        self.position(key).is_some()
    }

    /// The own property named `key`.
    pub fn get_property(&self, key: &String) -> (r: Option<Property>)
        requires
            self.wf(),
        ensures
            r is Some == self@.get(key@) is Some,
            r matches Some(p) ==> self@.get(key@) == Some(p@),
    {
        match self.position(key) {
            Some(i) => Some(self.properties[i].1.clone()),
            None => None,
        }
    }

    /// Gives `key` the property `property`: in place where the object had
    /// the name already, else as its last property.
    pub fn insert(&mut self, key: String, property: Property)
        requires
            old(self).wf(),
        ensures
            final(self)@ == old(self)@.insert(key@, property@),
            final(self).wf(),
    {
        let ghost before = self@;
        match self.position(&key) {
            Some(i) => {
                self.properties.set(i, (key, property));
                proof {
                    assert(self@.properties =~= before.properties.update(i as int, (key@, property@)));
                    assert(keys_distinct(self@.properties)) by {
                        assert forall|a: int, b: int| 0 <= a < b < self@.properties.len() implies (
                        #[trigger] self@.properties[a]).0 != (#[trigger] self@.properties[b]).0 by {
                            assert(before.properties[a].0 != before.properties[b].0);
                        }
                    }
                }
            },
            None => {
                self.properties.push((key, property));
                proof {
                    assert(self@.properties =~= before.properties.push((key@, property@)));
                    assert(keys_distinct(self@.properties)) by {
                        assert forall|a: int, b: int| 0 <= a < b < self@.properties.len() implies (
                        #[trigger] self@.properties[a]).0 != (#[trigger] self@.properties[b]).0 by {
                            if b < before.properties.len() {
                                assert(before.properties[a].0 != before.properties[b].0);
                            } else {
                                assert(before.properties[a].0 != key@);
                            }
                        }
                    }
                }
            },
        }
    }

    /// Removes the property named `key`, if there is one.
    pub fn remove(&mut self, key: &String)
        requires
            old(self).wf(),
        ensures
            final(self)@ == old(self)@.remove(key@),
            final(self).wf(),
    {
        let ghost before = self@;
        match self.position(key) {
            Some(i) => {
                self.properties.remove(i);
                proof {
                    assert(self@.properties =~= before.properties.remove(i as int));
                    assert(keys_distinct(self@.properties)) by {
                        assert forall|a: int, b: int| 0 <= a < b < self@.properties.len() implies (
                        #[trigger] self@.properties[a]).0 != (#[trigger] self@.properties[b]).0 by {
                            let a0 = if a < i { a } else { a + 1 };
                            let b0 = if b < i { b } else { b + 1 };
                            assert(before.properties[a0].0 != before.properties[b0].0);
                        }
                    }
                }
            },
            None => {},
        }
    }
}

impl Clone for Object {
    fn clone(&self) -> (r: Self)
        ensures
            r@ == self@,
    {
        let mut properties: Vec<(String, Property)> = Vec::new();
        let mut i: usize = 0;
        while i < self.properties.len()
            invariant
                i <= self.properties.len(),
                properties@.len() == i,
                forall|j: int| 0 <= j < i ==> properties@[j].0@ == self.properties@[j].0@
                    && properties@[j].1@ == self.properties@[j].1@,
            decreases self.properties.len() - i,
        {
            let key = self.properties[i].0.clone();
            let property = self.properties[i].1.clone();
            properties.push((key, property));
            i += 1;
        }
        let r = Object {
            kind: self.kind,
            properties,
            prototype: self.prototype,
            call: self.call,
        };
        assert(r@.properties =~= self@.properties);
        r
    }
}

/// The arena that owns every object. An object is named by its index, and
/// an index, once given out, names the same object for as long as the heap
/// lives.
pub struct Heap {
    pub objects: Vec<Object>,
}

/// Mathematical model of a [`Heap`]: the objects by index.
pub type HeapView = Seq<ObjectView>;

impl View for Heap {
    type V = HeapView;

    open spec fn view(&self) -> HeapView {
        Seq::new(self.objects@.len(), |i: int| self.objects@[i]@)
    }
}

/// Validity of a heap model: every object is valid.
pub open spec fn heap_wf(h: HeapView) -> bool {
    forall|i: int| 0 <= i < h.len() ==> (#[trigger] h[i]).wf()
}

/// The object that `v` refers to, where it refers to one that the heap holds.
pub open spec fn object_of(h: HeapView, v: ValueView) -> Option<ObjectView> {
    match v.object_id() {
        Some(id) => if id < h.len() {
            Some(h[id as int])
        } else {
            None
        },
        None => None,
    }
}

/// `v` refers to an object that has an own property named `key`.
pub open spec fn has_field(h: HeapView, v: ValueView, key: Seq<char>) -> bool {
    match object_of(h, v) {
        Some(o) => o.has(key),
        None => false,
    }
}

/// The own property named `key` of the object that `v` refers to.
pub open spec fn get_property(h: HeapView, v: ValueView, key: Seq<char>) -> Option<PropertyView> {
    match object_of(h, v) {
        Some(o) => o.get(key),
        None => None,
    }
}

/// The value of the own property named `key` of the object that `v` refers
/// to; `undefined` where there is no such object or property.
pub open spec fn get_field(h: HeapView, v: ValueView, key: Seq<char>) -> ValueView {
    match get_property(h, v, key) {
        Some(p) => p.value(),
        None => ValueView::Undefined,
    }
}

/// The heap after the object that `v` refers to has been given the property
/// `property` under the name `key`; the heap itself where `v` refers to no
/// object.
pub open spec fn set_property(h: HeapView, v: ValueView, key: Seq<char>, property: PropertyView) -> HeapView {
    match object_of(h, v) {
        Some(o) => h.update(v.object_id()->0 as int, o.insert(key, property)),
        None => h,
    }
}

/// The heap after the property named `key` has been removed from the object
/// that `v` refers to.
pub open spec fn remove_property(h: HeapView, v: ValueView, key: Seq<char>) -> HeapView {
    match object_of(h, v) {
        Some(o) => h.update(v.object_id()->0 as int, o.remove(key)),
        None => h,
    }
}

/// The property that an assignment of `value` to the name `key` leaves on an
/// object: a new one with every attribute on where the object had none; the
/// old one with its value replaced where that was a writable data property;
/// else the old one.
pub open spec fn assigned_property(o: ObjectView, key: Seq<char>, value: ValueView) -> PropertyView {
    match o.get(key) {
        None => PropertyView::data(value, true, true, true),
        Some(p) => if p.writable() {
            p.with_value(value)
        } else {
            p
        },
    }
}

/// The heap after `value` has been assigned to the field `key` of the object
/// that `v` refers to.
pub open spec fn set_field(h: HeapView, v: ValueView, key: Seq<char>, value: ValueView) -> HeapView {
    match object_of(h, v) {
        Some(o) => set_property(h, v, key, assigned_property(o, key, value)),
        None => h,
    }
}

impl Heap {
    /// Validity: every object is valid.
    pub open spec fn wf(&self) -> bool {
        heap_wf(self@)
    }

    /// A heap without objects.
    pub fn new() -> (r: Self)
        ensures
            r@ == Seq::<ObjectView>::empty(),
            r.wf(),
    {
        let r = Heap { objects: Vec::new() };
        assert(r@ =~= Seq::<ObjectView>::empty());
        r
    }

    /// The number of objects.
    pub fn len(&self) -> (n: usize)
        ensures
            n == self@.len(),
    {
        self.objects.len()
    }

    /// Moves `object` into the heap and returns the index that names it from
    /// now on.
    pub fn allocate(&mut self, object: Object) -> (id: ObjectId)
        requires
            old(self).wf(),
            object.wf(),
        ensures
            final(self)@ == old(self)@.push(object@),
            id == old(self)@.len(),
            final(self).wf(),
    {
        let id = self.objects.len();
        self.objects.push(object);
        assert(self@ =~= old(self)@.push(object@));
        id
    }

    /// The object with index `id`.
    pub fn object(&self, id: ObjectId) -> (o: &Object)
        requires
            id < self@.len(),
        ensures
            o@ == self@[id as int],
    {
        &self.objects[id]
    }

    /// The index of the object that `v` refers to, where the heap holds it.
    pub fn target(&self, v: &Value) -> (r: Option<ObjectId>)
        ensures
            r is Some == object_of(self@, v@) is Some,
            r matches Some(id) ==> id < self@.len() && v@.object_id() == Some(id),
    {
        match v {
            Value::Object(id) => if *id < self.objects.len() {
                Some(*id)
            } else {
                None
            },
            Value::Function(id) => if *id < self.objects.len() {
                Some(*id)
            } else {
                None
            },
            _ => None,
        }
    }

    /// Gives the object with index `id` the property `property` under the
    /// name `key`.
    pub fn insert_property(&mut self, id: ObjectId, key: String, property: Property)
        requires
            old(self).wf(),
            id < old(self)@.len(),
        ensures
            final(self)@ == old(self)@.update(id as int, old(self)@[id as int].insert(key@, property@)),
            final(self).wf(),
    {
        let ghost before = self@;
        assert(before[id as int].wf());
        self.objects[id].insert(key, property);
        proof {
            assert(self@ =~= before.update(id as int, before[id as int].insert(key@, property@)));
            assert forall|i: int| 0 <= i < self@.len() implies (#[trigger] self@[i]).wf() by {
                if i != id {
                    assert(before[i].wf());
                }
            }
        }
    }

    /// Removes the property named `key` from the object with index `id`.
    pub fn delete_property(&mut self, id: ObjectId, key: &String)
        requires
            old(self).wf(),
            id < old(self)@.len(),
        ensures
            final(self)@ == old(self)@.update(id as int, old(self)@[id as int].remove(key@)),
            final(self).wf(),
    {
        let ghost before = self@;
        assert(before[id as int].wf());
        self.objects[id].remove(key);
        proof {
            assert(self@ =~= before.update(id as int, before[id as int].remove(key@)));
            assert forall|i: int| 0 <= i < self@.len() implies (#[trigger] self@[i]).wf() by {
                if i != id {
                    assert(before[i].wf());
                }
            }
        }
    }
}

} // verus!
