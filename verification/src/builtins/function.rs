//! Function objects of the runtime's own functions.

use vstd::prelude::*;
use crate::builtins::object::{
    set_field, Callable, Heap, HeapView, NativeFunction, Object, ObjectKind, ObjectView,
};
use crate::builtins::property::{Property, PropertyView};
use crate::builtins::value::{Value, ValueView};

verus! {

/// The function object of a native function that takes `length` arguments:
/// its only property is `length`, which is configurable and neither writable
/// nor enumerable.
pub open spec fn function_object(native: NativeFunction, length: i32) -> ObjectView {
    ObjectView {
        kind: ObjectKind::Function,
        properties: seq![
            ("length"@, PropertyView::data(ValueView::Integer(length), false, false, true)),
        ],
        prototype: None,
        call: Some(Callable::Native(native)),
    }
}

/// The heap after a new function object for `native` has been assigned to
/// the field `name` of `parent`.
pub open spec fn builtin_installed(
    h: HeapView,
    parent: ValueView,
    native: NativeFunction,
    name: Seq<char>,
    length: i32,
) -> HeapView {
    set_field(
        h.push(function_object(native, length)),
        parent,
        name,
        ValueView::Function(h.len() as usize),
    )
}

/// Makes a function object for the native function `native` and assigns it
/// to the field `name` of `parent`.
pub fn make_builtin_fn(native: NativeFunction, name: &str, parent: &Value, length: i32, heap: &mut Heap)
    requires
        old(heap).wf(),
    ensures
        final(heap)@ == builtin_installed(old(heap)@, parent@, native, name@, length),
        final(heap).wf(),
{
    let mut object = Object::new(ObjectKind::Function);
    object.call = Some(Callable::Native(native));
    object.properties.push(
        ("length".to_owned(), Property::data(Value::Integer(length), false, false, true)),
    );
    assert(object@.properties =~= function_object(native, length).properties);
    let id = heap.allocate(object);
    parent.set_field(heap, name.to_owned(), Value::Function(id));
}

} // verus!
