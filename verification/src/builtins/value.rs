//! The dynamic value: a tagged union over the primitives and references to
//! objects in the heap.

pub mod conversions;

use vstd::prelude::*;
use crate::builtins::bigint::BigInt;
use crate::builtins::number::{
    double_is_finite, double_is_nan, double_is_zero, double_to_i64, double_to_int32, integer_value,
    is_infinite, is_nan, is_zero, lemma_wrap32, sign_bit, to_int32, wrap32, wrap_residue,
};
use crate::text::{
    chars_of, decimal_value, digits_residue, hex16, integer_of_text, push_hex16, signed_decimal,
    signed_to_string,
};
use crate::builtins::object::{
    get_field, get_property, has_field, object_of, remove_property, set_field, set_property, Heap,
    HeapView, Object, ObjectKind, ObjectView,
};
use crate::builtins::property::Property;

verus! {

/// Index of an object in the heap that owns it.
pub type ObjectId = usize;

/// A script value.
pub enum Value {
    /// `null`
    Null,
    /// `undefined`
    Undefined,
    /// `true` or `false`
    Boolean(bool),
    /// A string of characters.
    String(String),
    /// A number, as its IEEE-754 binary64 bit pattern.
    Rational(u64),
    /// A number that is a 32-bit integer.
    Integer(i32),
    /// An arbitrary-precision integer.
    BigInt(BigInt),
    /// A reference to an object.
    Object(ObjectId),
    /// A reference to an object that can be called.
    Function(ObjectId),
    /// A symbol, named by the object that gives it its identity.
    Symbol(ObjectId),
}

/// The result of an operation that may raise a script error: the error is a
/// script value too.
pub type ResultValue = Result<Value, Value>;

/// Mathematical model of a [`Value`].
pub enum ValueView {
    Null,
    Undefined,
    Boolean(bool),
    String(Seq<char>),
    Rational(u64),
    Integer(i32),
    BigInt(int),
    Object(ObjectId),
    Function(ObjectId),
    Symbol(ObjectId),
}

impl View for Value {
    type V = ValueView;

    open spec fn view(&self) -> ValueView {
        match self {
            Value::Null => ValueView::Null,
            Value::Undefined => ValueView::Undefined,
            Value::Boolean(b) => ValueView::Boolean(*b),
            Value::String(s) => ValueView::String(s@),
            Value::Rational(bits) => ValueView::Rational(*bits),
            Value::Integer(i) => ValueView::Integer(*i),
            Value::BigInt(b) => ValueView::BigInt(b@),
            Value::Object(id) => ValueView::Object(*id),
            Value::Function(id) => ValueView::Function(*id),
            Value::Symbol(id) => ValueView::Symbol(*id),
        }
    }
}

/// The text of a number given by its bit pattern: `NaN`, `Infinity` or
/// `-Infinity`; decimal notation for an integer of at most 64 bits; for any
/// other number `0x` and the sixteen hexadecimal digits of the pattern.
pub open spec fn number_text(bits: u64) -> Seq<char> {
    if is_nan(bits) {
        "NaN"@
    } else if is_infinite(bits) {
        if sign_bit(bits) {
            "-Infinity"@
        } else {
            "Infinity"@
        }
    } else {
        match integer_value(bits) {
            Some(i) => if i64::MIN <= i <= i64::MAX {
                signed_decimal(i)
            } else {
                "0x"@ + hex16(bits)
            },
            None => "0x"@ + hex16(bits),
        }
    }
}

/// The text of a number given by its bit pattern.
pub fn number_to_string(bits: u64) -> (r: String)
    ensures
        r@ == number_text(bits),
{
    if double_is_nan(bits) {
        "NaN".to_owned()
    } else if !double_is_finite(bits) {
        if (bits >> 63) == 1 {
            "-Infinity".to_owned()
        } else {
            "Infinity".to_owned()
        }
    } else {
        match double_to_i64(bits) {
            Some(i) => signed_to_string(i),
            None => {
                let mut s = "0x".to_owned();
                push_hex16(&mut s, bits);
                s
            },
        }
    }
}

/// The text that a value is written as.
pub open spec fn display(v: ValueView) -> Seq<char> {
    match v {
        ValueView::Null => "null"@,
        ValueView::Undefined => "undefined"@,
        ValueView::Boolean(b) => if b {
            "true"@
        } else {
            "false"@
        },
        ValueView::String(s) => s,
        ValueView::Rational(bits) => number_text(bits),
        ValueView::Integer(i) => signed_decimal(i as int),
        ValueView::BigInt(i) => signed_decimal(i),
        ValueView::Object(_) => "[object Object]"@,
        ValueView::Function(_) => "[object Function]"@,
        ValueView::Symbol(_) => "Symbol()"@,
    }
}

/// The 32-bit integer that a value converts to: a number is truncated and
/// wrapped modulo 2^32, a boolean is 0 or 1, a string counts where it is a
/// decimal integer literal, and anything else is 0.
pub open spec fn to_integer(v: ValueView) -> int {
    match v {
        ValueView::Integer(i) => i as int,
        ValueView::Rational(bits) => to_int32(bits),
        ValueView::Boolean(b) => if b {
            1
        } else {
            0
        },
        ValueView::String(s) => match integer_of_text(s) {
            Some(i) => wrap32(i),
            None => 0,
        },
        ValueView::BigInt(i) => wrap32(i),
        _ => 0,
    }
}

/// The models of `values`, in order.
pub open spec fn values_view(values: Seq<Value>) -> Seq<ValueView> {
    Seq::new(values.len(), |i: int| values[i]@)
}

/// The prototype of a new object: the object that the field `prototype` of
/// the field `Object` of the global object refers to, if there is one.
pub open spec fn object_prototype(h: HeapView, global: Option<ValueView>) -> Option<ObjectId> {
    match global {
        Some(g) => {
            let prototype = get_field(h, get_field(h, g, "Object"@), "prototype"@);
            if object_of(h, prototype) is Some {
                prototype.object_id()
            } else {
                None
            }
        },
        None => None,
    }
}

/// The object that [`Value::new_object`] makes: an ordinary object without
/// properties.
pub open spec fn fresh_object(h: HeapView, global: Option<ValueView>) -> ObjectView {
    ObjectView { prototype: object_prototype(h, global), ..ObjectView::empty(ObjectKind::Ordinary) }
}

/// Strict equality: values of one kind that are the same. Two references
/// are equal where they refer to one object; numbers are compared by what
/// they are worth, so that an integer equals the binary64 of the same worth,
/// zero equals negative zero, and NaN equals nothing.
pub open spec fn strict_equals(a: ValueView, b: ValueView) -> bool {
    match (a, b) {
        (ValueView::Null, ValueView::Null) => true,
        (ValueView::Undefined, ValueView::Undefined) => true,
        (ValueView::Boolean(x), ValueView::Boolean(y)) => x == y,
        (ValueView::String(x), ValueView::String(y)) => x == y,
        (ValueView::Integer(x), ValueView::Integer(y)) => x == y,
        (ValueView::Rational(x), ValueView::Rational(y)) => !is_nan(x) && !is_nan(y) && (x == y || (
        is_zero(x) && is_zero(y))),
        (ValueView::Integer(x), ValueView::Rational(y)) => integer_value(y) == Some(x as int),
        (ValueView::Rational(x), ValueView::Integer(y)) => integer_value(x) == Some(y as int),
        (ValueView::BigInt(x), ValueView::BigInt(y)) => x == y,
        (ValueView::Object(x), ValueView::Object(y)) => x == y,
        (ValueView::Function(x), ValueView::Function(y)) => x == y,
        (ValueView::Symbol(x), ValueView::Symbol(y)) => x == y,
        _ => false,
    }
}

/// Loose equality: strict equality, and `null` equals `undefined`. No value
/// is converted to another kind.
pub open spec fn loose_equals(a: ValueView, b: ValueView) -> bool {
    strict_equals(a, b) || (a.is_null_or_undefined() && b.is_null_or_undefined())
}

impl ValueView {
    /// The value is a reference to an object that is not callable.
    pub open spec fn is_object(self) -> bool {
        self is Object
    }

    /// The value is a reference to a callable object.
    pub open spec fn is_function(self) -> bool {
        self is Function
    }

    /// The value is `null` or `undefined`.
    pub open spec fn is_null_or_undefined(self) -> bool {
        self is Null || self is Undefined
    }

    /// The heap object that the value refers to, if it refers to one.
    pub open spec fn object_id(self) -> Option<ObjectId> {
        match self {
            ValueView::Object(id) => Some(id),
            ValueView::Function(id) => Some(id),
            _ => None,
        }
    }

    /// Truthiness: what the value counts as where a boolean is asked for.
    pub open spec fn is_true(self) -> bool {
        match self {
            ValueView::Null => false,
            ValueView::Undefined => false,
            ValueView::Boolean(b) => b,
            ValueView::String(s) => s.len() > 0,
            ValueView::Rational(bits) => !is_zero(bits) && !is_nan(bits),
            ValueView::Integer(i) => i != 0,
            ValueView::BigInt(i) => i != 0,
            ValueView::Object(_) => true,
            ValueView::Function(_) => true,
            ValueView::Symbol(_) => true,
        }
    }
}

impl Value {
    /// `null`
    pub fn null() -> (r: Value)
        ensures
            r@ == ValueView::Null,
    {
        Value::Null
    }

    /// `undefined`
    pub fn undefined() -> (r: Value)
        ensures
            r@ == ValueView::Undefined,
    {
        Value::Undefined
    }

    /// A boolean.
    pub fn boolean(b: bool) -> (r: Value)
        ensures
            r@ == ValueView::Boolean(b),
    {
        Value::Boolean(b)
    }

    /// A string.
    pub fn string(s: String) -> (r: Value)
        ensures
            r@ == ValueView::String(s@),
    {
        Value::String(s)
    }

    /// A number that is a 32-bit integer.
    pub fn integer(i: i32) -> (r: Value)
        ensures
            r@ == ValueView::Integer(i),
    {
        Value::Integer(i)
    }

    /// A number, given as its IEEE-754 binary64 bit pattern.
    pub fn rational(bits: u64) -> (r: Value)
        ensures
            r@ == ValueView::Rational(bits),
    {
        Value::Rational(bits)
    }

    /// A new ordinary object without properties. Its prototype is the one
    /// that the global object holds for objects, if a global object is given
    /// and holds one.
    pub fn new_object(heap: &mut Heap, global: Option<&Value>) -> (r: Value)
        requires
            old(heap).wf(),
        ensures
            r@ == ValueView::Object(old(heap)@.len() as usize),
            final(heap)@ == old(heap)@.push(
                fresh_object(
                    old(heap)@,
                    match global {
                        Some(g) => Some(g@),
                        None => None,
                    },
                ),
            ),
            final(heap).wf(),
    {
        let mut object = Object::new(ObjectKind::Ordinary);
        if let Some(g) = global {
            let constructor = g.get_field(heap, "Object");
            let prototype = constructor.get_field(heap, "prototype");
            object.prototype = heap.target(&prototype);
        }
        assert(object@.properties =~= Seq::empty());
        Value::Object(heap.allocate(object))
    }

    /// Whether the value is a reference to an object that is not callable.
    pub fn is_object(&self) -> (r: bool)
        ensures
            r == self@.is_object(),
    {
        match self {
            Value::Object(_) => true,
            _ => false,
        }
    }

    /// Whether the value is a reference to a callable object.
    pub fn is_function(&self) -> (r: bool)
        ensures
            r == self@.is_function(),
    {
        match self {
            Value::Function(_) => true,
            _ => false,
        }
    }

    /// Whether the value is `undefined`.
    pub fn is_undefined(&self) -> (r: bool)
        ensures
            r == (self@ is Undefined),
    {
        match self {
            Value::Undefined => true,
            _ => false,
        }
    }

    /// Whether the value is a symbol.
    pub fn is_symbol(&self) -> (r: bool)
        ensures
            r == (self@ is Symbol),
    {
        match self {
            Value::Symbol(_) => true,
            _ => false,
        }
    }

    /// Whether the value is `null` or `undefined`.
    pub fn is_null_or_undefined(&self) -> (r: bool)
        ensures
            r == self@.is_null_or_undefined(),
    {
        match self {
            Value::Null => true,
            Value::Undefined => true,
            _ => false,
        }
    }

    /// Truthiness: `undefined`, `null`, `false`, zero, NaN and the empty
    /// string count as false, everything else as true.
    pub fn is_true(&self) -> (r: bool)
        ensures
            r == self@.is_true(),
    {
        match self {
            Value::Null => false,
            Value::Undefined => false,
            Value::Boolean(b) => *b,
            Value::String(s) => !s.as_str().is_empty(),
            Value::Rational(bits) => !double_is_zero(*bits) && !double_is_nan(*bits),
            Value::Integer(i) => *i != 0,
            Value::BigInt(b) => !b.is_zero(),
            Value::Object(_) => true,
            Value::Function(_) => true,
            Value::Symbol(_) => true,
        }
    }

    /// Strict equality with another value.
    pub fn strict_equals(&self, other: &Value) -> (r: bool)
        ensures
            r == strict_equals(self@, other@),
    {
        match (self, other) {
            (Value::Null, Value::Null) => true,
            (Value::Undefined, Value::Undefined) => true,
            (Value::Boolean(x), Value::Boolean(y)) => *x == *y,
            (Value::String(x), Value::String(y)) => *x == *y,
            (Value::Integer(x), Value::Integer(y)) => *x == *y,
            (Value::Rational(x), Value::Rational(y)) => !double_is_nan(*x) && !double_is_nan(*y)
                && (*x == *y || (double_is_zero(*x) && double_is_zero(*y))),
            (Value::Integer(x), Value::Rational(y)) => match double_to_i64(*y) {
                Some(i) => i == *x as i64,
                None => false,
            },
            (Value::Rational(x), Value::Integer(y)) => match double_to_i64(*x) {
                Some(i) => i == *y as i64,
                None => false,
            },
            (Value::BigInt(x), Value::BigInt(y)) => x.equals(y),
            (Value::Object(x), Value::Object(y)) => *x == *y,
            (Value::Function(x), Value::Function(y)) => *x == *y,
            (Value::Symbol(x), Value::Symbol(y)) => *x == *y,
            _ => false,
        }
    }

    /// Loose equality with another value.
    pub fn loose_equals(&self, other: &Value) -> (r: bool)
        ensures
            r == loose_equals(self@, other@),
    {
        self.strict_equals(other) || (self.is_null_or_undefined() && other.is_null_or_undefined())
    }

    /// The text that the value is written as.
    pub fn to_string(&self) -> (r: String)
        ensures
            r@ == display(self@),
    {
        match self {
            Value::Null => "null".to_owned(),
            Value::Undefined => "undefined".to_owned(),
            Value::Boolean(b) => if *b {
                "true".to_owned()
            } else {
                "false".to_owned()
            },
            Value::String(s) => s.clone(),
            Value::Rational(bits) => number_to_string(*bits),
            Value::Integer(i) => signed_to_string(*i as i64),
            Value::BigInt(b) => b.to_string(),
            Value::Object(_) => "[object Object]".to_owned(),
            Value::Function(_) => "[object Function]".to_owned(),
            Value::Symbol(_) => "Symbol()".to_owned(),
        }
    }

    /// The 32-bit integer that the value converts to.
    pub fn to_integer(&self) -> (r: i32)
        ensures
            r == to_integer(self@),
    {
        match self {
            Value::Integer(i) => *i,
            Value::Rational(bits) => double_to_int32(*bits),
            Value::Boolean(b) => if *b {
                1
            } else {
                0
            },
            Value::String(s) => {
                let chars = chars_of(s.as_str());
                let signed = chars.len() > 0 && (chars[0] == '-' || chars[0] == '+');
                let negative = chars.len() > 0 && chars[0] == '-';
                let start: usize = if signed {
                    1
                } else {
                    0
                };
                proof {
                    assert(chars@.skip(0) =~= chars@);
                    lemma_wrap32(negative, decimal_value(chars@.skip(start as int)));
                }
                match digits_residue(&chars, start) {
                    Some(low) => wrap_residue(negative, low),
                    None => 0,
                }
            },
            Value::BigInt(b) => b.to_int32(),
            _ => 0,
        }
    }

    /// Whether the value refers to an object with an own property `name`.
    pub fn has_field(&self, heap: &Heap, name: &str) -> (r: bool)
        ensures
            r == has_field(heap@, self@, name@),
    {
        match heap.target(self) {
            Some(id) => {
                let key = name.to_owned();
                heap.object(id).has_property(&key)
            },
            None => false,
        }
    }

    /// The own property `name` of the object that the value refers to.
    pub fn get_property(&self, heap: &Heap, name: &str) -> (r: Option<Property>)
        requires
            heap.wf(),
        ensures
            r is Some == get_property(heap@, self@, name@) is Some,
            r matches Some(p) ==> get_property(heap@, self@, name@) == Some(p@),
    {
        match heap.target(self) {
            Some(id) => {
                let key = name.to_owned();
                assert(heap@[id as int].wf());
                heap.object(id).get_property(&key)
            },
            None => None,
        }
    }

    /// The value of the own property `name` of the object that the value
    /// refers to; `undefined` where there is no such object or property, or
    /// where the property is an accessor.
    pub fn get_field(&self, heap: &Heap, name: &str) -> (r: Value)
        requires
            heap.wf(),
        ensures
            r@ == get_field(heap@, self@, name@),
    {
        match self.get_property(heap, name) {
            Some(p) => p.stored_value(),
            None => Value::Undefined,
        }
    }

    /// Gives the object that the value refers to the property `property`
    /// under the name `name`. Nothing changes where the value refers to no
    /// object.
    pub fn set_property(&self, heap: &mut Heap, name: String, property: Property)
        requires
            old(heap).wf(),
        ensures
            final(heap)@ == set_property(old(heap)@, self@, name@, property@),
            final(heap).wf(),
    {
        match heap.target(self) {
            Some(id) => {
                heap.insert_property(id, name, property);
            },
            None => {},
        }
    }

    /// Removes the property `name` from the object that the value refers to.
    pub fn remove_property(&self, heap: &mut Heap, name: &str)
        requires
            old(heap).wf(),
        ensures
            final(heap)@ == remove_property(old(heap)@, self@, name@),
            final(heap).wf(),
    {
        match heap.target(self) {
            Some(id) => {
                let key = name.to_owned();
                heap.delete_property(id, &key);
            },
            None => {},
        }
    }

    /// Assigns `value` to the field `name` of the object that the value
    /// refers to: a new field gets every attribute on, a writable data
    /// property gets the new value, and any other property stays as it is.
    pub fn set_field(&self, heap: &mut Heap, name: String, value: Value)
        requires
            old(heap).wf(),
        ensures
            final(heap)@ == set_field(old(heap)@, self@, name@, value@),
            final(heap).wf(),
    {
        match heap.target(self) {
            Some(id) => {
                assert(heap@[id as int].wf());
                let property = match heap.object(id).get_property(&name) {
                    None => Property::data(value, true, true, true),
                    Some(p) => if p.is_writable() {
                        p.value(value)
                    } else {
                        p
                    },
                };
                heap.insert_property(id, name, property);
            },
            None => {},
        }
    }
}

impl Clone for Value {
    fn clone(&self) -> (r: Self)
        ensures
            r@ == self@,
    {
        match self {
            Value::Null => Value::Null,
            Value::Undefined => Value::Undefined,
            Value::Boolean(b) => Value::Boolean(*b),
            Value::String(s) => Value::String(s.clone()),
            Value::Rational(bits) => Value::Rational(*bits),
            Value::Integer(i) => Value::Integer(*i),
            Value::BigInt(b) => Value::BigInt(b.clone()),
            Value::Object(id) => Value::Object(*id),
            Value::Function(id) => Value::Function(*id),
            Value::Symbol(id) => Value::Symbol(*id),
        }
    }
}

} // verus!
