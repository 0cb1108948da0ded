//! Conversions between host values and script values.

use vstd::prelude::*;
use crate::builtins::json::tree::{
    array_object, json_to_value, length_key, value_to_json, Json, JsonView, MAX_ARRAY_LENGTH,
};
use crate::builtins::number::{wrap32, wrap_residue, lemma_wrap32};
use crate::builtins::object::{get_field, Heap, HeapView, Object, ObjectView};
use crate::builtins::value::{display, to_integer, values_view, Value, ValueView};
use crate::text::{decimal, unsigned_to_string};

verus! {

/// Conversion of a host value to a script value.
pub trait ToValue {
    /// What the conversion asks of the host value.
    spec fn convertible(&self) -> bool;

    /// The heap after the conversion, and the script value.
    spec fn to_value_spec(&self, h: HeapView) -> (HeapView, ValueView);

    /// Converts the host value to a script value. A value that needs an
    /// object gets a new one in the heap.
    fn to_value(&self, heap: &mut Heap) -> (v: Value)
        requires
            old(heap).wf(),
            self.convertible(),
        ensures
            (final(heap)@, v@) == self.to_value_spec(old(heap)@),
            final(heap).wf(),
    ;
}

/// Conversion of a script value to a host value.
pub trait FromValue: Sized + DeepView {
    /// The host value that the script value converts to, or the message of
    /// the conversion error.
    spec fn from_value_spec(v: ValueView, h: HeapView) -> Result<Self::V, Seq<char>>;

    /// Converts the script value to a host value.
    fn from_value(value: Value, heap: &Heap) -> (r: Result<Self, &'static str>)
        requires
            heap.wf(),
        ensures
            match r {
                Ok(x) => Self::from_value_spec(value@, heap@) == Ok::<Self::V, Seq<char>>(
                    x.deep_view(),
                ),
                Err(e) => Self::from_value_spec(value@, heap@) == Err::<Self::V, Seq<char>>(e@),
            },
    ;
}

impl DeepView for Value {
    type V = ValueView;

    open spec fn deep_view(&self) -> ValueView {
        self@
    }
}

impl DeepView for Object {
    type V = ObjectView;

    open spec fn deep_view(&self) -> ObjectView {
        self@
    }
}

impl DeepView for Json {
    type V = JsonView;

    open spec fn deep_view(&self) -> JsonView {
        self@
    }
}

impl ToValue for Value {
    open spec fn convertible(&self) -> bool {
        true
    }

    open spec fn to_value_spec(&self, h: HeapView) -> (HeapView, ValueView) {
        (h, self@)
    }

    fn to_value(&self, heap: &mut Heap) -> (v: Value) {
        self.clone()
    }
}

impl FromValue for Value {
    open spec fn from_value_spec(v: ValueView, h: HeapView) -> Result<ValueView, Seq<char>> {
        Ok(v)
    }

    fn from_value(value: Value, heap: &Heap) -> (r: Result<Self, &'static str>) {
        Ok(value)
    }
}

impl ToValue for String {
    open spec fn convertible(&self) -> bool {
        true
    }

    open spec fn to_value_spec(&self, h: HeapView) -> (HeapView, ValueView) {
        (h, ValueView::String(self@))
    }

    fn to_value(&self, heap: &mut Heap) -> (v: Value) {
        Value::string(self.clone())
    }
}

impl FromValue for String {
    open spec fn from_value_spec(v: ValueView, h: HeapView) -> Result<Seq<char>, Seq<char>> {
        Ok(display(v))
    }

    fn from_value(value: Value, heap: &Heap) -> (r: Result<Self, &'static str>) {
        Ok(value.to_string())
    }
}

impl<'s> ToValue for &'s str {
    open spec fn convertible(&self) -> bool {
        true
    }

    open spec fn to_value_spec(&self, h: HeapView) -> (HeapView, ValueView) {
        (h, ValueView::String(self@))
    }

    fn to_value(&self, heap: &mut Heap) -> (v: Value) {
        Value::string((*self).to_owned())
    }
}

impl ToValue for char {
    open spec fn convertible(&self) -> bool {
        true
    }

    open spec fn to_value_spec(&self, h: HeapView) -> (HeapView, ValueView) {
        (h, ValueView::String(seq![*self]))
    }

    fn to_value(&self, heap: &mut Heap) -> (v: Value) {
        let mut s = String::new();
        s.push(*self);
        assert(s@ =~= seq![*self]);
        Value::string(s)
    }
}

/// The message of the error for a text without a first character.
pub open spec fn no_char_message() -> Seq<char> {
    "Could not get next char"@
}

impl FromValue for char {
    /// The first character of the text that the value is written as.
    open spec fn from_value_spec(v: ValueView, h: HeapView) -> Result<char, Seq<char>> {
        if display(v).len() > 0 {
            Ok(display(v)[0])
        } else {
            Err(no_char_message())
        }
    }

    fn from_value(value: Value, heap: &Heap) -> (r: Result<Self, &'static str>) {
        let text = value.to_string();
        if text.as_str().unicode_len() > 0 {
            Ok(text.as_str().get_char(0))
        } else {
            Err("Could not get next char")
        }
    }
}

impl ToValue for i32 {
    open spec fn convertible(&self) -> bool {
        true
    }

    open spec fn to_value_spec(&self, h: HeapView) -> (HeapView, ValueView) {
        (h, ValueView::Integer(*self))
    }

    fn to_value(&self, heap: &mut Heap) -> (v: Value) {
        Value::integer(*self)
    }
}

impl FromValue for i32 {
    open spec fn from_value_spec(v: ValueView, h: HeapView) -> Result<i32, Seq<char>> {
        Ok(to_integer(v) as i32)
    }

    fn from_value(value: Value, heap: &Heap) -> (r: Result<Self, &'static str>) {
        Ok(value.to_integer())
    }
}

impl ToValue for usize {
    open spec fn convertible(&self) -> bool {
        true
    }

    /// The 32-bit integer with the same low 32 bits.
    open spec fn to_value_spec(&self, h: HeapView) -> (HeapView, ValueView) {
        (h, ValueView::Integer(wrap32(*self as int) as i32))
    }

    fn to_value(&self, heap: &mut Heap) -> (v: Value) {
        let low: u64 = (*self as u64) % 0x1_0000_0000;
        proof {
            lemma_wrap32(false, *self as nat);
        }
        Value::integer(wrap_residue(false, low))
    }
}

impl FromValue for usize {
    /// The value as a 32-bit integer, read as unsigned.
    open spec fn from_value_spec(v: ValueView, h: HeapView) -> Result<usize, Seq<char>> {
        Ok((to_integer(v) % 0x1_0000_0000) as usize)
    }

    fn from_value(value: Value, heap: &Heap) -> (r: Result<Self, &'static str>) {
        let i = value.to_integer();
        if i >= 0 {
            Ok(i as usize)
        } else {
            Ok((i as i64 + 0x1_0000_0000) as usize)
        }
    }
}

impl ToValue for bool {
    open spec fn convertible(&self) -> bool {
        true
    }

    open spec fn to_value_spec(&self, h: HeapView) -> (HeapView, ValueView) {
        (h, ValueView::Boolean(*self))
    }

    fn to_value(&self, heap: &mut Heap) -> (v: Value) {
        Value::boolean(*self)
    }
}

impl FromValue for bool {
    /// Truthiness.
    open spec fn from_value_spec(v: ValueView, h: HeapView) -> Result<bool, Seq<char>> {
        Ok(v.is_true())
    }

    fn from_value(value: Value, heap: &Heap) -> (r: Result<Self, &'static str>) {
        Ok(value.is_true())
    }
}

/// The script values of `items`, made one after the other, and the heap
/// afterwards.
pub open spec fn sequence_to_values<T: ToValue>(h: HeapView, items: Seq<T>) -> (
    HeapView,
    Seq<ValueView>,
)
    decreases items.len(),
{
    if items.len() == 0 {
        (h, Seq::empty())
    } else {
        let (h1, front) = sequence_to_values(h, items.drop_last());
        let (h2, v) = items.last().to_value_spec(h1);
        (h2, front.push(v))
    }
}

/// The array object that holds the script values of `items`, and the heap
/// afterwards: the items are converted first, then the array is made.
pub open spec fn sequence_to_value<T: ToValue>(h: HeapView, items: Seq<T>) -> (HeapView, ValueView) {
    let (h1, values) = sequence_to_values(h, items);
    (h1.push(array_object(values)), ValueView::Object(h1.len() as usize))
}

/// A sequence can be converted where it is no longer than a script array
/// can be and each of its items can be converted.
pub open spec fn sequence_convertible<T: ToValue>(items: Seq<T>) -> bool {
    &&& items.len() <= MAX_ARRAY_LENGTH
    &&& forall|i: int| 0 <= i < items.len() ==> (#[trigger] items[i]).convertible()
}

/// Converts a sequence of host values to an array object.
pub fn slice_to_value<T: ToValue>(items: &[T], heap: &mut Heap) -> (v: Value)
    requires
        old(heap).wf(),
        sequence_convertible(items@),
    ensures
        (final(heap)@, v@) == sequence_to_value(old(heap)@, items@),
        final(heap).wf(),
{
    let n = items.len();
    let mut values: Vec<Value> = Vec::new();
    let mut i: usize = 0;
    proof {
        assert(items@.take(0) =~= Seq::empty());
        assert(values_view(values@) =~= Seq::empty());
    }
    while i < n
        invariant
            i <= n,
            n == items@.len(),
            heap.wf(),
            sequence_convertible(items@),
            values@.len() == i,
            sequence_to_values(old(heap)@, items@.take(i as int)) == (heap@, values_view(values@)),
        decreases n - i,
    {
        proof {
            assert(items@.take(i + 1).drop_last() =~= items@.take(i as int));
            assert(items@.take(i + 1).last() == items@[i as int]);
        }
        let ghost before = values_view(values@);
        let v = items[i].to_value(heap);
        values.push(v);
        i += 1;
        assert(values_view(values@) =~= before.push(v@));
    }
    assert(items@.take(n as int) =~= items@);
    Value::array_from(&values, heap)
}

impl<'s, T: ToValue> ToValue for &'s [T] {
    open spec fn convertible(&self) -> bool {
        sequence_convertible(self@)
    }

    open spec fn to_value_spec(&self, h: HeapView) -> (HeapView, ValueView) {
        sequence_to_value(h, self@)
    }

    fn to_value(&self, heap: &mut Heap) -> (v: Value) {
        slice_to_value(*self, heap)
    }
}

impl<T: ToValue> ToValue for Vec<T> {
    open spec fn convertible(&self) -> bool {
        sequence_convertible(self@)
    }

    open spec fn to_value_spec(&self, h: HeapView) -> (HeapView, ValueView) {
        sequence_to_value(h, self@)
    }

    fn to_value(&self, heap: &mut Heap) -> (v: Value) {
        slice_to_value(self.as_slice(), heap)
    }
}

/// The host values of the first `n` elements of the array that `v` refers
/// to: element `i` is read from the field whose name is `i` in decimal
/// notation. The first element that cannot be converted gives its error.
pub open spec fn elements_from<T: FromValue>(h: HeapView, v: ValueView, n: nat) -> Result<
    Seq<T::V>,
    Seq<char>,
>
    decreases n,
{
    if n == 0 {
        Ok(Seq::empty())
    } else {
        match elements_from::<T>(h, v, (n - 1) as nat) {
            Err(e) => Err(e),
            Ok(front) => match T::from_value_spec(get_field(h, v, decimal((n - 1) as nat)), h) {
                Err(e) => Err(e),
                Ok(x) => Ok(front.push(x)),
            },
        }
    }
}

/// The number of elements that a conversion to a sequence reads: the field
/// `length` as a 32-bit integer, or none where that is negative.
pub open spec fn length_of(h: HeapView, v: ValueView) -> nat {
    let n = to_integer(get_field(h, v, length_key()));
    if n > 0 {
        n as nat
    } else {
        0
    }
}

/// An error among the first `k` elements is the error of any longer prefix.
pub proof fn lemma_elements_error<T: FromValue>(h: HeapView, v: ValueView, k: nat, n: nat)
    requires
        k <= n,
        elements_from::<T>(h, v, k) is Err,
    ensures
        elements_from::<T>(h, v, n) == elements_from::<T>(h, v, k),
    decreases n - k,
{
    if k < n {
        lemma_elements_error::<T>(h, v, k, (n - 1) as nat);
    }
}

impl<T: FromValue> FromValue for Vec<T> {
    /// The elements are read by index, as many as the field `length` says.
    /// Fields that are not indices are not read, and an index without a
    /// field reads as `undefined`.
    open spec fn from_value_spec(v: ValueView, h: HeapView) -> Result<Seq<T::V>, Seq<char>> {
        elements_from::<T>(h, v, length_of(h, v))
    }

    #[verifier::loop_isolation(false)]
    fn from_value(value: Value, heap: &Heap) -> (r: Result<Self, &'static str>) {
        proof {
            reveal_strlit("length");
            assert("length"@ =~= length_key());
        }
        let len = value.get_field(heap, "length").to_integer();
        let mut vec: Vec<T> = Vec::new();
        let mut i: i32 = 0;
        assert(vec.deep_view() =~= Seq::empty());
        while i < len
            invariant
                0 <= i,
                i <= len || (len < 0 && i == 0),
                heap.wf(),
                elements_from::<T>(heap@, value@, i as nat) == Ok::<Seq<T::V>, Seq<char>>(
                    vec.deep_view(),
                ),
            decreases len - i,
        {
            let key = unsigned_to_string(i as u64);
            let element = value.get_field(heap, key.as_str());
            match T::from_value(element, heap) {
                Ok(x) => {
                    let ghost before = vec.deep_view();
                    vec.push(x);
                    assert(vec.deep_view() =~= before.push(x.deep_view()));
                },
                Err(e) => {
                    proof {
                        assert(elements_from::<T>(heap@, value@, (i + 1) as nat) == Err::<
                            Seq<T::V>,
                            Seq<char>,
                        >(e@));
                        lemma_elements_error::<T>(
                            heap@,
                            value@,
                            (i + 1) as nat,
                            length_of(heap@, value@),
                        );
                    }
                    return Err(e);
                },
            }
            i += 1;
        }
        assert(i as nat == length_of(heap@, value@));
        Ok(vec)
    }
}

impl ToValue for Object {
    open spec fn convertible(&self) -> bool {
        self.wf()
    }

    /// A copy of the object is added to the heap.
    open spec fn to_value_spec(&self, h: HeapView) -> (HeapView, ValueView) {
        (h.push(self@), ValueView::Object(h.len() as usize))
    }

    fn to_value(&self, heap: &mut Heap) -> (v: Value) {
        Value::Object(heap.allocate(self.clone()))
    }
}

/// The message of the error for a value that is not a reference to an
/// object.
pub open spec fn not_an_object_message() -> Seq<char> {
    "Value is not a valid object"@
}

impl FromValue for Object {
    /// A copy of the object that the value refers to.
    open spec fn from_value_spec(v: ValueView, h: HeapView) -> Result<ObjectView, Seq<char>> {
        match v {
            ValueView::Object(id) => if id < h.len() {
                Ok(h[id as int])
            } else {
                Err(not_an_object_message())
            },
            _ => Err(not_an_object_message()),
        }
    }

    fn from_value(value: Value, heap: &Heap) -> (r: Result<Self, &'static str>) {
        match value {
            Value::Object(id) => if id < heap.len() {
                Ok(heap.object(id).clone())
            } else {
                Err("Value is not a valid object")
            },
            _ => Err("Value is not a valid object"),
        }
    }
}

impl ToValue for Json {
    open spec fn convertible(&self) -> bool {
        self@.wf() && self@.fits()
    }

    open spec fn to_value_spec(&self, h: HeapView) -> (HeapView, ValueView) {
        json_to_value(h, self@)
    }

    fn to_value(&self, heap: &mut Heap) -> (v: Value) {
        Value::from_json(self, heap)
    }
}

impl FromValue for Json {
    open spec fn from_value_spec(v: ValueView, h: HeapView) -> Result<JsonView, Seq<char>> {
        match value_to_json(h, v, h.len()) {
            Ok(j) => Ok(j),
            Err(e) => Err(crate::builtins::json::tree_error_message(e)),
        }
    }

    fn from_value(value: Value, heap: &Heap) -> (r: Result<Self, &'static str>) {
        match value.to_json(heap) {
            Ok(j) => Ok(j),
            Err(e) => Err(e.message()),
        }
    }
}

impl ToValue for () {
    open spec fn convertible(&self) -> bool {
        true
    }

    open spec fn to_value_spec(&self, h: HeapView) -> (HeapView, ValueView) {
        (h, ValueView::Null)
    }

    fn to_value(&self, heap: &mut Heap) -> (v: Value) {
        Value::null()
    }
}

impl FromValue for () {
    open spec fn from_value_spec(v: ValueView, h: HeapView) -> Result<(), Seq<char>> {
        Ok(())
    }

    fn from_value(value: Value, heap: &Heap) -> (r: Result<Self, &'static str>) {
        Ok(())
    }
}

impl<T: ToValue> ToValue for Option<T> {
    open spec fn convertible(&self) -> bool {
        match self {
            Some(v) => v.convertible(),
            None => true,
        }
    }

    open spec fn to_value_spec(&self, h: HeapView) -> (HeapView, ValueView) {
        match self {
            Some(v) => v.to_value_spec(h),
            None => (h, ValueView::Null),
        }
    }

    fn to_value(&self, heap: &mut Heap) -> (v: Value) {
        match self {
            Some(v) => v.to_value(heap),
            None => Value::null(),
        }
    }
}

impl<T: FromValue> FromValue for Option<T> {
    open spec fn from_value_spec(v: ValueView, h: HeapView) -> Result<Option<T::V>, Seq<char>> {
        if v.is_null_or_undefined() {
            Ok(None)
        } else {
            match T::from_value_spec(v, h) {
                Ok(x) => Ok(Some(x)),
                Err(e) => Err(e),
            }
        }
    }

    fn from_value(value: Value, heap: &Heap) -> (r: Result<Self, &'static str>) {
        if value.is_null_or_undefined() {
            Ok(None)
        } else {
            match T::from_value(value, heap) {
                Ok(x) => Ok(Some(x)),
                Err(e) => Err(e),
            }
        }
    }
}

/// A host value that is converted to a script value and back is the same
/// value.
pub open spec fn round_trips<T: ToValue + FromValue>(x: T, h: HeapView) -> bool {
    T::from_value_spec(x.to_value_spec(h).1, x.to_value_spec(h).0) == Ok::<T::V, Seq<char>>(
        x.deep_view(),
    )
}

/// Every string is converted to a script value and back to itself.
pub proof fn law_string_round_trip(x: String, h: HeapView)
    ensures
        round_trips(x, h),
{
}

/// Every boolean is converted to a script value and back to itself.
pub proof fn law_bool_round_trip(x: bool, h: HeapView)
    ensures
        round_trips(x, h),
{
}

/// Every 32-bit integer is converted to a script value and back to itself.
pub proof fn law_i32_round_trip(x: i32, h: HeapView)
    ensures
        round_trips(x, h),
{
}

/// A `usize` that a 32-bit integer can hold is converted to a script value
/// and back to itself.
pub proof fn law_usize_round_trip(x: usize, h: HeapView)
    requires
        x <= i32::MAX,
    ensures
        round_trips(x, h),
{
}

/// The unit value is converted to a script value and back to itself.
pub proof fn law_unit_round_trip(h: HeapView)
    ensures
        round_trips((), h),
{
}

/// Every character is converted to a script value and back to itself.
pub proof fn law_char_round_trip(x: char, h: HeapView)
    ensures
        round_trips(x, h),
{
}

/// An optional value is converted to a script value and back to itself
/// where the value inside is, and is not converted to `null` or
/// `undefined`.
pub proof fn law_option_round_trip<T: ToValue + FromValue>(x: Option<T>, h: HeapView)
    requires
        x matches Some(t) ==> round_trips(t, h) && !t.to_value_spec(h).1.is_null_or_undefined(),
    ensures
        round_trips(x, h),
{
}

/// Converts a script value to a host value.
pub fn from_value<A: FromValue>(v: Value, heap: &Heap) -> (r: Result<A, &'static str>)
    requires
        heap.wf(),
    ensures
        match r {
            Ok(x) => A::from_value_spec(v@, heap@) == Ok::<A::V, Seq<char>>(x.deep_view()),
            Err(e) => A::from_value_spec(v@, heap@) == Err::<A::V, Seq<char>>(e@),
        },
{
    FromValue::from_value(v, heap)
}

/// Converts a host value to a script value.
pub fn to_value<A: ToValue>(v: A, heap: &mut Heap) -> (r: Value)
    requires
        old(heap).wf(),
        v.convertible(),
    ensures
        (final(heap)@, r@) == v.to_value_spec(old(heap)@),
        final(heap).wf(),
{
    v.to_value(heap)
}

} // verus!
