//! JSON trees, and the structural mapping between them and script values.

use vstd::prelude::*;
use crate::builtins::number::{double_is_finite, is_finite};
use crate::builtins::object::{
    heap_wf, keys_distinct, properties_view, Heap, HeapView, Object, ObjectKind, ObjectView,
    PropertiesView,
};
use crate::builtins::property::{Property, PropertyView};
use crate::builtins::value::{values_view, Value, ValueView};
use crate::text::{decimal, lemma_decimal, lemma_decimal_injective, unsigned_to_string};

verus! {

broadcast use vstd::std_specs::vec::axiom_vec_index_decreases;

/// A JSON value.
pub enum Json {
    Null,
    Bool(bool),
    /// A number that is a 32-bit integer.
    Integer(i32),
    /// Any other number, as its IEEE-754 binary64 bit pattern; always finite.
    Rational(u64),
    String(String),
    Array(Vec<Json>),
    /// The members in order. No name occurs twice.
    Object(Vec<(String, Json)>),
}

/// Mathematical model of a [`Json`] value.
pub enum JsonView {
    Null,
    Bool(bool),
    Integer(i32),
    Rational(u64),
    String(Seq<char>),
    Array(Seq<JsonView>),
    Object(Seq<(Seq<char>, JsonView)>),
}

/// The model of a JSON value.
pub open spec fn json_model(j: Json) -> JsonView
    decreases j, 0nat,
{
    match j {
        Json::Null => JsonView::Null,
        Json::Bool(b) => JsonView::Bool(b),
        Json::Integer(i) => JsonView::Integer(i),
        Json::Rational(bits) => JsonView::Rational(bits),
        Json::String(s) => JsonView::String(s@),
        Json::Array(items) => JsonView::Array(items_models(items@)),
        Json::Object(members) => JsonView::Object(members_models(members@)),
    }
}

/// The models of `items`, in order.
pub open spec fn items_models(items: Seq<Json>) -> Seq<JsonView>
    decreases items, 1nat,
{
    if items.len() == 0 {
        Seq::empty()
    } else {
        items_models(items.drop_last()).push(json_model(items.last()))
    }
}

/// The names and models of `members`, in order.
pub open spec fn members_models(members: Seq<(String, Json)>) -> Seq<(Seq<char>, JsonView)>
    decreases members, 1nat,
{
    if members.len() == 0 {
        Seq::empty()
    } else {
        members_models(members.drop_last()).push(
            (members.last().0@, json_model(members.last().1)),
        )
    }
}

impl View for Json {
    type V = JsonView;

    open spec fn view(&self) -> JsonView {
        json_model(*self)
    }
}

/// The longest array that a script value can hold: the length of an array
/// is a 32-bit integer.
pub const MAX_ARRAY_LENGTH: usize = 0x7fff_ffff;

/// No member name occurs twice.
pub open spec fn names_distinct(members: Seq<(Seq<char>, JsonView)>) -> bool {
    forall|i: int, j: int|
        0 <= i < j < members.len() ==> (#[trigger] members[i]).0 != (#[trigger] members[j]).0
}

impl JsonView {
    /// No array is longer than [`MAX_ARRAY_LENGTH`].
    pub open spec fn fits(self) -> bool
        decreases self,
    {
        match self {
            JsonView::Array(items) => {
                &&& items.len() <= MAX_ARRAY_LENGTH
                &&& forall|i: int| 0 <= i < items.len() ==> (#[trigger] items[i]).fits()
            },
            JsonView::Object(members) => forall|i: int|
                0 <= i < members.len() ==> (#[trigger] members[i]).1.fits(),
            _ => true,
        }
    }

    /// Validity: numbers are finite, and no object has two members of one
    /// name.
    pub open spec fn wf(self) -> bool
        decreases self,
    {
        match self {
            JsonView::Rational(bits) => is_finite(bits),
            JsonView::Array(items) => forall|i: int|
                0 <= i < items.len() ==> (#[trigger] items[i]).wf(),
            JsonView::Object(members) => {
                &&& names_distinct(members)
                &&& forall|i: int| 0 <= i < members.len() ==> (#[trigger] members[i]).1.wf()
            },
            _ => true,
        }
    }

    /// Nesting depth: 0 for a value that is neither an array nor an object.
    pub open spec fn height(self) -> nat
        decreases self,
    {
        match self {
            JsonView::Array(items) => 1 + items_height(items),
            JsonView::Object(members) => 1 + members_height(members),
            _ => 0,
        }
    }
}

/// The greatest nesting depth among `items`.
pub open spec fn items_height(items: Seq<JsonView>) -> nat
    decreases items,
{
    if items.len() == 0 {
        0
    } else {
        let front = items_height(items.drop_last());
        let last = items.last().height();
        if front >= last {
            front
        } else {
            last
        }
    }
}

/// The greatest nesting depth among the values of `members`.
pub open spec fn members_height(members: Seq<(Seq<char>, JsonView)>) -> nat
    decreases members,
{
    if members.len() == 0 {
        0
    } else {
        let front = members_height(members.drop_last());
        let last = members.last().1.height();
        if front >= last {
            front
        } else {
            last
        }
    }
}

/// Why a script value has no JSON tree.
#[derive(Clone, Copy, Debug, PartialEq, Eq, Structural)]
pub enum JsonError {
    /// The value contains itself.
    Cyclic,
    /// The value contains an arbitrary-precision integer.
    BigInt,
}

/// The name `length`.
pub open spec fn length_key() -> Seq<char> {
    seq!['l', 'e', 'n', 'g', 't', 'h']
}

/// The property that holds an element or a member that came from a JSON
/// tree: a data property with every attribute on.
pub open spec fn member_property(v: ValueView) -> PropertyView {
    PropertyView::data(v, true, true, true)
}

/// The `length` property of an array of `n` elements: writable, neither
/// enumerable nor configurable.
pub open spec fn length_property(n: nat) -> PropertyView {
    PropertyView::data(ValueView::Integer(n as i32), true, false, false)
}

/// The array object that holds `values`: one property per element under its
/// index in decimal notation, then `length`.
pub open spec fn array_object(values: Seq<ValueView>) -> ObjectView {
    ObjectView {
        properties: Seq::new(
            values.len() + 1,
            |i: int|
                if i < values.len() {
                    (decimal(i as nat), member_property(values[i]))
                } else {
                    (length_key(), length_property(values.len()))
                },
        ),
        ..ObjectView::empty(ObjectKind::Array)
    }
}

/// The ordinary object that holds `values` under `names`, in order.
pub open spec fn record_object(names: Seq<Seq<char>>, values: Seq<ValueView>) -> ObjectView {
    ObjectView {
        properties: Seq::new(names.len(), |i: int| (names[i], member_property(values[i]))),
        ..ObjectView::empty(ObjectKind::Ordinary)
    }
}

/// The names of `members`, in order.
pub open spec fn member_names(members: Seq<(Seq<char>, JsonView)>) -> Seq<Seq<char>> {
    Seq::new(members.len(), |i: int| members[i].0)
}

/// The script value that stands for the JSON tree `j`, and the heap after
/// the objects that it needs have been added to `h`. Children are made
/// before the array or object that holds them.
pub open spec fn json_to_value(h: HeapView, j: JsonView) -> (HeapView, ValueView)
    decreases j, 0nat,
{
    match j {
        JsonView::Null => (h, ValueView::Null),
        JsonView::Bool(b) => (h, ValueView::Boolean(b)),
        JsonView::Integer(i) => (h, ValueView::Integer(i)),
        JsonView::Rational(bits) => (h, ValueView::Rational(bits)),
        JsonView::String(s) => (h, ValueView::String(s)),
        JsonView::Array(items) => {
            let (h1, values) = items_to_values(h, items);
            (h1.push(array_object(values)), ValueView::Object(h1.len() as usize))
        },
        JsonView::Object(members) => {
            let (h1, values) = members_to_values(h, members);
            (
                h1.push(record_object(member_names(members), values)),
                ValueView::Object(h1.len() as usize),
            )
        },
    }
}

/// The script values that stand for `items`, made one after the other.
pub open spec fn items_to_values(h: HeapView, items: Seq<JsonView>) -> (HeapView, Seq<ValueView>)
    decreases items, 1nat,
{
    if items.len() == 0 {
        (h, Seq::empty())
    } else {
        let (h1, front) = items_to_values(h, items.drop_last());
        let (h2, v) = json_to_value(h1, items.last());
        (h2, front.push(v))
    }
}

/// The script values that stand for the values of `members`, made one after
/// the other.
pub open spec fn members_to_values(h: HeapView, members: Seq<(Seq<char>, JsonView)>) -> (
    HeapView,
    Seq<ValueView>,
)
    decreases members, 1nat,
{
    if members.len() == 0 {
        (h, Seq::empty())
    } else {
        let (h1, front) = members_to_values(h, members.drop_last());
        let (h2, v) = json_to_value(h1, members.last().1);
        (h2, front.push(v))
    }
}

/// A value without a JSON representation: `undefined`, a function or a
/// symbol. Such a value is left out of an object and written as `null`
/// anywhere else.
pub open spec fn unrepresentable(v: ValueView) -> bool {
    v is Undefined || v is Function || v is Symbol
}

/// The JSON tree of the script value `v`, read from the heap `h` through at
/// most `fuel` nested objects.
///
/// An array object gives an array of its enumerable own properties' values in
/// insertion order; any other object gives an object of its enumerable own
/// properties in insertion order, without those whose value is
/// [`unrepresentable`]. A number that is not finite gives `null`.
pub open spec fn value_to_json(h: HeapView, v: ValueView, fuel: nat) -> Result<JsonView, JsonError>
    decreases fuel, 0nat, 0nat,
{
    match v {
        ValueView::Null => Ok(JsonView::Null),
        ValueView::Undefined => Ok(JsonView::Null),
        ValueView::Function(_) => Ok(JsonView::Null),
        ValueView::Symbol(_) => Ok(JsonView::Null),
        ValueView::Boolean(b) => Ok(JsonView::Bool(b)),
        ValueView::String(s) => Ok(JsonView::String(s)),
        ValueView::Integer(i) => Ok(JsonView::Integer(i)),
        ValueView::Rational(bits) => Ok(
            if is_finite(bits) {
                JsonView::Rational(bits)
            } else {
                JsonView::Null
            },
        ),
        ValueView::BigInt(_) => Err(JsonError::BigInt),
        ValueView::Object(id) => {
            if id >= h.len() {
                Ok(JsonView::Null)
            } else if fuel == 0 {
                Err(JsonError::Cyclic)
            } else if h[id as int].kind == ObjectKind::Array {
                match elements_to_json(h, h[id as int].properties, (fuel - 1) as nat) {
                    Ok(items) => Ok(JsonView::Array(items)),
                    Err(e) => Err(e),
                }
            } else {
                match members_to_json(h, h[id as int].properties, (fuel - 1) as nat) {
                    Ok(members) => Ok(JsonView::Object(members)),
                    Err(e) => Err(e),
                }
            }
        },
    }
}

/// The JSON trees of the enumerable properties among `properties`, in order.
pub open spec fn elements_to_json(h: HeapView, properties: PropertiesView, fuel: nat) -> Result<
    Seq<JsonView>,
    JsonError,
>
    decreases fuel, 1nat, properties.len(),
{
    if properties.len() == 0 {
        Ok(Seq::empty())
    } else {
        match elements_to_json(h, properties.drop_last(), fuel) {
            Err(e) => Err(e),
            Ok(front) => {
                let p = properties.last().1;
                if !p.enumerable {
                    Ok(front)
                } else {
                    match value_to_json(h, p.value(), fuel) {
                        Err(e) => Err(e),
                        Ok(j) => Ok(front.push(j)),
                    }
                }
            },
        }
    }
}

/// The names and JSON trees of the enumerable properties among `properties`
/// whose value has a JSON representation, in order.
pub open spec fn members_to_json(h: HeapView, properties: PropertiesView, fuel: nat) -> Result<
    Seq<(Seq<char>, JsonView)>,
    JsonError,
>
    decreases fuel, 1nat, properties.len(),
{
    if properties.len() == 0 {
        Ok(Seq::empty())
    } else {
        match members_to_json(h, properties.drop_last(), fuel) {
            Err(e) => Err(e),
            Ok(front) => {
                let p = properties.last().1;
                if !p.enumerable || unrepresentable(p.value()) {
                    Ok(front)
                } else {
                    match value_to_json(h, p.value(), fuel) {
                        Err(e) => Err(e),
                        Ok(j) => Ok(front.push((properties.last().0, j))),
                    }
                }
            },
        }
    }
}

/// The models of `items`, in order.
pub open spec fn items_view(items: Seq<Json>) -> Seq<JsonView> {
    Seq::new(items.len(), |i: int| items[i]@)
}

/// The names and models of `members`, in order.
pub open spec fn members_view(members: Seq<(String, Json)>) -> Seq<(Seq<char>, JsonView)> {
    Seq::new(members.len(), |i: int| (members[i].0@, members[i].1@))
}

/// `items_models` goes item by item.
pub proof fn lemma_items_models(items: Seq<Json>)
    ensures
        items_models(items) == items_view(items),
    decreases items.len(),
{
    if items.len() > 0 {
        lemma_items_models(items.drop_last());
        assert(items_models(items) =~= items_view(items));
    } else {
        assert(items_models(items) =~= items_view(items));
    }
}

/// `members_models` goes member by member.
pub proof fn lemma_members_models(members: Seq<(String, Json)>)
    ensures
        members_models(members) == members_view(members),
    decreases members.len(),
{
    if members.len() > 0 {
        lemma_members_models(members.drop_last());
        assert(members_models(members) =~= members_view(members));
    } else {
        assert(members_models(members) =~= members_view(members));
    }
}

/// The model of an array is the array of its items' models.
pub proof fn lemma_array_view(items: Vec<Json>)
    ensures
        Json::Array(items)@ == JsonView::Array(items_view(items@)),
{
    lemma_items_models(items@);
}

/// The model of an object is the sequence of its members' names and models.
pub proof fn lemma_object_view(members: Vec<(String, Json)>)
    ensures
        Json::Object(members)@ == JsonView::Object(members_view(members@)),
{
    lemma_members_models(members@);
}

/// An error among the first `k` properties is the error of the whole list.
pub proof fn lemma_elements_error(h: HeapView, properties: PropertiesView, fuel: nat, k: int)
    requires
        0 <= k <= properties.len(),
        elements_to_json(h, properties.take(k), fuel) is Err,
    ensures
        elements_to_json(h, properties, fuel) == elements_to_json(h, properties.take(k), fuel),
    decreases properties.len() - k,
{
    if k < properties.len() {
        assert(properties.take(k + 1).drop_last() =~= properties.take(k));
        lemma_elements_error(h, properties, fuel, k + 1);
    } else {
        assert(properties.take(k) =~= properties);
    }
}

/// An error among the first `k` properties is the error of the whole list.
pub proof fn lemma_members_error(h: HeapView, properties: PropertiesView, fuel: nat, k: int)
    requires
        0 <= k <= properties.len(),
        members_to_json(h, properties.take(k), fuel) is Err,
    ensures
        members_to_json(h, properties, fuel) == members_to_json(h, properties.take(k), fuel),
    decreases properties.len() - k,
{
    if k < properties.len() {
        assert(properties.take(k + 1).drop_last() =~= properties.take(k));
        lemma_members_error(h, properties, fuel, k + 1);
    } else {
        assert(properties.take(k) =~= properties);
    }
}

/// The tree that a valid heap gives is valid.
pub proof fn lemma_value_to_json_wf(h: HeapView, v: ValueView, fuel: nat)
    requires
        heap_wf(h),
    ensures
        value_to_json(h, v, fuel) matches Ok(j) ==> j.wf(),
    decreases fuel, 0nat, 0nat,
{
    match v {
        ValueView::Object(id) => {
            if id < h.len() && fuel > 0 {
                assert(h[id as int].wf());
                if h[id as int].kind == ObjectKind::Array {
                    lemma_elements_to_json_wf(h, h[id as int].properties, (fuel - 1) as nat);
                } else {
                    lemma_members_to_json_wf(h, h[id as int].properties, (fuel - 1) as nat);
                }
            }
        },
        _ => {},
    }
}

/// The trees of the elements of a valid heap's array are valid.
pub proof fn lemma_elements_to_json_wf(h: HeapView, properties: PropertiesView, fuel: nat)
    requires
        heap_wf(h),
    ensures
        elements_to_json(h, properties, fuel) matches Ok(items) ==> forall|i: int|
            0 <= i < items.len() ==> (#[trigger] items[i]).wf(),
    decreases fuel, 1nat, properties.len(),
{
    if properties.len() > 0 {
        lemma_elements_to_json_wf(h, properties.drop_last(), fuel);
        lemma_value_to_json_wf(h, properties.last().1.value(), fuel);
    }
}

/// The members that the properties of a valid object give are valid, their
/// names differ, and each name is the name of one of the properties.
pub proof fn lemma_members_to_json_wf(h: HeapView, properties: PropertiesView, fuel: nat)
    requires
        heap_wf(h),
        keys_distinct(properties),
    ensures
        members_to_json(h, properties, fuel) matches Ok(members) ==> {
            &&& names_distinct(members)
            &&& forall|i: int| 0 <= i < members.len() ==> (#[trigger] members[i]).1.wf()
            &&& forall|i: int|
                0 <= i < members.len() ==> exists|k: int|
                    0 <= k < properties.len() && (#[trigger] properties[k]).0 == (
                    #[trigger] members[i]).0
        },
    decreases fuel, 1nat, properties.len(),
{
    if properties.len() > 0 {
        let front = properties.drop_last();
        assert forall|a: int, b: int| 0 <= a < b < front.len() implies (#[trigger] front[a]).0 != (
        #[trigger] front[b]).0 by {
            assert(properties[a].0 != properties[b].0);
        }
        lemma_members_to_json_wf(h, front, fuel);
        lemma_value_to_json_wf(h, properties.last().1.value(), fuel);
        if let Ok(members) = members_to_json(h, properties, fuel) {
            let before = members_to_json(h, front, fuel)->Ok_0;
            assert forall|i: int| 0 <= i < members.len() implies exists|k: int|
                0 <= k < properties.len() && (#[trigger] properties[k]).0 == (
                #[trigger] members[i]).0 by {
                if i < before.len() {
                    assert(members[i] == before[i]);
                    let k = choose|k: int|
                        0 <= k < front.len() && (#[trigger] front[k]).0 == before[i].0;
                    assert(properties[k].0 == members[i].0);
                } else {
                    let k = properties.len() - 1;
                    assert(properties[k].0 == members[i].0);
                }
            }
            assert forall|a: int, b: int| 0 <= a < b < members.len() implies (
            #[trigger] members[a]).0 != (#[trigger] members[b]).0 by {
                if b < before.len() {
                    assert(before[a].0 != before[b].0);
                } else {
                    assert(members[a] == before[a]);
                    let k = choose|k: int|
                        0 <= k < front.len() && (#[trigger] front[k]).0 == before[a].0;
                    assert(properties[k].0 != properties[properties.len() - 1].0);
                }
            }
        }
    }
}

/// Making the value of a JSON tree adds objects to the heap and changes
/// none.
pub proof fn lemma_json_to_value_grows(h: HeapView, j: JsonView)
    ensures
        h.len() <= json_to_value(h, j).0.len(),
        forall|i: int| 0 <= i < h.len() ==> json_to_value(h, j).0[i] == h[i],
    decreases j, 0nat,
{
    match j {
        JsonView::Array(items) => {
            lemma_items_to_values_grows(h, items);
        },
        JsonView::Object(members) => {
            lemma_members_to_values_grows(h, members);
        },
        _ => {},
    }
}

/// Making the values of JSON trees adds objects to the heap and changes
/// none.
pub proof fn lemma_items_to_values_grows(h: HeapView, items: Seq<JsonView>)
    ensures
        h.len() <= items_to_values(h, items).0.len(),
        forall|i: int| 0 <= i < h.len() ==> items_to_values(h, items).0[i] == h[i],
        items_to_values(h, items).1.len() == items.len(),
    decreases items, 1nat,
{
    if items.len() > 0 {
        lemma_items_to_values_grows(h, items.drop_last());
        lemma_json_to_value_grows(items_to_values(h, items.drop_last()).0, items.last());
    }
}

/// Making the values of the members of a JSON object adds objects to the
/// heap and changes none.
pub proof fn lemma_members_to_values_grows(h: HeapView, members: Seq<(Seq<char>, JsonView)>)
    ensures
        h.len() <= members_to_values(h, members).0.len(),
        forall|i: int| 0 <= i < h.len() ==> members_to_values(h, members).0[i] == h[i],
        members_to_values(h, members).1.len() == members.len(),
    decreases members, 1nat,
{
    if members.len() > 0 {
        lemma_members_to_values_grows(h, members.drop_last());
        lemma_json_to_value_grows(members_to_values(h, members.drop_last()).0, members.last().1);
    }
}

impl JsonError {
    /// The text of the script error that stands for this failure.
    pub fn message(&self) -> (r: &'static str)
        ensures
            r@ == match self {
                JsonError::Cyclic => "TypeError: cyclic object value"@,
                JsonError::BigInt => "TypeError: BigInt value can't be serialized in JSON"@,
            },
    {
        match self {
            JsonError::Cyclic => "TypeError: cyclic object value",
            JsonError::BigInt => "TypeError: BigInt value can't be serialized in JSON",
        }
    }
}

impl Value {
    /// The JSON tree of the value, as [`value_to_json`] defines it. The
    /// nesting that is followed is bounded by the number of objects in the
    /// heap, so that only a value that contains itself runs out of it.
    pub fn to_json(&self, heap: &Heap) -> (r: Result<Json, JsonError>)
        ensures
            match r {
                Ok(j) => value_to_json(heap@, self@, heap@.len()) == Ok::<JsonView, JsonError>(j@),
                Err(e) => value_to_json(heap@, self@, heap@.len()) == Err::<JsonView, JsonError>(e),
            },
    {
        self.to_json_within(heap, heap.len())
    }

    /// The JSON tree of the value, read through at most `fuel` nested
    /// objects.
    #[verifier::loop_isolation(false)]
    pub fn to_json_within(&self, heap: &Heap, fuel: usize) -> (r: Result<Json, JsonError>)
        ensures
            match r {
                Ok(j) => value_to_json(heap@, self@, fuel as nat) == Ok::<JsonView, JsonError>(j@),
                Err(e) => value_to_json(heap@, self@, fuel as nat) == Err::<JsonView, JsonError>(e),
            },
        decreases fuel, 0nat,
    {
        match self {
            Value::Null => Ok(Json::Null),
            Value::Undefined => Ok(Json::Null),
            Value::Function(_) => Ok(Json::Null),
            Value::Symbol(_) => Ok(Json::Null),
            Value::Boolean(b) => Ok(Json::Bool(*b)),
            Value::String(s) => Ok(Json::String(s.clone())),
            Value::Integer(i) => Ok(Json::Integer(*i)),
            Value::Rational(bits) => if double_is_finite(*bits) {
                Ok(Json::Rational(*bits))
            } else {
                Ok(Json::Null)
            },
            Value::BigInt(_) => Err(JsonError::BigInt),
            Value::Object(id) => {
                if *id >= heap.len() {
                    return Ok(Json::Null);
                }
                if fuel == 0 {
                    return Err(JsonError::Cyclic);
                }
                let object = heap.object(*id);
                let ghost properties = object@.properties;
                let n = object.properties.len();
                if object.kind == ObjectKind::Array {
                    let mut items: Vec<Json> = Vec::new();
                    let mut i: usize = 0;
                    proof {
                        assert(properties.take(0) =~= Seq::empty());
                        assert(items_view(items@) =~= Seq::empty());
                    }
                    while i < n
                        invariant
                            i <= n,
                            n == object.properties@.len(),
                            fuel > 0,
                            properties == object@.properties,
                            elements_to_json(heap@, properties.take(i as int), (fuel - 1) as nat)
                                == Ok::<Seq<JsonView>, JsonError>(items_view(items@)),
                        decreases n - i,
                    {
                        let property = &object.properties[i].1;
                        proof {
                            assert(properties.take(i + 1).drop_last() =~= properties.take(i as int));
                            assert(properties.take(i + 1).last().1 == property@);
                        }
                        if property.enumerable {
                            let value = property.stored_value();
                            match value.to_json_within(heap, fuel - 1) {
                                Ok(j) => {
                                    let ghost before = items_view(items@);
                                    items.push(j);
                                    assert(items_view(items@) =~= before.push(j@));
                                },
                                Err(e) => {
                                    proof {
                                        assert(elements_to_json(
                                            heap@,
                                            properties.take(i + 1),
                                            (fuel - 1) as nat,
                                        ) == Err::<Seq<JsonView>, JsonError>(e));
                                        lemma_elements_error(
                                            heap@,
                                            properties,
                                            (fuel - 1) as nat,
                                            i + 1,
                                        );
                                    }
                                    return Err(e);
                                },
                            }
                        }
                        i += 1;
                    }
                    proof {
                        assert(properties.take(n as int) =~= properties);
                        lemma_array_view(items);
                    }
                    Ok(Json::Array(items))
                } else {
                    match Value::members_json(heap, &object.properties, fuel - 1) {
                        Ok(members) => {
                            proof {
                                lemma_object_view(members);
                            }
                            Ok(Json::Object(members))
                        },
                        Err(e) => Err(e),
                    }
                }
            },
        }
    }

    /// The names and JSON trees of the enumerable properties among
    /// `properties` whose value has a JSON representation, in order.
    pub fn members_json(heap: &Heap, properties: &Vec<(String, Property)>, fuel: usize) -> (r: Result<
        Vec<(String, Json)>,
        JsonError,
    >)
        ensures
            match r {
                Ok(members) => members_to_json(heap@, properties_view(properties@), fuel as nat)
                    == Ok::<Seq<(Seq<char>, JsonView)>, JsonError>(members_view(members@)),
                Err(e) => members_to_json(heap@, properties_view(properties@), fuel as nat)
                    == Err::<Seq<(Seq<char>, JsonView)>, JsonError>(e),
            },
        decreases fuel, 1nat,
    {
        let ghost model = properties_view(properties@);
        let n = properties.len();
        let mut members: Vec<(String, Json)> = Vec::new();
        let mut i: usize = 0;
        proof {
            assert(model.take(0) =~= Seq::empty());
            assert(members_view(members@) =~= Seq::empty());
        }
        while i < n
            invariant
                i <= n,
                n == properties@.len(),
                model == properties_view(properties@),
                members_to_json(heap@, model.take(i as int), fuel as nat) == Ok::<
                    Seq<(Seq<char>, JsonView)>,
                    JsonError,
                >(members_view(members@)),
            decreases n - i,
        {
            let property = &properties[i].1;
            proof {
                assert(model.take(i + 1).drop_last() =~= model.take(i as int));
                assert(model.take(i + 1).last().1 == property@);
                assert(model.take(i + 1).last().0 == properties@[i as int].0@);
            }
            if property.enumerable {
                let value = property.stored_value();
                if !(value.is_undefined() || value.is_function() || value.is_symbol()) {
                    match value.to_json_within(heap, fuel) {
                        Ok(j) => {
                            let ghost before = members_view(members@);
                            let name = properties[i].0.clone();
                            members.push((name, j));
                            assert(members_view(members@) =~= before.push(
                                (properties@[i as int].0@, j@),
                            ));
                        },
                        Err(e) => {
                            proof {
                                assert(members_to_json(heap@, model.take(i + 1), fuel as nat)
                                    == Err::<Seq<(Seq<char>, JsonView)>, JsonError>(e));
                                lemma_members_error(heap@, model, fuel as nat, i + 1);
                            }
                            return Err(e);
                        },
                    }
                }
            }
            i += 1;
        }
        proof {
            assert(model.take(n as int) =~= model);
        }
        Ok(members)
    }

    /// A new array object that holds `values`, as [`array_object`] defines
    /// it.
    pub fn array_from(values: &Vec<Value>, heap: &mut Heap) -> (r: Value)
        requires
            old(heap).wf(),
            values@.len() <= MAX_ARRAY_LENGTH,
        ensures
            final(heap)@ == old(heap)@.push(array_object(values_view(values@))),
            r@ == ValueView::Object(old(heap)@.len() as usize),
            final(heap).wf(),
    {
        let n = values.len();
        let ghost value_models = values_view(values@);
        let mut object = Object::new(ObjectKind::Array);
        let mut k: usize = 0;
        while k < n
            invariant
                k <= n,
                n == values@.len(),
                n <= MAX_ARRAY_LENGTH,
                value_models == values_view(values@),
                object.kind == ObjectKind::Array,
                object.prototype is None,
                object.call is None,
                object@.properties =~= array_object(value_models).properties.take(k as int),
            decreases n - k,
        {
            let key = unsigned_to_string(k as u64);
            let property = Property::data(values[k].clone(), true, true, true);
            let ghost before = object@.properties;
            object.properties.push((key, property));
            proof {
                let entry = (decimal(k as nat), member_property(value_models[k as int]));
                assert(object@.properties =~= before.push(entry));
                assert(array_object(value_models).properties[k as int] == entry);
                assert(array_object(value_models).properties.take(k + 1) =~= array_object(
                    value_models,
                ).properties.take(k as int).push(entry));
            }
            k += 1;
        }
        proof {
            reveal_strlit("length");
        }
        let length = "length".to_owned();
        assert(length@ =~= length_key());
        let ghost before = object@.properties;
        object.properties.push(
            (length, Property::data(Value::Integer(n as i32), true, false, false)),
        );
        proof {
            let entry = (length_key(), length_property(n as nat));
            assert(object@.properties =~= before.push(entry));
            assert(array_object(value_models).properties[n as int] == entry);
            assert(object@.properties =~= array_object(value_models).properties);
            lemma_array_object_wf(value_models);
        }
        Value::Object(heap.allocate(object))
    }

    /// The script value that stands for a JSON tree, as [`json_to_value`]
    /// defines it: arrays and objects become new objects in the heap.
    pub fn from_json(json: &Json, heap: &mut Heap) -> (r: Value)
        requires
            old(heap).wf(),
            json@.wf(),
            json@.fits(),
        ensures
            (final(heap)@, r@) == json_to_value(old(heap)@, json@),
            final(heap).wf(),
        decreases json,
    {
        match json {
            Json::Null => Value::Null,
            Json::Bool(b) => Value::Boolean(*b),
            Json::Integer(i) => Value::Integer(*i),
            Json::Rational(bits) => Value::Rational(*bits),
            Json::String(s) => Value::String(s.clone()),
            Json::Array(items) => {
                proof {
                    lemma_array_view(*items);
                }
                let ghost models = items_view(items@);
                let n = items.len();
                let mut values: Vec<Value> = Vec::new();
                let mut i: usize = 0;
                while i < n
                    invariant
                        i <= n,
                        n == items@.len(),
                        heap.wf(),
                        models == items_view(items@),
                        json@ == JsonView::Array(models),
                        json@.wf(),
                        json@.fits(),
                        *json == Json::Array(*items),
                        values@.len() == i,
                        items_to_values(old(heap)@, models.take(i as int)) == (
                            heap@,
                            Seq::new(i as nat, |k: int| values@[k]@),
                        ),
                    decreases n - i,
                {
                    proof {
                        assert(models.take(i + 1).drop_last() =~= models.take(i as int));
                        assert(models.take(i + 1).last() == items@[i as int]@);
                        assert(models[i as int].wf());
                        assert(models[i as int].fits());
                    }
                    let ghost before = Seq::new(i as nat, |k: int| values@[k]@);
                    let v = Value::from_json(&items[i], heap);
                    values.push(v);
                    i += 1;
                    assert(Seq::new(i as nat, |k: int| values@[k]@) =~= before.push(v@));
                }
                assert(models.take(n as int) =~= models);
                assert(values_view(values@) =~= Seq::new(n as nat, |k: int| values@[k]@));
                Value::array_from(&values, heap)
            },
            Json::Object(members) => {
                proof {
                    lemma_object_view(*members);
                }
                let ghost models = members_view(members@);
                let n = members.len();
                let mut values: Vec<Value> = Vec::new();
                let mut i: usize = 0;
                while i < n
                    invariant
                        i <= n,
                        n == members@.len(),
                        heap.wf(),
                        models == members_view(members@),
                        json@ == JsonView::Object(models),
                        json@.wf(),
                        json@.fits(),
                        *json == Json::Object(*members),
                        values@.len() == i,
                        members_to_values(old(heap)@, models.take(i as int)) == (
                            heap@,
                            Seq::new(i as nat, |k: int| values@[k]@),
                        ),
                    decreases n - i,
                {
                    proof {
                        assert(models.take(i + 1).drop_last() =~= models.take(i as int));
                        assert(models.take(i + 1).last().1 == members@[i as int].1@);
                        assert(models[i as int].1.wf());
                        assert(models[i as int].1.fits());
                    }
                    let ghost before = Seq::new(i as nat, |k: int| values@[k]@);
                    let v = Value::from_json(&members[i].1, heap);
                    values.push(v);
                    i += 1;
                    assert(Seq::new(i as nat, |k: int| values@[k]@) =~= before.push(v@));
                }
                assert(models.take(n as int) =~= models);
                let ghost value_models = Seq::new(n as nat, |k: int| values@[k]@);
                let ghost target = record_object(member_names(models), value_models);
                let mut object = Object::new(ObjectKind::Ordinary);
                let mut k: usize = 0;
                while k < n
                    invariant
                        k <= n,
                        n == values@.len(),
                        n == members@.len(),
                        models == members_view(members@),
                        value_models == Seq::new(n as nat, |k: int| values@[k]@),
                        target == record_object(member_names(models), value_models),
                        object.kind == ObjectKind::Ordinary,
                        object.prototype is None,
                        object.call is None,
                        object@.properties =~= target.properties.take(k as int),
                    decreases n - k,
                {
                    let key = members[k].0.clone();
                    let property = Property::data(values[k].clone(), true, true, true);
                    let ghost before = object@.properties;
                    object.properties.push((key, property));
                    proof {
                        let entry = (models[k as int].0, member_property(value_models[k as int]));
                        assert(object@.properties =~= before.push(entry));
                        assert(target.properties[k as int] == entry);
                        assert(target.properties.take(k + 1) =~= target.properties.take(
                            k as int,
                        ).push(entry));
                    }
                    k += 1;
                }
                proof {
                    assert(object@.properties =~= target.properties);
                    assert(keys_distinct(target.properties)) by {
                        assert forall|a: int, b: int|
                            0 <= a < b < target.properties.len() implies (
                        #[trigger] target.properties[a]).0 != (#[trigger] target.properties[b]).0 by {
                            assert(models[a].0 != models[b].0);
                        }
                    }
                }
                Value::Object(heap.allocate(object))
            },
        }
    }
}

/// The array object of any values is valid: indices in decimal notation
/// differ from one another and from `length`.
pub proof fn lemma_array_object_wf(values: Seq<ValueView>)
    ensures
        array_object(values).wf(),
{
    let p = array_object(values).properties;
    assert forall|a: int, b: int| 0 <= a < b < p.len() implies (#[trigger] p[a]).0 != (
    #[trigger] p[b]).0 by {
        lemma_decimal(a as nat);
        if b < values.len() {
            if decimal(a as nat) == decimal(b as nat) {
                lemma_decimal_injective(a as nat, b as nat);
            }
        } else {
            assert(crate::text::digit_of(decimal(a as nat)[0]) is Some);
            assert(length_key()[0] == 'l');
        }
    }
}

} // verus!
