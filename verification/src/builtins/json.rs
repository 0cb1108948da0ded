//! The `JSON` object: parsing and writing JavaScript Object Notation.
//!
//! `parse` and `stringify` are a bridge to `serde_json`, which reads and
//! writes the text. What the library adds is the structural mapping between
//! JSON trees and script values, and the allow list of `stringify`.

pub mod laws;
pub mod outside;
pub mod tree;

use vstd::prelude::*;
use serde_json::Value as JSONValue;
use crate::builtins::function::{builtin_installed, make_builtin_fn};
use crate::builtins::json::outside::{
    document, error_message, error_text, from_document, parse_text, parsed, render, render_indented,
    rendered, rendered_indented, to_document, Document,
};
use crate::builtins::number::{count_of, double_to_count, small_count};
use crate::text::{chars_of, string_of};
use crate::builtins::json::tree::{
    json_to_value, lemma_members_to_json_wf, lemma_object_view, lemma_value_to_json_wf,
    members_to_json, value_to_json, Json, JsonError, JsonView,
};
use crate::builtins::object::{
    keys_distinct, properties_view, set_field, Heap, HeapView, NativeFunction, ObjectKind,
    PropertiesView,
};
use crate::builtins::property::Property;
use crate::builtins::value::{display, fresh_object, values_view, ResultValue, Value, ValueView};
use crate::exec::Interpreter;

verus! {

/// The texts of `names`, in order.
pub open spec fn names_view(names: Seq<String>) -> Seq<Seq<char>> {
    Seq::new(names.len(), |i: int| names[i]@)
}

/// The message of the error for a document with an array that is longer than
/// a script array can be.
pub open spec fn too_long_message() -> Seq<char> {
    "RangeError: array is too long"@
}

/// The message of the error for a number that is finite and not an integer
/// of at most 64 bits: there is no text that the library can write for it.
pub open spec fn unwritable_message() -> Seq<char> {
    "TypeError: number is not an integer and cannot be written"@
}

/// The message of the error that stands for a failure to make a JSON tree.
pub open spec fn tree_error_message(e: JsonError) -> Seq<char> {
    match e {
        JsonError::Cyclic => "TypeError: cyclic object value"@,
        JsonError::BigInt => "TypeError: BigInt value can't be serialized in JSON"@,
    }
}

/// What `parse` makes of the outcome of reading a text: the new heap and the
/// value of the document that was read, or the old heap and the message of
/// the error.
pub open spec fn parse_outcome(h: HeapView, outcome: Result<Document, Seq<char>>) -> (
    HeapView,
    Result<ValueView, Seq<char>>,
) {
    match outcome {
        Err(message) => (h, Err(message)),
        Ok(d) => match from_document(d) {
            None => (h, Err(too_long_message())),
            Some(tree) => (json_to_value(h, tree).0, Ok(json_to_value(h, tree).1)),
        },
    }
}

/// The model of the outcome of a call of `serde_json::from_str`.
pub open spec fn outcome_view(outcome: Result<JSONValue, serde_json::Error>) -> Result<
    Document,
    Seq<char>,
> {
    match outcome {
        Ok(v) => Ok(document(v)),
        Err(e) => Err(error_text(e)),
    }
}

/// The script value for the outcome of reading a JSON text: the value that
/// stands for the document, with its arrays and objects added to the heap,
/// or an error that carries the reader's message.
pub fn value_of_parsed(outcome: Result<JSONValue, serde_json::Error>, heap: &mut Heap) -> (r:
    ResultValue)
    requires
        old(heap).wf(),
    ensures
        final(heap).wf(),
        final(heap)@ == parse_outcome(old(heap)@, outcome_view(outcome)).0,
        match r {
            Ok(v) => parse_outcome(old(heap)@, outcome_view(outcome)).1 == Ok::<
                ValueView,
                Seq<char>,
            >(v@),
            Err(e) => parse_outcome(old(heap)@, outcome_view(outcome)).1 == Err::<
                ValueView,
                Seq<char>,
            >(display(e@)) && e@ is String,
        },
{
    match outcome {
        Ok(v) => match Json::from_outside(&v) {
            Some(tree) => Ok(Value::from_json(&tree, heap)),
            None => Err(Value::String("RangeError: array is too long".to_owned())),
        },
        Err(e) => Err(Value::String(error_message(&e))),
    }
}

/// `JSON.parse( text )`
///
/// Reads the text of the first argument as JSON and returns the script value
/// that stands for it. A text that is not JSON gives an error value that
/// carries the reader's message.
pub fn parse(this: &Value, args: &[Value], interpreter: &mut Interpreter) -> (r: ResultValue)
    requires
        args@.len() >= 1,
        old(interpreter).wf(),
    ensures
        final(interpreter).wf(),
        final(interpreter).realm.environment == old(interpreter).realm.environment,
        final(interpreter).realm.global_obj == old(interpreter).realm.global_obj,
        final(interpreter).realm.global_env == old(interpreter).realm.global_env,
        final(interpreter).realm.functions == old(interpreter).realm.functions,
        final(interpreter).realm.heap@ == parse_outcome(
            old(interpreter).realm.heap@,
            parsed(display(args@[0]@)),
        ).0,
        match r {
            Ok(v) => parse_outcome(
                old(interpreter).realm.heap@,
                parsed(display(args@[0]@)),
            ).1 == Ok::<ValueView, Seq<char>>(v@),
            Err(e) => parse_outcome(
                old(interpreter).realm.heap@,
                parsed(display(args@[0]@)),
            ).1 == Err::<ValueView, Seq<char>>(display(e@)) && e@ is String,
        },
{
    let text = args[0].to_string();
    let outcome = parse_text(text.as_str());
    let ghost h = interpreter.realm.heap@;
    let r = value_of_parsed(outcome, &mut interpreter.realm.heap);
    proof {
        lemma_parse_grows(h, parsed(display(args@[0]@)));
    }
    r
}

/// Reading a text adds objects to the heap and changes none.
pub proof fn lemma_parse_grows(h: HeapView, outcome: Result<Document, Seq<char>>)
    ensures
        h.len() <= parse_outcome(h, outcome).0.len(),
        forall|i: int| 0 <= i < h.len() ==> parse_outcome(h, outcome).0[i] == h[i],
{
    match outcome {
        Ok(d) => match from_document(d) {
            Some(tree) => {
                crate::builtins::json::tree::lemma_json_to_value_grows(h, tree);
            },
            None => {},
        },
        Err(_) => {},
    }
}

/// The texts of the values of the enumerable properties among `properties`,
/// in order: the names that an array used as a replacer lets through.
pub open spec fn element_texts(properties: PropertiesView) -> Seq<Seq<char>>
    decreases properties.len(),
{
    if properties.len() == 0 {
        Seq::empty()
    } else {
        let front = element_texts(properties.drop_last());
        if properties.last().1.enumerable {
            front.push(display(properties.last().1.value()))
        } else {
            front
        }
    }
}

/// The properties among `properties` whose name is one of `names`, in the
/// order of `properties`.
pub open spec fn retained(properties: PropertiesView, names: Seq<Seq<char>>) -> PropertiesView
    decreases properties.len(),
{
    if properties.len() == 0 {
        Seq::empty()
    } else {
        let front = retained(properties.drop_last(), names);
        if names.contains(properties.last().0) {
            front.push(properties.last())
        } else {
            front
        }
    }
}

/// The allow list that the replacer gives: the element texts of an array.
/// Any other replacer gives none.
pub open spec fn allow_list(h: HeapView, replacer: ValueView) -> Option<Seq<Seq<char>>> {
    match replacer {
        ValueView::Object(id) => if id < h.len() && h[id as int].kind == ObjectKind::Array {
            Some(element_texts(h[id as int].properties))
        } else {
            None
        },
        _ => None,
    }
}

/// The replacer is one that `stringify` takes: an array, or a value that is
/// neither an object nor a function.
pub open spec fn replacer_supported(h: HeapView, args: Seq<ValueView>) -> bool {
    args.len() >= 2 ==> match args[1] {
        ValueView::Object(id) => id < h.len() ==> h[id as int].kind == ObjectKind::Array,
        ValueView::Function(_) => false,
        _ => true,
    }
}

/// Whether the replacer among `args` is one that `stringify` takes.
pub fn supports_replacer(heap: &Heap, args: &[Value]) -> (r: bool)
    ensures
        r == replacer_supported(heap@, values_view(args@)),
{
    if args.len() >= 2 {
        assert(values_view(args@)[1] == args@[1]@);
        match &args[1] {
            Value::Object(id) => *id >= heap.len() || heap.object(*id).kind == ObjectKind::Array,
            Value::Function(_) => false,
            _ => true,
        }
    } else {
        true
    }
}

/// The JSON tree that `stringify` writes. With an allow list, an object that
/// is not an array gives only the members whose name is on the list, in the
/// object's own order; the list does not reach into nested objects.
pub open spec fn stringify_tree(h: HeapView, args: Seq<ValueView>) -> Result<JsonView, JsonError> {
    let names = if args.len() >= 2 {
        allow_list(h, args[1])
    } else {
        None
    };
    match (names, args[0]) {
        (Some(names), ValueView::Object(id)) => if id < h.len() && h[id as int].kind
            != ObjectKind::Array {
            match members_to_json(h, retained(h[id as int].properties, names), (h.len() - 1) as nat) {
                Ok(members) => Ok(JsonView::Object(members)),
                Err(e) => Err(e),
            }
        } else {
            value_to_json(h, args[0], h.len())
        },
        _ => value_to_json(h, args[0], h.len()),
    }
}

/// `n` spaces.
pub open spec fn spaces(n: nat) -> Seq<char> {
    Seq::new(n, |i: int| ' ')
}

/// The indent that the `space` argument asks for: as many spaces as a number
/// says, or the text of a string; neither more than ten characters. Any
/// other value asks for none.
pub open spec fn gap_of(space: ValueView) -> Seq<char> {
    match space {
        ValueView::Integer(n) => spaces(small_count(n as int)),
        ValueView::Rational(bits) => spaces(count_of(bits)),
        ValueView::String(s) => if s.len() > 10 {
            s.take(10)
        } else {
            s
        },
        _ => Seq::empty(),
    }
}

/// The indent that the arguments of `stringify` ask for.
pub open spec fn gap(args: Seq<ValueView>) -> Seq<char> {
    if args.len() >= 3 {
        gap_of(args[2])
    } else {
        Seq::empty()
    }
}

/// The text that `stringify` returns, or the message of its error. Without
/// an indent the text is compact; with one, every element and member has a
/// line of its own.
pub open spec fn stringify_text(h: HeapView, args: Seq<ValueView>) -> Result<Seq<char>, Seq<char>> {
    match stringify_tree(h, args) {
        Err(e) => Err(tree_error_message(e)),
        Ok(tree) => match to_document(tree) {
            None => Err(unwritable_message()),
            Some(d) => Ok(
                if gap(args).len() == 0 {
                    rendered(d)
                } else {
                    rendered_indented(d, gap(args))
                },
            ),
        },
    }
}

/// The indent that the `space` argument asks for, as [`gap_of`] defines it.
pub fn gap_text(space: &Value) -> (r: String)
    ensures
        r@ == gap_of(space@),
{
    match space {
        Value::Integer(n) => {
            let count: usize = if *n < 0 {
                0
            } else if *n > 10 {
                10
            } else {
                *n as usize
            };
            blanks(count)
        },
        Value::Rational(bits) => blanks(double_to_count(*bits) as usize),
        Value::String(s) => {
            let chars = chars_of(s.as_str());
            if chars.len() > 10 {
                let mut first: Vec<char> = Vec::new();
                let mut i: usize = 0;
                while i < 10
                    invariant
                        i <= 10,
                        chars@.len() > 10,
                        first@ == chars@.take(i as int),
                    decreases 10 - i,
                {
                    first.push(chars[i]);
                    i += 1;
                    assert(first@ =~= chars@.take(i as int));
                }
                string_of(&first)
            } else {
                s.clone()
            }
        },
        _ => String::new(),
    }
}

/// A string of `n` spaces.
pub fn blanks(n: usize) -> (r: String)
    ensures
        r@ == spaces(n as nat),
{
    let mut s = String::new();
    let mut i: usize = 0;
    assert(s@ =~= spaces(0));
    while i < n
        invariant
            i <= n,
            s@ == spaces(i as nat),
        decreases n - i,
    {
        s.push(' ');
        i += 1;
        assert(s@ =~= spaces(i as nat));
    }
    s
}

/// The properties that an allow list retains are properties of the object,
/// and no two of them have the same name.
pub proof fn lemma_retained(properties: PropertiesView, names: Seq<Seq<char>>)
    requires
        keys_distinct(properties),
    ensures
        keys_distinct(retained(properties, names)),
        forall|i: int|
            0 <= i < retained(properties, names).len() ==> exists|k: int|
                0 <= k < properties.len() && (#[trigger] properties[k]).0 == (#[trigger] retained(
                    properties,
                    names,
                )[i]).0,
    decreases properties.len(),
{
    if properties.len() > 0 {
        let front = properties.drop_last();
        assert forall|a: int, b: int| 0 <= a < b < front.len() implies (#[trigger] front[a]).0 != (
        #[trigger] front[b]).0 by {
            assert(properties[a].0 != properties[b].0);
        }
        lemma_retained(front, names);
        let before = retained(front, names);
        let after = retained(properties, names);
        assert forall|i: int| 0 <= i < after.len() implies exists|k: int|
            0 <= k < properties.len() && (#[trigger] properties[k]).0 == (#[trigger] after[i]).0 by {
            if i < before.len() {
                assert(after[i] == before[i]);
                let k = choose|k: int| 0 <= k < front.len() && (#[trigger] front[k]).0 == before[i].0;
                assert(properties[k].0 == after[i].0);
            } else {
                assert(properties[properties.len() - 1].0 == after[i].0);
            }
        }
        assert forall|a: int, b: int| 0 <= a < b < after.len() implies (#[trigger] after[a]).0 != (
        #[trigger] after[b]).0 by {
            if b < before.len() {
                assert(before[a].0 != before[b].0);
            } else {
                assert(after[a] == before[a]);
                let k = choose|k: int| 0 <= k < front.len() && (#[trigger] front[k]).0 == before[a].0;
                assert(properties[k].0 != properties[properties.len() - 1].0);
            }
        }
    }
}

/// Whether `key` is one of `names`.
pub fn contains_name(names: &Vec<String>, key: &String) -> (r: bool)
    ensures
        r == names_view(names@).contains(key@),
{
    let mut i: usize = 0;
    while i < names.len()
        invariant
            i <= names.len(),
            forall|k: int| 0 <= k < i ==> names_view(names@)[k] != key@,
        decreases names.len() - i,
    {
        if names[i] == *key {
            assert(names_view(names@)[i as int] == key@);
            return true;
        }
        i += 1;
    }
    false
}

/// The allow list that a replacer gives, as [`allow_list`] defines it.
pub fn replacer_names(heap: &Heap, replacer: &Value) -> (r: Option<Vec<String>>)
    ensures
        match r {
            Some(names) => allow_list(heap@, replacer@) == Some(names_view(names@)),
            None => allow_list(heap@, replacer@) is None,
        },
{
    match replacer {
        Value::Object(id) => {
            if *id >= heap.len() {
                return None;
            }
            let object = heap.object(*id);
            if object.kind != ObjectKind::Array {
                return None;
            }
            let ghost model = object@.properties;
            let mut names: Vec<String> = Vec::new();
            let mut i: usize = 0;
            proof {
                assert(model.take(0) =~= Seq::empty());
                assert(names_view(names@) =~= Seq::empty());
            }
            while i < object.properties.len()
                invariant
                    i <= object.properties@.len(),
                    model == object@.properties,
                    element_texts(model.take(i as int)) == names_view(names@),
                decreases object.properties.len() - i,
            {
                let property = &object.properties[i].1;
                proof {
                    assert(model.take(i + 1).drop_last() =~= model.take(i as int));
                    assert(model.take(i + 1).last().1 == property@);
                }
                if property.enumerable {
                    let ghost before = names_view(names@);
                    let text = property.stored_value().to_string();
                    names.push(text);
                    assert(names_view(names@) =~= before.push(display(property@.value())));
                }
                i += 1;
            }
            proof {
                assert(model.take(object.properties@.len() as int) =~= model);
            }
            Some(names)
        },
        _ => None,
    }
}

/// The properties whose name is one of `names`, as [`retained`] defines it.
pub fn retain_named(properties: &Vec<(String, Property)>, names: &Vec<String>) -> (r: Vec<
    (String, Property),
>)
    ensures
        properties_view(r@) == retained(properties_view(properties@), names_view(names@)),
{
    let ghost model = properties_view(properties@);
    let mut kept: Vec<(String, Property)> = Vec::new();
    let mut i: usize = 0;
    proof {
        assert(model.take(0) =~= Seq::empty());
        assert(properties_view(kept@) =~= Seq::empty());
    }
    while i < properties.len()
        invariant
            i <= properties@.len(),
            model == properties_view(properties@),
            properties_view(kept@) == retained(model.take(i as int), names_view(names@)),
        decreases properties.len() - i,
    {
        proof {
            assert(model.take(i + 1).drop_last() =~= model.take(i as int));
            assert(model.take(i + 1).last() == model[i as int]);
        }
        if contains_name(names, &properties[i].0) {
            let ghost before = properties_view(kept@);
            let key = properties[i].0.clone();
            let property = properties[i].1.clone();
            kept.push((key, property));
            assert(properties_view(kept@) =~= before.push(model[i as int]));
        }
        i += 1;
    }
    proof {
        assert(model.take(properties@.len() as int) =~= model);
    }
    kept
}

/// `JSON.stringify( value[, replacer[, space]] )`
///
/// Writes the first argument as JSON text. The properties of an object are
/// written in insertion order, without those whose value is `undefined`, a
/// function or a symbol. An array as second argument is an allow list: of an
/// object, only the members named on it are written. A number or a string as
/// third argument asks for an indent. A value that contains itself, an
/// arbitrary-precision integer or a number that is not an integer gives an
/// error value.
///
/// A replacer that is a function or an object other than an array is not
/// supported.
pub fn stringify(this: &Value, args: &[Value], interpreter: &mut Interpreter) -> (r: ResultValue)
    requires
        args@.len() >= 1,
        old(interpreter).wf(),
        replacer_supported(old(interpreter).realm.heap@, values_view(args@)),
    ensures
        final(interpreter).wf(),
        final(interpreter).realm.environment == old(interpreter).realm.environment,
        final(interpreter).realm.global_obj == old(interpreter).realm.global_obj,
        final(interpreter).realm.global_env == old(interpreter).realm.global_env,
        final(interpreter).realm.functions == old(interpreter).realm.functions,
        final(interpreter).realm.heap == old(interpreter).realm.heap,
        match r {
            Ok(v) => stringify_text(old(interpreter).realm.heap@, values_view(args@)) == Ok::<
                Seq<char>,
                Seq<char>,
            >(display(v@)) && v@ is String,
            Err(e) => stringify_text(old(interpreter).realm.heap@, values_view(args@)) == Err::<
                Seq<char>,
                Seq<char>,
            >(display(e@)) && e@ is String,
        },
{
    let heap = &interpreter.realm.heap;
    let ghost h = heap@;
    let ghost models = values_view(args@);
    assert(models[0] == args@[0]@);
    let names = if args.len() >= 2 {
        assert(models[1] == args@[1]@);
        replacer_names(heap, &args[1])
    } else {
        None
    };
    let tree = match (names, &args[0]) {
        (Some(names), Value::Object(id)) => {
            if *id < heap.len() && heap.object(*id).kind != ObjectKind::Array {
                let kept = retain_named(&heap.object(*id).properties, &names);
                proof {
                    assert(h[*id as int].wf());
                    lemma_retained(h[*id as int].properties, names_view(names@));
                    lemma_members_to_json_wf(
                        h,
                        retained(h[*id as int].properties, names_view(names@)),
                        (h.len() - 1) as nat,
                    );
                }
                match Value::members_json(heap, &kept, heap.len() - 1) {
                    Ok(members) => {
                        proof {
                            lemma_object_view(members);
                        }
                        Ok(Json::Object(members))
                    },
                    Err(e) => Err(e),
                }
            } else {
                proof {
                    lemma_value_to_json_wf(h, args@[0]@, h.len());
                }
                args[0].to_json(heap)
            }
        },
        _ => {
            proof {
                lemma_value_to_json_wf(h, args@[0]@, h.len());
            }
            args[0].to_json(heap)
        },
    };
    match tree {
        Err(e) => Err(Value::String(e.message().to_owned())),
        Ok(json) => match json.to_outside() {
            None => Err(
                Value::String("TypeError: number is not an integer and cannot be written".to_owned()),
            ),
            Some(v) => {
                let indent = if args.len() >= 3 {
                    assert(models[2] == args@[2]@);
                    gap_text(&args[2])
                } else {
                    String::new()
                };
                if indent.as_str().is_empty() {
                    Ok(Value::String(render(&v)))
                } else {
                    Ok(Value::String(render_indented(&v, indent.as_str())))
                }
            },
        },
    }
}

/// The heap after `create`, and the `JSON` object: a new ordinary object
/// with the functions `parse` and `stringify`.
pub open spec fn created(h: HeapView, global: ValueView) -> (HeapView, ValueView) {
    let json = ValueView::Object(h.len() as usize);
    let h1 = h.push(fresh_object(h, Some(global)));
    let h2 = builtin_installed(h1, json, NativeFunction::JsonParse, "parse"@, 2);
    let h3 = builtin_installed(h2, json, NativeFunction::JsonStringify, "stringify"@, 3);
    (h3, json)
}

/// The heap after `init`: the `JSON` object has been made and assigned to
/// the field `JSON` of the global object.
pub open spec fn initialised(h: HeapView, global: ValueView) -> HeapView {
    set_field(created(h, global).0, global, "JSON"@, created(h, global).1)
}

/// Creates a new `JSON` object.
pub fn create(global: &Value, heap: &mut Heap) -> (json: Value)
    requires
        old(heap).wf(),
    ensures
        (final(heap)@, json@) == created(old(heap)@, global@),
        final(heap).wf(),
{
    let json = Value::new_object(heap, Some(global));
    make_builtin_fn(NativeFunction::JsonParse, "parse", &json, 2, heap);
    make_builtin_fn(NativeFunction::JsonStringify, "stringify", &json, 3, heap);
    json
}

/// Initialises the `JSON` object on the global object.
pub fn init(global: &Value, heap: &mut Heap)
    requires
        old(heap).wf(),
    ensures
        final(heap)@ == initialised(old(heap)@, global@),
        final(heap).wf(),
{
    let json = create(global, heap);
    global.set_field(heap, "JSON".to_owned(), json);
}

} // verus!
