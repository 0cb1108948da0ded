//! The boundary to `serde_json`, which reads and writes JSON text.
//!
//! What the library holds of a `serde_json::Value` is stated over a model of
//! it, [`Document`]. The functions that call into `serde_json` are believed,
//! not verified; the conversions between documents and the library's own
//! [`Json`] trees are verified against them.

use vstd::prelude::*;
use serde_json::Value as JSONValue;
use crate::builtins::json::tree::{
    items_view, lemma_array_view, lemma_object_view, members_view, names_distinct, Json, JsonView,
    MAX_ARRAY_LENGTH,
};
use crate::builtins::number::{double_to_i64, integer_value, is_finite};

verus! {

/// Model of what a `serde_json::Value` holds. A number is an integer between
/// `i64::MIN` and `u64::MAX`, or a finite binary64 given by its bit pattern.
/// The members of an object are in the order in which they were added.
pub enum Document {
    Null,
    Bool(bool),
    Integer(int),
    Float(u64),
    Text(Seq<char>),
    Array(Seq<Document>),
    Object(Seq<(Seq<char>, Document)>),
}

/// `serde_json::Value`, a JSON value as the outside library holds it. The
/// library sees nothing inside it: what it holds is read and made through
/// the functions below.
#[verifier::external_type_specification]
#[verifier::external_body]
pub struct ExJSONValue(JSONValue);

/// `serde_json::Error`, the error of reading a text that is not JSON. The
/// library reads its message only.
#[verifier::external_type_specification]
#[verifier::external_body]
pub struct ExError(serde_json::Error);

/// What a `serde_json::Value` holds.
pub uninterp spec fn document(v: JSONValue) -> Document;

/// What `serde_json::from_str` makes of a text: the document that it reads,
/// or the message of the error that it reports.
pub uninterp spec fn parsed(text: Seq<char>) -> Result<Document, Seq<char>>;

/// The message that a `serde_json::Error` displays.
pub uninterp spec fn error_text(e: serde_json::Error) -> Seq<char>;

/// The text that `serde_json` writes for a document, without white space
/// between the tokens.
pub uninterp spec fn rendered(d: Document) -> Seq<char>;

/// The text that `serde_json` writes for a document with one element or
/// member to the line, each level indented by one more `indent`.
pub uninterp spec fn rendered_indented(d: Document, indent: Seq<char>) -> Seq<char>;

/// The bit pattern of the binary64 that an integer converts to.
pub uninterp spec fn nearest_double(i: int) -> u64;

/// The documents of `values`, in order.
pub open spec fn documents(values: Seq<JSONValue>) -> Seq<Document> {
    Seq::new(values.len(), |i: int| document(values[i]))
}

/// The names and documents of `members`, in order.
pub open spec fn member_documents(members: Seq<(String, JSONValue)>) -> Seq<
    (Seq<char>, Document),
> {
    Seq::new(members.len(), |i: int| (members[i].0@, document(members[i].1)))
}

/// The names and documents of borrowed `members`, in order.
pub open spec fn borrowed_documents(members: Seq<(&String, &JSONValue)>) -> Seq<
    (Seq<char>, Document),
> {
    Seq::new(members.len(), |i: int| (members[i].0@, document(*members[i].1)))
}

/// No member name occurs twice.
pub open spec fn document_names_distinct(members: Seq<(Seq<char>, Document)>) -> bool {
    forall|i: int, j: int|
        0 <= i < j < members.len() ==> (#[trigger] members[i]).0 != (#[trigger] members[j]).0
}

/// One level of a `serde_json::Value`, with its children still packed.
pub enum Unpacked<'a> {
    Null,
    Bool(bool),
    /// The integer that the number is, if it is one, and the bit pattern of
    /// the binary64 that it converts to.
    Number(Option<i128>, Option<u64>),
    Text(&'a String),
    Array(&'a Vec<JSONValue>),
    Object(Vec<(&'a String, &'a JSONValue)>),
}

/// Calls `serde_json::from_str` for a `serde_json::Value`. The outcome
/// depends on the text alone: `parsed` names it.
#[verifier::external_body]
pub(crate) fn parse_text(text: &str) -> (r: Result<JSONValue, serde_json::Error>)
    ensures
        match r {
            Ok(v) => parsed(text@) == Ok::<Document, Seq<char>>(document(v)),
            Err(e) => parsed(text@) == Err::<Document, Seq<char>>(error_text(e)),
        },
{
    serde_json::from_str::<JSONValue>(text)
}

/// Calls `to_string` on a `serde_json::Error`, which gives the message that
/// the error displays.
#[verifier::external_body]
pub(crate) fn error_message(e: &serde_json::Error) -> (r: String)
    ensures
        r@ == error_text(*e),
{
    e.to_string()
}

/// Calls `to_string` on a `serde_json::Value`, which writes it as compact
/// JSON text. The text depends on what the value holds alone: `rendered`
/// names it.
#[verifier::external_body]
pub(crate) fn render(v: &JSONValue) -> (r: String)
    ensures
        r@ == rendered(document(*v)),
{
    v.to_string()
}

/// Writes a `serde_json::Value` through a `serde_json::Serializer` whose
/// formatter is `PrettyFormatter::with_indent`. Writing to a vector does not
/// fail, and what is written is UTF-8. The text depends on what the value
/// holds and on the indent alone: `rendered_indented` names it.
#[verifier::external_body]
pub(crate) fn render_indented(v: &JSONValue, indent: &str) -> (r: String)
    ensures
        r@ == rendered_indented(document(*v), indent@),
{
    let mut out = Vec::new();
    let formatter = serde_json::ser::PrettyFormatter::with_indent(indent.as_bytes());
    let mut serializer = serde_json::Serializer::with_formatter(&mut out, formatter);
    serde::Serialize::serialize(v, &mut serializer).expect("writing to a vector does not fail");
    String::from_utf8(out).expect("JSON text is UTF-8")
}

/// Takes one level of a `serde_json::Value` apart. A number is read with
/// `Number::as_i128`, which gives the integer of an integer number and
/// nothing for any other, and with `Number::as_f64`, which converts an
/// integer and hands a float, which is always finite, out as it is; the
/// members of an object come from `Map::iter`, in the map's order, and no
/// two of them have the same name.
#[verifier::external_body]
pub(crate) fn unpack<'a>(v: &'a JSONValue) -> (r: Unpacked<'a>)
    ensures
        match r {
            Unpacked::Null => document(*v) is Null,
            Unpacked::Bool(b) => document(*v) == Document::Bool(b),
            Unpacked::Number(Some(i), f) => {
                &&& document(*v) == Document::Integer(i as int)
                &&& i64::MIN <= i <= u64::MAX
                &&& f == Some(nearest_double(i as int))
                &&& is_finite(nearest_double(i as int))
            },
            Unpacked::Number(None, f) => {
                &&& f matches Some(bits)
                &&& document(*v) == Document::Float(bits)
                &&& is_finite(bits)
            },
            Unpacked::Text(s) => document(*v) == Document::Text(s@),
            Unpacked::Array(items) => document(*v) == Document::Array(documents(items@)),
            Unpacked::Object(members) => {
                &&& document(*v) == Document::Object(borrowed_documents(members@))
                &&& document_names_distinct(borrowed_documents(members@))
            },
        },
{
    match v {
        JSONValue::Null => Unpacked::Null,
        JSONValue::Bool(b) => Unpacked::Bool(*b),
        JSONValue::Number(n) => Unpacked::Number(n.as_i128(), n.as_f64().map(|x| x.to_bits())),
        JSONValue::String(s) => Unpacked::Text(s),
        JSONValue::Array(items) => Unpacked::Array(items),
        JSONValue::Object(map) => Unpacked::Object(map.iter().collect()),
    }
}

/// `serde_json::Value::Null`.
#[verifier::external_body]
pub(crate) fn make_null() -> (r: JSONValue)
    ensures
        document(r) == Document::Null,
{
    JSONValue::Null
}

/// `serde_json::Value::Bool`.
#[verifier::external_body]
pub(crate) fn make_bool(b: bool) -> (r: JSONValue)
    ensures
        document(r) == Document::Bool(b),
{
    JSONValue::Bool(b)
}

/// `serde_json::Value::from` on an `i64`, which makes an integer number.
#[verifier::external_body]
pub(crate) fn make_integer(i: i64) -> (r: JSONValue)
    ensures
        document(r) == Document::Integer(i as int),
{
    JSONValue::from(i)
}

/// `serde_json::Value::String`.
#[verifier::external_body]
pub(crate) fn make_text(s: String) -> (r: JSONValue)
    ensures
        document(r) == Document::Text(s@),
{
    JSONValue::String(s)
}

/// `serde_json::Value::Array`.
#[verifier::external_body]
pub(crate) fn make_array(items: Vec<JSONValue>) -> (r: JSONValue)
    ensures
        document(r) == Document::Array(documents(items@)),
{
    JSONValue::Array(items)
}

/// `serde_json::Value::Object` of a map collected from the members. Where
/// the names differ, the map holds the members in the order given.
#[verifier::external_body]
pub(crate) fn make_object(members: Vec<(String, JSONValue)>) -> (r: JSONValue)
    requires
        document_names_distinct(member_documents(members@)),
    ensures
        document(r) == Document::Object(member_documents(members@)),
{
    JSONValue::Object(members.into_iter().collect())
}

/// The JSON tree that the library reads from a document. An integer that
/// fits in 32 bits stays an integer; any other number is taken as the
/// binary64 that it converts to. There is no tree where an array is longer
/// than [`MAX_ARRAY_LENGTH`].
pub open spec fn from_document(d: Document) -> Option<JsonView>
    decreases d, 0nat,
{
    match d {
        Document::Null => Some(JsonView::Null),
        Document::Bool(b) => Some(JsonView::Bool(b)),
        Document::Integer(i) => Some(
            if i32::MIN <= i <= i32::MAX {
                JsonView::Integer(i as i32)
            } else {
                JsonView::Rational(nearest_double(i))
            },
        ),
        Document::Float(bits) => Some(JsonView::Rational(bits)),
        Document::Text(s) => Some(JsonView::String(s)),
        Document::Array(items) => if items.len() > MAX_ARRAY_LENGTH {
            None
        } else {
            match from_documents(items) {
                Some(trees) => Some(JsonView::Array(trees)),
                None => None,
            }
        },
        Document::Object(members) => match from_member_documents(members) {
            Some(trees) => Some(JsonView::Object(trees)),
            None => None,
        },
    }
}

/// The JSON trees of `items`, if each has one.
pub open spec fn from_documents(items: Seq<Document>) -> Option<Seq<JsonView>>
    decreases items, 1nat,
{
    if items.len() == 0 {
        Some(Seq::empty())
    } else {
        match (from_documents(items.drop_last()), from_document(items.last())) {
            (Some(front), Some(last)) => Some(front.push(last)),
            _ => None,
        }
    }
}

/// The names and JSON trees of `members`, if each has a tree.
pub open spec fn from_member_documents(members: Seq<(Seq<char>, Document)>) -> Option<
    Seq<(Seq<char>, JsonView)>,
>
    decreases members, 1nat,
{
    if members.len() == 0 {
        Some(Seq::empty())
    } else {
        match (from_member_documents(members.drop_last()), from_document(members.last().1)) {
            (Some(front), Some(last)) => Some(front.push((members.last().0, last))),
            _ => None,
        }
    }
}

/// The document that is written for a JSON tree. A number that is an
/// integer of at most 64 bits is written as that integer. There is no
/// document where the tree holds any other number.
pub open spec fn to_document(j: JsonView) -> Option<Document>
    decreases j, 0nat,
{
    match j {
        JsonView::Null => Some(Document::Null),
        JsonView::Bool(b) => Some(Document::Bool(b)),
        JsonView::Integer(i) => Some(Document::Integer(i as int)),
        JsonView::Rational(bits) => match integer_value(bits) {
            Some(i) => if i64::MIN <= i <= i64::MAX {
                Some(Document::Integer(i))
            } else {
                None
            },
            None => None,
        },
        JsonView::String(s) => Some(Document::Text(s)),
        JsonView::Array(items) => match to_documents(items) {
            Some(d) => Some(Document::Array(d)),
            None => None,
        },
        JsonView::Object(members) => match to_member_documents(members) {
            Some(d) => Some(Document::Object(d)),
            None => None,
        },
    }
}

/// The documents of `items`, if each has one.
pub open spec fn to_documents(items: Seq<JsonView>) -> Option<Seq<Document>>
    decreases items, 1nat,
{
    if items.len() == 0 {
        Some(Seq::empty())
    } else {
        match (to_documents(items.drop_last()), to_document(items.last())) {
            (Some(front), Some(last)) => Some(front.push(last)),
            _ => None,
        }
    }
}

/// The names and documents of `members`, if each has a document.
pub open spec fn to_member_documents(members: Seq<(Seq<char>, JsonView)>) -> Option<
    Seq<(Seq<char>, Document)>,
>
    decreases members, 1nat,
{
    if members.len() == 0 {
        Some(Seq::empty())
    } else {
        match (to_member_documents(members.drop_last()), to_document(members.last().1)) {
            (Some(front), Some(last)) => Some(front.push((members.last().0, last))),
            _ => None,
        }
    }
}

/// Where a prefix of `items` has no trees, `items` has none.
pub proof fn lemma_from_documents_none(items: Seq<Document>, k: int)
    requires
        0 <= k <= items.len(),
        from_documents(items.take(k)) is None,
    ensures
        from_documents(items) is None,
    decreases items.len() - k,
{
    if k < items.len() {
        assert(items.take(k + 1).drop_last() =~= items.take(k));
        lemma_from_documents_none(items, k + 1);
    } else {
        assert(items.take(k) =~= items);
    }
}

/// Where a prefix of `members` has no trees, `members` has none.
pub proof fn lemma_from_member_documents_none(members: Seq<(Seq<char>, Document)>, k: int)
    requires
        0 <= k <= members.len(),
        from_member_documents(members.take(k)) is None,
    ensures
        from_member_documents(members) is None,
    decreases members.len() - k,
{
    if k < members.len() {
        assert(members.take(k + 1).drop_last() =~= members.take(k));
        lemma_from_member_documents_none(members, k + 1);
    } else {
        assert(members.take(k) =~= members);
    }
}

/// Where a prefix of `items` has no documents, `items` has none.
pub proof fn lemma_to_documents_none(items: Seq<JsonView>, k: int)
    requires
        0 <= k <= items.len(),
        to_documents(items.take(k)) is None,
    ensures
        to_documents(items) is None,
    decreases items.len() - k,
{
    if k < items.len() {
        assert(items.take(k + 1).drop_last() =~= items.take(k));
        lemma_to_documents_none(items, k + 1);
    } else {
        assert(items.take(k) =~= items);
    }
}

/// Where a prefix of `members` has no documents, `members` has none.
pub proof fn lemma_to_member_documents_none(members: Seq<(Seq<char>, JsonView)>, k: int)
    requires
        0 <= k <= members.len(),
        to_member_documents(members.take(k)) is None,
    ensures
        to_member_documents(members) is None,
    decreases members.len() - k,
{
    if k < members.len() {
        assert(members.take(k + 1).drop_last() =~= members.take(k));
        lemma_to_member_documents_none(members, k + 1);
    } else {
        assert(members.take(k) =~= members);
    }
}

/// The names of the members that `to_member_documents` gives are those of
/// the members it was given.
pub proof fn lemma_to_member_documents_names(members: Seq<(Seq<char>, JsonView)>)
    requires
        to_member_documents(members) is Some,
    ensures
        to_member_documents(members)->0.len() == members.len(),
        forall|i: int|
            0 <= i < members.len() ==> (#[trigger] to_member_documents(members)->0[i]).0
                == members[i].0,
    decreases members.len(),
{
    if members.len() > 0 {
        lemma_to_member_documents_names(members.drop_last());
    }
}

/// The names of the members that `from_member_documents` gives are those of
/// the members it was given.
pub proof fn lemma_from_member_documents_names(members: Seq<(Seq<char>, Document)>)
    requires
        from_member_documents(members) is Some,
    ensures
        from_member_documents(members)->0.len() == members.len(),
        forall|i: int|
            0 <= i < members.len() ==> (#[trigger] from_member_documents(members)->0[i]).0
                == members[i].0,
    decreases members.len(),
{
    if members.len() > 0 {
        lemma_from_member_documents_names(members.drop_last());
    }
}

impl Json {
    /// The JSON tree of a `serde_json::Value`, as [`from_document`] defines
    /// it. The tree is valid.
    #[verifier::loop_isolation(false)]
    pub fn from_outside(v: &JSONValue) -> (r: Option<Json>)
        ensures
            match r {
                Some(j) => from_document(document(*v)) == Some(j@) && j@.wf() && j@.fits(),
                None => from_document(document(*v)) is None,
            },
        decreases document(*v),
    {
        match unpack(v) {
            Unpacked::Null => Some(Json::Null),
            Unpacked::Bool(b) => Some(Json::Bool(b)),
            Unpacked::Number(Some(i), Some(bits)) => if -0x8000_0000 <= i && i <= 0x7fff_ffff {
                Some(Json::Integer(i as i32))
            } else {
                Some(Json::Rational(bits))
            },
            Unpacked::Number(Some(_), None) => None,
            Unpacked::Number(None, Some(bits)) => Some(Json::Rational(bits)),
            Unpacked::Number(None, None) => None,
            Unpacked::Text(s) => Some(Json::String(s.clone())),
            Unpacked::Array(items) => {
                let ghost docs = documents(items@);
                if items.len() > MAX_ARRAY_LENGTH {
                    return None;
                }
                let mut trees: Vec<Json> = Vec::new();
                let mut i: usize = 0;
                proof {
                    assert(docs.take(0) =~= Seq::empty());
                    assert(items_view(trees@) =~= Seq::empty());
                }
                while i < items.len()
                    invariant
                        i <= items.len(),
                        from_documents(docs.take(i as int)) == Some(items_view(trees@)),
                        forall|k: int| 0 <= k < trees@.len() ==> (#[trigger] trees@[k])@.wf(),
                        forall|k: int| 0 <= k < trees@.len() ==> (#[trigger] trees@[k])@.fits(),
                        trees@.len() == i,
                    decreases items.len() - i,
                {
                    proof {
                        assert(docs.take(i + 1).drop_last() =~= docs.take(i as int));
                        assert(docs.take(i + 1).last() == document(items@[i as int]));
                        assert(docs[i as int] == document(items@[i as int]));
                    }
                    match Json::from_outside(&items[i]) {
                        Some(j) => {
                            let ghost before = items_view(trees@);
                            trees.push(j);
                            assert(items_view(trees@) =~= before.push(j@));
                        },
                        None => {
                            proof {
                                lemma_from_documents_none(docs, i + 1);
                            }
                            return None;
                        },
                    }
                    i += 1;
                }
                proof {
                    assert(docs.take(items.len() as int) =~= docs);
                    lemma_array_view(trees);
                }
                Some(Json::Array(trees))
            },
            Unpacked::Object(members) => {
                let ghost docs = borrowed_documents(members@);
                let mut trees: Vec<(String, Json)> = Vec::new();
                let mut i: usize = 0;
                proof {
                    assert(docs.take(0) =~= Seq::empty());
                    assert(members_view(trees@) =~= Seq::empty());
                }
                while i < members.len()
                    invariant
                        i <= members.len(),
                        from_member_documents(docs.take(i as int)) == Some(members_view(trees@)),
                        forall|k: int| 0 <= k < trees@.len() ==> (#[trigger] trees@[k]).1@.wf(),
                        forall|k: int| 0 <= k < trees@.len() ==> (#[trigger] trees@[k]).1@.fits(),
                        trees@.len() == i,
                    decreases members.len() - i,
                {
                    proof {
                        assert(docs.take(i + 1).drop_last() =~= docs.take(i as int));
                        assert(docs.take(i + 1).last() == docs[i as int]);
                        assert(docs[i as int].1 == document(*members@[i as int].1));
                    }
                    match Json::from_outside(members[i].1) {
                        Some(j) => {
                            let ghost before = members_view(trees@);
                            let name = members[i].0.clone();
                            trees.push((name, j));
                            assert(members_view(trees@) =~= before.push((docs[i as int].0, j@)));
                        },
                        None => {
                            proof {
                                lemma_from_member_documents_none(docs, i + 1);
                            }
                            return None;
                        },
                    }
                    i += 1;
                }
                proof {
                    assert(docs.take(members.len() as int) =~= docs);
                    lemma_object_view(trees);
                    lemma_from_member_documents_names(docs);
                    let names = members_view(trees@);
                    assert(names_distinct(names)) by {
                        assert forall|a: int, b: int| 0 <= a < b < names.len() implies (
                        #[trigger] names[a]).0 != (#[trigger] names[b]).0 by {
                            assert(docs[a].0 != docs[b].0);
                        }
                    }
                }
                Some(Json::Object(trees))
            },
        }
    }

    /// The `serde_json::Value` that is written for a JSON tree, as
    /// [`to_document`] defines it.
    #[verifier::loop_isolation(false)]
    pub fn to_outside(&self) -> (r: Option<JSONValue>)
        requires
            self@.wf(),
        ensures
            match r {
                Some(v) => to_document(self@) == Some(document(v)),
                None => to_document(self@) is None,
            },
        decreases self,
    {
        match self {
            Json::Null => Some(make_null()),
            Json::Bool(b) => Some(make_bool(*b)),
            Json::Integer(i) => Some(make_integer(*i as i64)),
            Json::Rational(bits) => match double_to_i64(*bits) {
                Some(i) => Some(make_integer(i)),
                None => None,
            },
            Json::String(s) => Some(make_text(s.clone())),
            Json::Array(items) => {
                proof {
                    lemma_array_view(*items);
                }
                let ghost trees = items_view(items@);
                let mut values: Vec<JSONValue> = Vec::new();
                let mut i: usize = 0;
                proof {
                    assert(trees.take(0) =~= Seq::empty());
                    assert(documents(values@) =~= Seq::empty());
                }
                while i < items.len()
                    invariant
                        i <= items.len(),
                        to_documents(trees.take(i as int)) == Some(documents(values@)),
                    decreases items.len() - i,
                {
                    proof {
                        assert(trees.take(i + 1).drop_last() =~= trees.take(i as int));
                        assert(trees.take(i + 1).last() == items@[i as int]@);
                        assert(trees[i as int].wf());
                    }
                    match items[i].to_outside() {
                        Some(v) => {
                            let ghost before = documents(values@);
                            values.push(v);
                            assert(documents(values@) =~= before.push(document(v)));
                        },
                        None => {
                            proof {
                                lemma_to_documents_none(trees, i + 1);
                            }
                            return None;
                        },
                    }
                    i += 1;
                }
                proof {
                    assert(trees.take(items.len() as int) =~= trees);
                }
                Some(make_array(values))
            },
            Json::Object(members) => {
                proof {
                    lemma_object_view(*members);
                }
                let ghost trees = members_view(members@);
                let mut values: Vec<(String, JSONValue)> = Vec::new();
                let mut i: usize = 0;
                proof {
                    assert(trees.take(0) =~= Seq::empty());
                    assert(member_documents(values@) =~= Seq::empty());
                }
                while i < members.len()
                    invariant
                        i <= members.len(),
                        to_member_documents(trees.take(i as int)) == Some(member_documents(values@)),
                    decreases members.len() - i,
                {
                    proof {
                        assert(trees.take(i + 1).drop_last() =~= trees.take(i as int));
                        assert(trees.take(i + 1).last() == trees[i as int]);
                        assert(trees[i as int].1 == members@[i as int].1@);
                        assert(trees[i as int].1.wf());
                    }
                    match members[i].1.to_outside() {
                        Some(v) => {
                            let ghost before = member_documents(values@);
                            let name = members[i].0.clone();
                            values.push((name, v));
                            assert(member_documents(values@) =~= before.push(
                                (trees[i as int].0, document(v)),
                            ));
                        },
                        None => {
                            proof {
                                lemma_to_member_documents_none(trees, i + 1);
                            }
                            return None;
                        },
                    }
                    i += 1;
                }
                proof {
                    assert(trees.take(members.len() as int) =~= trees);
                    lemma_to_member_documents_names(trees);
                    let docs = member_documents(values@);
                    assert(document_names_distinct(docs)) by {
                        assert forall|a: int, b: int| 0 <= a < b < docs.len() implies (
                        #[trigger] docs[a]).0 != (#[trigger] docs[b]).0 by {
                            assert(trees[a].0 != trees[b].0);
                        }
                    }
                }
                Some(make_object(values))
            },
        }
    }
}

} // verus!
