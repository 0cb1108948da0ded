//! What holds of the mapping between JSON trees and script values.

use vstd::prelude::*;
use crate::builtins::json::tree::{
    array_object, elements_to_json, items_height, items_to_values, json_to_value,
    lemma_items_to_values_grows, lemma_json_to_value_grows, lemma_members_to_values_grows,
    member_names, members_height, members_to_json, members_to_values, record_object,
    unrepresentable, value_to_json, JsonError, JsonView,
};
use crate::builtins::object::HeapView;
use crate::builtins::value::ValueView;

verus! {

/// `g` holds every object of `h`, unchanged, at the index it has in `h`.
pub open spec fn extends(h: HeapView, g: HeapView) -> bool {
    &&& h.len() <= g.len()
    &&& forall|i: int| 0 <= i < h.len() ==> g[i] == h[i]
}

/// No item is nested deeper than `items_height` says.
proof fn lemma_item_height(items: Seq<JsonView>, i: int)
    requires
        0 <= i < items.len(),
    ensures
        items[i].height() <= items_height(items),
    decreases items.len(),
{
    if i < items.len() - 1 {
        lemma_item_height(items.drop_last(), i);
    }
}

/// No member is nested deeper than `members_height` says.
proof fn lemma_member_height(members: Seq<(Seq<char>, JsonView)>, i: int)
    requires
        0 <= i < members.len(),
    ensures
        members[i].1.height() <= members_height(members),
    decreases members.len(),
{
    if i < members.len() - 1 {
        lemma_member_height(members.drop_last(), i);
    }
}

/// The value of a JSON tree adds at least as many objects to the heap as the
/// tree is deep.
proof fn lemma_height_bound(h: HeapView, j: JsonView)
    ensures
        json_to_value(h, j).0.len() >= h.len() + j.height(),
    decreases j, 0nat,
{
    match j {
        JsonView::Array(items) => {
            lemma_items_height_bound(h, items);
        },
        JsonView::Object(members) => {
            lemma_members_height_bound(h, members);
        },
        _ => {},
    }
}

proof fn lemma_items_height_bound(h: HeapView, items: Seq<JsonView>)
    ensures
        items_to_values(h, items).0.len() >= h.len() + items_height(items),
    decreases items, 1nat,
{
    if items.len() > 0 {
        let h1 = items_to_values(h, items.drop_last()).0;
        lemma_items_height_bound(h, items.drop_last());
        lemma_height_bound(h1, items.last());
        lemma_json_to_value_grows(h1, items.last());
        lemma_items_to_values_grows(h, items.drop_last());
    }
}

proof fn lemma_members_height_bound(h: HeapView, members: Seq<(Seq<char>, JsonView)>)
    ensures
        members_to_values(h, members).0.len() >= h.len() + members_height(members),
    decreases members, 1nat,
{
    if members.len() > 0 {
        let h1 = members_to_values(h, members.drop_last()).0;
        lemma_members_height_bound(h, members.drop_last());
        lemma_height_bound(h1, members.last().1);
        lemma_json_to_value_grows(h1, members.last().1);
        lemma_members_to_values_grows(h, members.drop_last());
    }
}

/// The elements of the array object of `values` are read back as `items`,
/// where each value is read back as its item.
proof fn lemma_array_prefix(
    g: HeapView,
    values: Seq<ValueView>,
    items: Seq<JsonView>,
    fuel: nat,
    k: nat,
)
    requires
        values.len() == items.len(),
        k <= items.len(),
        forall|i: int|
            0 <= i < items.len() ==> value_to_json(g, #[trigger] values[i], fuel) == Ok::<
                JsonView,
                JsonError,
            >(items[i]),
    ensures
        elements_to_json(g, array_object(values).properties.take(k as int), fuel) == Ok::<
            Seq<JsonView>,
            JsonError,
        >(items.take(k as int)),
    decreases k,
{
    let props = array_object(values).properties;
    if k == 0 {
        assert(props.take(0) =~= Seq::empty());
        assert(items.take(0) =~= Seq::empty());
    } else {
        lemma_array_prefix(g, values, items, fuel, (k - 1) as nat);
        assert(props.take(k as int).drop_last() =~= props.take(k - 1));
        assert(props.take(k as int).last() == props[k - 1]);
        assert(props[k - 1].1.value() == values[k - 1]);
        assert(items.take(k as int) =~= items.take(k - 1).push(items[k - 1]));
    }
}

/// The members of the object of `values` under the names of `members` are
/// read back as `members`, where each value is read back as its member's
/// tree and none is left out.
proof fn lemma_record_prefix(
    g: HeapView,
    values: Seq<ValueView>,
    members: Seq<(Seq<char>, JsonView)>,
    fuel: nat,
    k: nat,
)
    requires
        values.len() == members.len(),
        k <= members.len(),
        forall|i: int|
            0 <= i < members.len() ==> value_to_json(g, #[trigger] values[i], fuel) == Ok::<
                JsonView,
                JsonError,
            >(members[i].1) && !unrepresentable(values[i]),
    ensures
        members_to_json(
            g,
            record_object(member_names(members), values).properties.take(k as int),
            fuel,
        ) == Ok::<Seq<(Seq<char>, JsonView)>, JsonError>(members.take(k as int)),
    decreases k,
{
    let props = record_object(member_names(members), values).properties;
    if k == 0 {
        assert(props.take(0) =~= Seq::empty());
        assert(members.take(0) =~= Seq::empty());
    } else {
        lemma_record_prefix(g, values, members, fuel, (k - 1) as nat);
        assert(props.take(k as int).drop_last() =~= props.take(k - 1));
        assert(props.take(k as int).last() == props[k - 1]);
        assert(props[k - 1].1.value() == values[k - 1]);
        assert(props[k - 1].0 == members[k - 1].0);
        assert(members.take(k as int) =~= members.take(k - 1).push(members[k - 1]));
    }
}

/// The value of a valid JSON tree is read back as that tree from any heap
/// that holds the objects that were made for it, with fuel for its depth.
proof fn lemma_round_trip_in(h: HeapView, j: JsonView, g: HeapView, fuel: nat)
    requires
        j.wf(),
        j.fits(),
        extends(json_to_value(h, j).0, g),
        fuel >= j.height(),
        json_to_value(h, j).0.len() <= usize::MAX,
    ensures
        value_to_json(g, json_to_value(h, j).1, fuel) == Ok::<JsonView, JsonError>(j),
        !unrepresentable(json_to_value(h, j).1),
    decreases j, 2nat,
{
    match j {
        JsonView::Array(items) => {
            let (h1, values) = items_to_values(h, items);
            lemma_items_to_values_grows(h, items);
            let after = h1.push(array_object(values));
            assert(after[h1.len() as int] == array_object(values));
            assert(g[h1.len() as int] == array_object(values));
            assert forall|i: int| 0 <= i < h1.len() implies g[i] == h1[i] by {
                assert(after[i] == h1[i]);
            }
            lemma_items_round_trip(h, items, g, (fuel - 1) as nat);
            lemma_array_prefix(g, values, items, (fuel - 1) as nat, items.len());
            let props = array_object(values).properties;
            assert(props.drop_last() =~= props.take(items.len() as int));
            assert(items.take(items.len() as int) =~= items);
            assert(!props.last().1.enumerable);
        },
        JsonView::Object(members) => {
            let (h1, values) = members_to_values(h, members);
            lemma_members_to_values_grows(h, members);
            let object = record_object(member_names(members), values);
            let after = h1.push(object);
            assert(after[h1.len() as int] == object);
            assert(g[h1.len() as int] == object);
            assert forall|i: int| 0 <= i < h1.len() implies g[i] == h1[i] by {
                assert(after[i] == h1[i]);
            }
            lemma_members_round_trip(h, members, g, (fuel - 1) as nat);
            lemma_record_prefix(g, values, members, (fuel - 1) as nat, members.len());
            assert(object.properties.take(members.len() as int) =~= object.properties);
            assert(members.take(members.len() as int) =~= members);
        },
        _ => {},
    }
}

proof fn lemma_items_round_trip(h: HeapView, items: Seq<JsonView>, g: HeapView, fuel: nat)
    requires
        forall|i: int| 0 <= i < items.len() ==> (#[trigger] items[i]).wf() && items[i].fits(),
        extends(items_to_values(h, items).0, g),
        fuel >= items_height(items),
        items_to_values(h, items).0.len() <= usize::MAX,
    ensures
        items_to_values(h, items).1.len() == items.len(),
        forall|i: int|
            0 <= i < items.len() ==> value_to_json(
                g,
                #[trigger] items_to_values(h, items).1[i],
                fuel,
            ) == Ok::<JsonView, JsonError>(items[i]),
    decreases items, 1nat,
{
    if items.len() > 0 {
        let front = items.drop_last();
        let (h1, front_values) = items_to_values(h, front);
        lemma_json_to_value_grows(h1, items.last());
        lemma_items_to_values_grows(h, front);
        assert forall|i: int| 0 <= i < front.len() implies (#[trigger] front[i]).wf()
            && front[i].fits() by {
            assert(front[i] == items[i]);
        }
        lemma_items_round_trip(h, front, g, fuel);
        assert(items.last() == items[items.len() - 1]);
        lemma_round_trip_in(h1, items.last(), g, fuel);
        let values = items_to_values(h, items).1;
        assert forall|i: int| 0 <= i < items.len() implies value_to_json(
            g,
            #[trigger] values[i],
            fuel,
        ) == Ok::<JsonView, JsonError>(items[i]) by {
            if i < front.len() {
                assert(values[i] == front_values[i]);
                assert(front[i] == items[i]);
            }
        }
    }
}

proof fn lemma_members_round_trip(
    h: HeapView,
    members: Seq<(Seq<char>, JsonView)>,
    g: HeapView,
    fuel: nat,
)
    requires
        forall|i: int|
            0 <= i < members.len() ==> (#[trigger] members[i]).1.wf() && members[i].1.fits(),
        extends(members_to_values(h, members).0, g),
        fuel >= members_height(members),
        members_to_values(h, members).0.len() <= usize::MAX,
    ensures
        members_to_values(h, members).1.len() == members.len(),
        forall|i: int|
            0 <= i < members.len() ==> value_to_json(
                g,
                #[trigger] members_to_values(h, members).1[i],
                fuel,
            ) == Ok::<JsonView, JsonError>(members[i].1) && !unrepresentable(
                members_to_values(h, members).1[i],
            ),
    decreases members, 1nat,
{
    if members.len() > 0 {
        let front = members.drop_last();
        let (h1, front_values) = members_to_values(h, front);
        lemma_json_to_value_grows(h1, members.last().1);
        lemma_members_to_values_grows(h, front);
        assert forall|i: int| 0 <= i < front.len() implies (#[trigger] front[i]).1.wf()
            && front[i].1.fits() by {
            assert(front[i] == members[i]);
        }
        lemma_members_round_trip(h, front, g, fuel);
        assert(members.last() == members[members.len() - 1]);
        lemma_round_trip_in(h1, members.last().1, g, fuel);
        let values = members_to_values(h, members).1;
        assert forall|i: int| 0 <= i < members.len() implies value_to_json(
            g,
            #[trigger] values[i],
            fuel,
        ) == Ok::<JsonView, JsonError>(members[i].1) && !unrepresentable(values[i]) by {
            if i < front.len() {
                assert(values[i] == front_values[i]);
                assert(front[i] == members[i]);
            }
        }
    }
}

/// A JSON tree that is turned into a script value and read back is the same
/// tree: for every valid tree `j` whose arrays a script array can hold,
/// `to_json(from_json(j))` is `j`.
pub proof fn law_json_round_trip(h: HeapView, j: JsonView)
    requires
        j.wf(),
        j.fits(),
        json_to_value(h, j).0.len() <= usize::MAX,
    ensures
        value_to_json(json_to_value(h, j).0, json_to_value(h, j).1, json_to_value(h, j).0.len())
            == Ok::<JsonView, JsonError>(j),
{
    lemma_height_bound(h, j);
    lemma_round_trip_in(h, j, json_to_value(h, j).0, json_to_value(h, j).0.len());
}

} // verus!
