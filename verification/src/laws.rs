//! Laws that relate the operations of a variant set to each other, stated
//! on the maps from tag to value that the operations' contracts speak of.

use vstd::prelude::*;
use vstd::std_specs::cmp::PartialEqSpec;
use vstd::set_lib::lemma_len_subset;
use crate::model::{
    brought, call_each, keyed_by_tag, lists_once, put, put_each, put_each_if_absent,
    same_values, store, store_each, tags_brought, tags_of, tags_stored, taken_one_by_one, Call,
    Store,
};
use crate::tagged::VariantEnum;

verus! {

/// A value that `set` has stored is the value that `get` finds under its tag.
pub proof fn lemma_set_then_get<T: VariantEnum>(m: Map<T::Variant, T>, value: T)
    ensures
        put(m, value).contains_key(value.tag()),
        put(m, value)[value.tag()] == value,
{
}

/// One step of `insert` or `set` keeps every value under its own tag, and
/// adds the tag of the value that it brings, and no other, to the tags
/// present.
pub proof fn lemma_store_adds_one_tag<T: VariantEnum>(m: Map<T::Variant, T>, step: Store<T>)
    requires
        keyed_by_tag(m),
    ensures
        keyed_by_tag(store(m, step)),
        store(m, step).dom() == m.dom().insert(brought(step).tag()),
{
    assert(store(m, step).dom() =~= m.dom().insert(brought(step).tag()));
}

/// Whatever sequence of `insert` and `set` fills an empty set, it never holds
/// two values with one tag: every value stands under its own tag, the tags
/// present are those of the values brought, and their number is the number
/// of distinct tags among the values brought.
pub proof fn lemma_stores_keep_one_value_per_tag<T: VariantEnum>(steps: Seq<Store<T>>)
    ensures
        keyed_by_tag(store_each(Map::<T::Variant, T>::empty(), steps)),
        store_each(Map::<T::Variant, T>::empty(), steps).dom() == tags_brought(steps).to_set(),
        store_each(Map::<T::Variant, T>::empty(), steps).len() == tags_brought(
            steps,
        ).to_set().len(),
        store_each(Map::<T::Variant, T>::empty(), steps).len() <= steps.len(),
    decreases steps.len(),
{
    let empty = Map::<T::Variant, T>::empty();
    if steps.len() == 0 {
        assert(empty.dom() =~= tags_brought(steps).to_set());
    } else {
        let before = steps.drop_last();
        lemma_stores_keep_one_value_per_tag(before);
        lemma_store_adds_one_tag(store_each(empty, before), steps.last());
        let tag = brought(steps.last()).tag();
        assert(tags_brought(steps) =~= tags_brought(before).push(tag));
        tags_brought(before).lemma_push_to_set_commute(tag);
    }
    tags_brought(steps).lemma_cardinality_of_set();
}

/// Where no two of `values` share a tag, storing them one by one, by `insert`
/// or by `set`, leaves each of them under its tag and nothing else.
pub proof fn lemma_put_each_of_distinct_tags<T: VariantEnum>(values: Seq<T>)
    requires
        tags_of(values).no_duplicates(),
    ensures
        put_each(Map::<T::Variant, T>::empty(), values) == put_each_if_absent(
            Map::<T::Variant, T>::empty(),
            values,
        ),
        put_each(Map::<T::Variant, T>::empty(), values).dom() == tags_of(values).to_set(),
        forall|i: int|
            0 <= i < values.len() ==> put_each(Map::<T::Variant, T>::empty(), values)[(
            #[trigger] values[i]).tag()] == values[i],
    decreases values.len(),
{
    let empty = Map::<T::Variant, T>::empty();
    if values.len() == 0 {
        assert(empty.dom() =~= tags_of(values).to_set());
    } else {
        let before = values.drop_last();
        let last = values.last();
        assert(tags_of(before) =~= tags_of(values).drop_last());
        assert(tags_of(values) =~= tags_of(before).push(last.tag()));
        lemma_put_each_of_distinct_tags(before);
        tags_of(before).lemma_push_to_set_commute(last.tag());
        assert(!tags_of(before).to_set().contains(last.tag())) by {
            if tags_of(before).to_set().contains(last.tag()) {
                let i = choose|i: int| 0 <= i < before.len() && tags_of(before)[i] == last.tag();
                assert(tags_of(values)[i] == tags_of(values)[values.len() - 1]);
            }
        }
        assert forall|i: int| 0 <= i < values.len() implies put_each(empty, values)[(
        #[trigger] values[i]).tag()] == values[i] by {
            if i < values.len() - 1 {
                assert(before[i] == values[i]);
                assert(tags_of(values)[i] != tags_of(values)[values.len() - 1]);
            }
        }
    }
}

/// Two sets filled from empty with the same values in different orders are
/// equal, where no two of the values share a tag: they hold the same values
/// under the same tags, and `==` takes them for equal where it takes every
/// value for equal to itself.
pub proof fn lemma_order_of_insertion_is_immaterial<T: VariantEnum + PartialEq>(
    a: Seq<T>,
    b: Seq<T>,
)
    requires
        a.to_set() == b.to_set(),
        tags_of(a).no_duplicates(),
        tags_of(b).no_duplicates(),
    ensures
        put_each_if_absent(Map::<T::Variant, T>::empty(), a) == put_each_if_absent(
            Map::<T::Variant, T>::empty(),
            b,
        ),
        put_each(Map::<T::Variant, T>::empty(), a) == put_each(Map::<T::Variant, T>::empty(), b),
        (forall|value: T| #[trigger] value.eq_spec(&value)) ==> same_values(
            put_each_if_absent(Map::<T::Variant, T>::empty(), a),
            put_each_if_absent(Map::<T::Variant, T>::empty(), b),
        ),
{
    let empty = Map::<T::Variant, T>::empty();
    let ma = put_each(empty, a);
    let mb = put_each(empty, b);
    lemma_put_each_of_distinct_tags(a);
    lemma_put_each_of_distinct_tags(b);
    assert forall|t: T::Variant| ma.contains_key(t) implies mb.contains_key(t) && mb[t] == ma[t] by {
        let i = choose|i: int| 0 <= i < a.len() && tags_of(a)[i] == t;
        assert(a.to_set().contains(a[i]));
        assert(b.contains(a[i]));
        let j = choose|j: int| 0 <= j < b.len() && b[j] == a[i];
        assert(tags_of(b)[j] == t);
        assert(mb[b[j].tag()] == b[j]);
        assert(ma[a[i].tag()] == a[i]);
    }
    assert forall|t: T::Variant| mb.contains_key(t) implies ma.contains_key(t) by {
        let j = choose|j: int| 0 <= j < b.len() && tags_of(b)[j] == t;
        assert(b.to_set().contains(b[j]));
        assert(a.contains(b[j]));
        let i = choose|i: int| 0 <= i < a.len() && a[i] == b[j];
        assert(tags_of(a)[i] == t);
    }
    assert(ma =~= mb);
}

/// To hand out every value of a set once is to take the values out one by
/// one until none is left: a caller who reads only the first items of what
/// `drain` returns has what as many calls of `drain_next` give.
pub proof fn lemma_listed_once_is_taken_one_by_one<T: VariantEnum>(
    m: Map<T::Variant, T>,
    items: Seq<T>,
)
    requires
        keyed_by_tag(m),
        lists_once(m, items),
    ensures
        taken_one_by_one(m, items),
    decreases items.len(),
{
    if items.len() == 0 {
        assert(m.dom() =~= Set::<T::Variant>::empty()) by {
            m.dom().lemma_len0_is_empty();
        }
        assert(m =~= Map::<T::Variant, T>::empty());
    } else {
        let first = items[0];
        let rest = items.drop_first();
        let left = m.remove(first.tag());
        assert(m.contains_key(first.tag()));
        assert forall|i: int| 0 <= i < rest.len() implies left.contains_key(
            (#[trigger] rest[i]).tag(),
        ) && left[rest[i].tag()] == rest[i] by {
            assert(rest[i] == items[i + 1]);
            assert(items[0].tag() != items[i + 1].tag());
        }
        assert forall|i: int, j: int| 0 <= i < j < rest.len() implies (#[trigger] rest[i]).tag() != (
        #[trigger] rest[j]).tag() by {
            assert(rest[i] == items[i + 1]);
            assert(rest[j] == items[j + 1]);
        }
        assert forall|t: T::Variant| #[trigger] left.contains_key(t) implies exists|i: int|
            0 <= i < rest.len() && #[trigger] rest[i] == left[t] by {
            assert(m.contains_key(t));
            let i = choose|i: int| 0 <= i < items.len() && items[i] == m[t];
            assert(i != 0);
            assert(rest[i - 1] == items[i]);
        }
        lemma_listed_once_is_taken_one_by_one(left, rest);
    }
}

/// Whatever calls were made on a set since it was empty, it never holds two
/// values with one tag: every value stands under its own tag, the tags
/// present are among those of the values ever stored, and their number is no
/// more than the number of distinct tags ever stored.
pub proof fn lemma_calls_keep_one_value_per_tag<T: VariantEnum>(calls: Seq<Call<T>>)
    ensures
        keyed_by_tag(call_each(Map::<T::Variant, T>::empty(), calls)),
        tags_stored(calls).finite(),
        call_each(Map::<T::Variant, T>::empty(), calls).dom().subset_of(tags_stored(calls)),
        call_each(Map::<T::Variant, T>::empty(), calls).len() <= tags_stored(calls).len(),
    decreases calls.len(),
{
    let empty = Map::<T::Variant, T>::empty();
    if calls.len() > 0 {
        let before = calls.drop_last();
        lemma_calls_keep_one_value_per_tag(before);
        match calls.last() {
            Call::Store(step) => {
                lemma_store_adds_one_tag(call_each(empty, before), step);
            },
            _ => {},
        }
    }
    lemma_len_subset(call_each(empty, calls).dom(), tags_stored(calls));
}

} // verus!
