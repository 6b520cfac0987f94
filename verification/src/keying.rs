//! How a table keyed by ordinal stands for a map keyed by tag.

use vstd::prelude::*;
use vstd::relations::injective_on;
use vstd::set_lib::lemma_map_size;
use vstd::set_lib::lemma_subset_equality;
use crate::model::{keyed_by_tag, lists_once, put};
use crate::table::lists_entries;
use crate::tagged::VariantEnum;

verus! {

/// Every value of `table` stands at the ordinal of its tag, and `table` is
/// finite.
pub open spec fn stands_by_ordinal<T: VariantEnum>(table: Map<usize, T>) -> bool {
    &&& table.dom().finite()
    &&& forall|code: usize| #[trigger]
        table.contains_key(code) ==> T::ordinal(table[code].tag()) == code
}

/// The values of `table` under their tags: a tag is present where the value
/// at its ordinal bears it.
pub open spec fn by_tag<T: VariantEnum>(table: Map<usize, T>) -> Map<T::Variant, T> {
    Map::new(
        |t: T::Variant| table.contains_key(T::ordinal(t)) && table[T::ordinal(t)].tag() == t,
        |t: T::Variant| table[T::ordinal(t)],
    )
}

/// The values of entries, in their order.
pub open spec fn values_of<T>(entries: Seq<(usize, T)>) -> Seq<T> {
    entries.map_values(|entry: (usize, T)| entry.1)
}

/// Under `stands_by_ordinal`, a tag is present exactly where its ordinal is.
pub proof fn lemma_lookup<T: VariantEnum>(table: Map<usize, T>, t: T::Variant)
    requires
        stands_by_ordinal(table),
    ensures
        by_tag(table).contains_key(t) <==> table.contains_key(T::ordinal(t)),
        table.contains_key(T::ordinal(t)) ==> by_tag(table)[t] == table[T::ordinal(t)],
{
    if table.contains_key(T::ordinal(t)) {
        T::ordinal_is_injective(t, table[T::ordinal(t)].tag());
    }
}

/// The tags of a finite table are finitely many, and as many as its entries.
pub proof fn lemma_by_tag_len<T: VariantEnum>(table: Map<usize, T>)
    requires
        stands_by_ordinal(table),
    ensures
        keyed_by_tag(by_tag(table)),
        by_tag(table).len() == table.len(),
{
    let f = |code: usize| table[code].tag();
    assert(injective_on(f, table.dom()));
    assert(table.dom().map(f) =~= by_tag(table).dom()) by {
        assert forall|t: T::Variant| by_tag(table).dom().contains(t) implies table.dom().map(
            f,
        ).contains(t) by {
            assert(table.dom().contains(T::ordinal(t)) && f(T::ordinal(t)) == t);
        }
        assert forall|t: T::Variant| table.dom().map(f).contains(t) implies by_tag(
            table,
        ).dom().contains(t) by {
            let code = choose|code: usize| table.dom().contains(code) && f(code) == t;
            assert(table.contains_key(code));
        }
    }
    lemma_map_size(table.dom(), by_tag(table).dom(), f);
}

/// Storing a value at the ordinal of its tag stores it under its tag.
pub proof fn lemma_insert<T: VariantEnum>(table: Map<usize, T>, value: T)
    requires
        stands_by_ordinal(table),
    ensures
        stands_by_ordinal(table.insert(T::ordinal(value.tag()), value)),
        by_tag(table.insert(T::ordinal(value.tag()), value)) == put(by_tag(table), value),
{
    let code = T::ordinal(value.tag());
    let after = table.insert(code, value);
    assert forall|t: T::Variant| T::ordinal(t) == code implies t == value.tag() by {
        T::ordinal_is_injective(t, value.tag());
    }
    assert(by_tag(after) =~= put(by_tag(table), value));
}

/// Taking out the value at the ordinal of a tag takes out the value under
/// that tag.
pub proof fn lemma_remove<T: VariantEnum>(table: Map<usize, T>, t: T::Variant)
    requires
        stands_by_ordinal(table),
    ensures
        stands_by_ordinal(table.remove(T::ordinal(t))),
        by_tag(table.remove(T::ordinal(t))) == by_tag(table).remove(t),
{
    let code = T::ordinal(t);
    assert forall|u: T::Variant| T::ordinal(u) == code implies u == t by {
        T::ordinal_is_injective(u, t);
    }
    assert(by_tag(table.remove(code)) =~= by_tag(table).remove(t));
}

/// The empty table stands for the empty map.
pub proof fn lemma_empty<T: VariantEnum>()
    ensures
        stands_by_ordinal(Map::<usize, T>::empty()),
        by_tag(Map::<usize, T>::empty()) == Map::<T::Variant, T>::empty(),
{
    assert(by_tag(Map::<usize, T>::empty()) =~= Map::<T::Variant, T>::empty());
}

/// A list of the entries of a table, every entry once, gives a list of the
/// values under their tags, every value once.
pub proof fn lemma_lists<T: VariantEnum>(table: Map<usize, T>, entries: Seq<(usize, T)>)
    requires
        stands_by_ordinal(table),
        lists_entries(table, entries),
    ensures
        lists_once(by_tag(table), values_of(entries)),
{
    let m = by_tag(table);
    let items = values_of(entries);
    lemma_by_tag_len(table);
    assert forall|i: int| 0 <= i < items.len() implies m.contains_key((#[trigger] items[i]).tag())
        && m[items[i].tag()] == items[i] by {
        assert(table.contains_pair(entries[i].0, entries[i].1));
        lemma_lookup(table, items[i].tag());
    }
    assert forall|i: int, j: int| 0 <= i < j < items.len() implies (#[trigger] items[i]).tag() != (
    #[trigger] items[j]).tag() by {
        assert(table.contains_pair(entries[i].0, entries[i].1));
        assert(table.contains_pair(entries[j].0, entries[j].1));
    }
    let tags = items.map_values(|value: T| value.tag());
    assert(tags.no_duplicates());
    tags.unique_seq_to_set();
    assert(tags.to_set().subset_of(m.dom())) by {
        assert forall|t: T::Variant| tags.to_set().contains(t) implies m.dom().contains(t) by {
            let i = choose|i: int| 0 <= i < tags.len() && tags[i] == t;
            assert(m.contains_key(items[i].tag()));
        }
    }
    vstd::seq_lib::seq_to_set_is_finite(tags);
    lemma_subset_equality(tags.to_set(), m.dom());
    assert forall|t: T::Variant| #[trigger] m.contains_key(t) implies exists|i: int|
        0 <= i < items.len() && #[trigger] items[i] == m[t] by {
        assert(tags.to_set().contains(t));
        let i = choose|i: int| 0 <= i < tags.len() && tags[i] == t;
        assert(items[i] == m[t]);
    }
}

} // verus!
