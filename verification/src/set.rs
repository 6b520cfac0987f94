//! The variant set itself.
//!
//! A set keeps its values in a table keyed by the ordinal of each value's
//! tag. What it holds is told by its view, the map from each tag present to
//! the value stored under it, and every operation is described by what it
//! does to that map.

use vstd::prelude::*;
use vstd::std_specs::cmp::PartialEqSpec;
use std::collections::TryReserveError;
use crate::keying::{
    by_tag, lemma_by_tag_len, lemma_empty, lemma_insert, lemma_lists, lemma_lookup, lemma_remove,
    stands_by_ordinal, values_of,
};
use crate::laws::lemma_listed_once_is_taken_one_by_one;
use crate::model::{
    holds_equal, keyed_by_tag, lists_once, put, put_each, put_if_absent, taken_one_by_one,
};
use crate::table::{
    lemma_room_for_what_is_held, owned, table_capacity, table_clear, table_contains, table_drain,
    table_entries, table_get, table_insert, table_len, table_remove, table_reserve,
    table_shrink_to, table_shrink_to_fit, table_some_key, table_try_reserve, Table,
};
use crate::tagged::VariantEnum;

verus! {

/// A set of values of a sum type that holds at most one value per variant.
///
/// Its view is the map from each tag that is present to the value stored
/// under it.
#[derive(Debug)]
pub struct VariantSet<T: VariantEnum> {
    data: Table<T>,
}

impl<T: VariantEnum> View for VariantSet<T> {
    type V = Map<T::Variant, T>;

    closed spec fn view(&self) -> Map<T::Variant, T> {
        if stands_by_ordinal(self.data@) {
            by_tag(self.data@)
        } else {
            Map::empty()
        }
    }
}

impl<T: VariantEnum> VariantSet<T> {
    #[verifier::type_invariant]
    spec fn well_formed(&self) -> bool {
        stands_by_ordinal(self.data@)
    }

    /// Whatever was done to a set, it never holds two values with one tag:
    /// each value is stored under its own tag, and the tags present are
    /// finitely many.
    pub proof fn lemma_one_value_per_tag(&self)
        ensures
            keyed_by_tag(self@),
    {
        if stands_by_ordinal(self.data@) {
            lemma_by_tag_len(self.data@);
        }
    }

    /// Whether `capacity` is an answer that `capacity` may give on the set
    /// as it is. How much room a set has depends on what was allocated for
    /// it, so its room is told by what holds of these answers.
    pub closed spec fn answers(&self, capacity: usize) -> bool {
        crate::table::answers(self.data, capacity)
    }

    /// Whether the set has room for `n` values without allocating again:
    /// whatever `capacity` returns on it is at least `n`.
    pub closed spec fn has_room(&self, n: int) -> bool {
        crate::table::has_room(self.data, n)
    }

    /// A set that has room for `m` values has room for any fewer.
    pub proof fn lemma_room_for_fewer(&self, n: int, m: int)
        requires
            self.has_room(m),
            n <= m,
        ensures
            self.has_room(n),
    {
    }

    /// A set has room for the values that it holds.
    pub proof fn lemma_room_for_the_values_held(&self)
        ensures
            self.has_room(self@.len() as int),
    {
        if stands_by_ordinal(self.data@) {
            lemma_by_tag_len(self.data@);
        }
        lemma_room_for_what_is_held(self.data);
    }

    /// Moves the table out, leaving an empty one in its place.
    fn take_table(&mut self) -> (table: Table<T>)
        ensures
            table == old(self).data,
            stands_by_ordinal(table@),
            final(self).data@ == Map::<usize, T>::empty(),
    {
        proof {
            use_type_invariant(&*self);
            lemma_empty::<T>();
        }
        let mut table = Table::default();
        std::mem::swap(&mut self.data, &mut table);
        table
    }

    /// Creates an empty set.
    #[must_use]
    pub fn new() -> (set: Self)
        ensures
            set@ == Map::<T::Variant, T>::empty(),
    {
        proof {
            lemma_empty::<T>();
        }
        VariantSet { data: Table::default() }
    }

    /// Creates an empty set with room for `capacity` values. The capacity
    /// is a hint for the allocation and no limit: it may exceed the number of
    /// variants, and the set grows beyond it as any other.
    #[must_use]
    pub fn with_capacity(capacity: usize) -> (set: Self)
        ensures
            set@ == Map::<T::Variant, T>::empty(),
            set.has_room(capacity as int),
    {
        proof {
            lemma_empty::<T>();
        }
        let mut table = Table::default();
        table_reserve(&mut table, capacity);
        VariantSet { data: table }
    }

    /// Returns the number of values for which the set has room without
    /// allocating again: an answer of the table behind the set, no less than
    /// the set holds, and no less than the set has room for.
    #[must_use]
    pub fn capacity(&self) -> (capacity: usize)
        ensures
            self.answers(capacity),
            capacity >= self@.len(),
            forall|n: int| #[trigger] self.has_room(n) ==> capacity >= n,
    {
        proof {
            use_type_invariant(self);
            lemma_by_tag_len(self.data@);
        }
        let capacity = table_capacity(&self.data);
        assert(self.answers(capacity));
        capacity
    }

    /// Removes every value. The room that was allocated stays: the set has
    /// room for whatever it had room for, and `capacity` answers no less
    /// than before.
    pub fn clear(&mut self)
        ensures
            final(self)@ == Map::<T::Variant, T>::empty(),
            forall|n: int| #[trigger] old(self).has_room(n) ==> final(self).has_room(n),
            forall|a: usize, b: usize|
                #![trigger old(self).answers(a), final(self).answers(b)]
                old(self).answers(a) && final(self).answers(b) ==> b >= a,
    {
        let mut table = self.take_table();
        table_clear(&mut table);
        proof {
            lemma_empty::<T>();
        }
        self.data = table;
    }

    /// Stores `value` unless a value with its tag is present, and returns
    /// whether it was stored. A value that is present stays as it is.
    pub fn insert(&mut self, value: T) -> (inserted: bool)
        ensures
            inserted == !old(self)@.contains_key(value.tag()),
            final(self)@ == put_if_absent(old(self)@, value),
    {
        let code = T::index(value.variant());
        let mut table = self.take_table();
        proof {
            lemma_lookup(table@, value.tag());
            lemma_insert(table@, value);
        }
        let inserted = if table_contains(&table, code) {
            false
        } else {
            table_insert(&mut table, code, value);
            true
        };
        self.data = table;
        inserted
    }

    /// Stores `value` under its tag and returns the value that it replaced,
    /// if any.
    pub fn set(&mut self, value: T) -> (prev: Option<T>)
        ensures
            prev == old(self)@.get(value.tag()),
            final(self)@ == put(old(self)@, value),
    {
        let code = T::index(value.variant());
        let mut table = self.take_table();
        proof {
            lemma_lookup(table@, value.tag());
            lemma_insert(table@, value);
        }
        let prev = table_insert(&mut table, code, value);
        self.data = table;
        prev
    }

    /// Returns whether a value with `tag` is present.
    pub fn contains(&self, tag: T::Variant) -> (found: bool)
        ensures
            found == self@.contains_key(tag),
    {
        proof {
            use_type_invariant(self);
            lemma_lookup(self.data@, tag);
        }
        table_contains(&self.data, T::index(tag))
    }

    /// Returns whether a value with the tag of `value` is present and `==`
    /// takes it for equal to `value`.
    pub fn contains_exact(&self, value: &T) -> (found: bool) where T: PartialEq
        ensures
            found ==> self@.contains_key(value.tag()),
            T::obeys_eq_spec() ==> found == holds_equal(self@, *value),
    {
        match self.get(value.variant()) {
            Some(stored) => *stored == *value,
            None => false,
        }
    }

    /// Removes every value and returns them, each once, in no given order:
    /// what `drain_next` hands out when it is called until nothing is left.
    /// To take out some values and leave the rest, call `drain_next`.
    pub fn drain(&mut self) -> (items: Vec<T>)
        ensures
            taken_one_by_one(old(self)@, items@),
            lists_once(old(self)@, items@),
            final(self)@ == Map::<T::Variant, T>::empty(),
            final(self)@.len() == 0,
    {
        let mut table = self.take_table();
        let entries = table_drain(&mut table);
        proof {
            lemma_lists(old(self).data@, entries@);
            lemma_empty::<T>();
            old(self).lemma_one_value_per_tag();
            lemma_listed_once_is_taken_one_by_one(old(self)@, values_of(entries@));
        }
        self.data = table;
        strip_keys(entries)
    }

    /// Takes out and returns one of the values, whichever comes first, or
    /// nothing where the set is empty. The other values stay as they are, so
    /// that a caller who stops early keeps what was not handed out.
    pub fn drain_next(&mut self) -> (item: Option<T>)
        ensures
            match item {
                Some(value) => old(self)@.contains_key(value.tag()) && old(self)@[value.tag()]
                    == value && final(self)@ == old(self)@.remove(value.tag()),
                None => old(self)@ == Map::<T::Variant, T>::empty() && final(self)@ == old(
                    self,
                )@,
            },
    {
        let mut table = self.take_table();
        let item = match table_some_key(&table) {
            Some(code) => {
                proof {
                    let tag = table@[code].tag();
                    lemma_lookup(table@, tag);
                    lemma_remove(table@, tag);
                }
                table_remove(&mut table, code)
            },
            None => {
                proof {
                    lemma_empty::<T>();
                }
                None
            },
        };
        self.data = table;
        item
    }

    /// Returns the value stored under `tag`, if any.
    pub fn get(&self, tag: T::Variant) -> (found: Option<&T>)
        ensures
            found == (if self@.contains_key(tag) {
                Some(&self@[tag])
            } else {
                None
            }),
    {
        proof {
            use_type_invariant(self);
            lemma_lookup(self.data@, tag);
        }
        table_get(&self.data, T::index(tag))
    }

    /// Stores `default` unless a value with its tag is present, and returns
    /// the value that is then stored under that tag.
    pub fn get_or_insert(&mut self, default: T) -> (stored: &T)
        ensures
            final(self)@ == put_if_absent(old(self)@, default),
            *stored == (if old(self)@.contains_key(default.tag()) {
                old(self)@[default.tag()]
            } else {
                default
            }),
    {
        let tag = default.variant();
        self.insert(default);
        self.get(tag).unwrap()
    }

    /// Returns whether the set holds no value.
    #[must_use]
    pub fn is_empty(&self) -> (empty: bool)
        ensures
            empty == (self@.len() == 0),
            empty == (self@ == Map::<T::Variant, T>::empty()),
    {
        proof {
            use_type_invariant(self);
            lemma_by_tag_len(self.data@);
            if self.data@.len() == 0 {
                assert(self@ =~= Map::<T::Variant, T>::empty());
            }
        }
        self.data.is_empty()
    }

    /// Returns the values, each once, in no given order.
    pub fn iter(&self) -> (items: Vec<&T>)
        ensures
            lists_once(self@, items@.unref()),
    {
        let entries = table_entries(&self.data);
        proof {
            use_type_invariant(self);
            lemma_lists(self.data@, owned(entries@));
            assert(values_of(entries@).unref() =~= values_of(owned(entries@)));
        }
        strip_keys(entries)
    }

    /// Returns the number of values.
    #[must_use]
    pub fn len(&self) -> (len: usize)
        ensures
            len == self@.len(),
    {
        proof {
            use_type_invariant(self);
            lemma_by_tag_len(self.data@);
        }
        table_len(&self.data)
    }

    /// Takes out and returns the value stored under `tag`, if any.
    pub fn remove(&mut self, tag: T::Variant) -> (removed: Option<T>)
        ensures
            removed == old(self)@.get(tag),
            final(self)@ == old(self)@.remove(tag),
    {
        let code = T::index(tag);
        let mut table = self.take_table();
        proof {
            lemma_lookup(table@, tag);
            lemma_remove(table@, tag);
        }
        let removed = table_remove(&mut table, code);
        self.data = table;
        removed
    }

    /// Takes out and returns the value with the tag of `value` if `==` takes
    /// it for equal to `value`. Otherwise the set stays as it is, also where
    /// another value with that tag is present.
    pub fn remove_exact(&mut self, value: &T) -> (removed: Option<T>) where T: PartialEq
        ensures
            match removed {
                Some(stored) => old(self)@.contains_key(value.tag()) && stored == old(
                    self,
                )@[value.tag()] && final(self)@ == old(self)@.remove(value.tag()),
                None => final(self)@ == old(self)@,
            },
            T::obeys_eq_spec() ==> (removed is Some <==> holds_equal(old(self)@, *value)),
    {
        if self.contains_exact(value) {
            self.remove(value.variant())
        } else {
            None
        }
    }

    /// Makes room for `additional` more values than the set holds, and loses
    /// no room that it had: `capacity` answers no less than before. The
    /// values stay as they are.
    ///
    /// Room for more values than can be counted cannot be had: where the
    /// values held and `additional` more are that many, the set stays as it
    /// is.
    pub fn reserve(&mut self, additional: usize)
        ensures
            final(self)@ == old(self)@,
            old(self)@.len() + additional <= usize::MAX ==> final(self).has_room(
                old(self)@.len() + additional,
            ),
            forall|n: int| #[trigger] old(self).has_room(n) ==> final(self).has_room(n),
            old(self)@.len() + additional <= usize::MAX ==> forall|a: usize, b: usize|
                #![trigger old(self).answers(a), final(self).answers(b)]
                old(self).answers(a) && final(self).answers(b) ==> b >= a,
            old(self)@.len() + additional > usize::MAX ==> forall|c: usize| #[trigger]
                old(self).answers(c) <==> final(self).answers(c),
    {
        let mut table = self.take_table();
        proof {
            lemma_by_tag_len(table@);
        }
        if additional <= usize::MAX - table_len(&table) {
            table_reserve(&mut table, additional);
        }
        self.data = table;
    }

    /// Asks for room for `additional` more values than the set holds, and
    /// reports it as an error where the room cannot be had. The values stay
    /// as they are either way.
    ///
    /// Where it reports success the room is there, and no room that the set
    /// had is lost: `capacity` answers no less than before. Where it reports
    /// an error, `capacity` answers what it answered before. It reports
    /// success wherever the set has the room already, and an error wherever
    /// the values held and `additional` more are too many to count.
    pub fn try_reserve(&mut self, additional: usize) -> (outcome: Result<(), TryReserveError>)
        ensures
            final(self)@ == old(self)@,
            outcome is Ok ==> old(self)@.len() + additional <= usize::MAX,
            outcome is Ok ==> final(self).has_room(old(self)@.len() + additional),
            outcome is Ok ==> forall|n: int| #[trigger]
                old(self).has_room(n) ==> final(self).has_room(n),
            outcome is Ok ==> forall|a: usize, b: usize|
                #![trigger old(self).answers(a), final(self).answers(b)]
                old(self).answers(a) && final(self).answers(b) ==> b >= a,
            outcome is Err ==> forall|a: usize, b: usize|
                #![trigger old(self).answers(a), final(self).answers(b)]
                old(self).answers(a) && final(self).answers(b) ==> b == a,
            old(self).has_room(old(self)@.len() + additional) ==> outcome is Ok,
    {
        let mut table = self.take_table();
        proof {
            lemma_by_tag_len(table@);
        }
        let outcome = table_try_reserve(&mut table, additional);
        self.data = table;
        outcome
    }

    /// Gives back room, but none that is needed for the values held or for
    /// `min_capacity` values: `capacity` answers no less than before, or no
    /// less than `min_capacity`. How much room is given back is up to the
    /// allocation. The values stay as they are.
    ///
    /// `capacity` may answer more than before: it tells a lower bound of
    /// the room, and the table may be built anew.
    pub fn shrink_to(&mut self, min_capacity: usize)
        ensures
            final(self)@ == old(self)@,
            final(self).has_room(final(self)@.len() as int),
            forall|n: int|
                n <= min_capacity && #[trigger] old(self).has_room(n) ==> final(self).has_room(n),
            forall|a: usize, b: usize|
                #![trigger old(self).answers(a), final(self).answers(b)]
                old(self).answers(a) && final(self).answers(b) ==> b >= a || b >= min_capacity,
    {
        let mut table = self.take_table();
        table_shrink_to(&mut table, min_capacity);
        proof {
            lemma_by_tag_len(table@);
            lemma_room_for_what_is_held(table);
        }
        self.data = table;
    }

    /// Gives back as much room as it can, but none that is needed for the
    /// values held. How much room is given back is up to the allocation.
    /// The values stay as they are.
    ///
    /// `capacity` may answer more than before: it tells a lower bound of
    /// the room, and the table may be built anew.
    pub fn shrink_to_fit(&mut self)
        ensures
            final(self)@ == old(self)@,
            final(self).has_room(final(self)@.len() as int),
    {
        let mut table = self.take_table();
        table_shrink_to_fit(&mut table);
        proof {
            lemma_by_tag_len(table@);
            lemma_room_for_what_is_held(table);
        }
        self.data = table;
    }

    /// Takes out and returns the value stored under `tag`, if any: another
    /// name for `remove`.
    pub fn take(&mut self, tag: T::Variant) -> (removed: Option<T>)
        ensures
            removed == old(self)@.get(tag),
            final(self)@ == old(self)@.remove(tag),
    {
        self.remove(tag)
    }

    /// Stores each of `values` in turn, from first to last, each in place of
    /// any value with its tag: of two with one tag the later stays.
    pub fn extend(&mut self, values: Vec<T>)
        ensures
            final(self)@ == put_each(old(self)@, values@),
    {
        let ghost all = values@;
        for value in iter: values.into_iter()
            invariant
                iter.seq() == all,
                self@ == put_each(old(self)@, all.take(iter.index() as int)),
        {
            proof {
                let done = all.take(iter.index() as int);
                let next = all.take(iter.index() + 1);
                assert(next.drop_last() =~= done);
                assert(next.last() == value);
            }
            self.set(value);
        }
        proof {
            assert(all.take(all.len() as int) =~= all);
        }
    }

    /// Creates a set that holds `values`, stored from first to last: of two
    /// with one tag the later stays.
    pub fn from_iter(values: Vec<T>) -> (set: Self)
        ensures
            set@ == put_each(Map::<T::Variant, T>::empty(), values@),
    {
        let mut set = VariantSet::new();
        set.extend(values);
        set
    }
}

impl<T: VariantEnum> Default for VariantSet<T> {
    /// Creates an empty set.
    fn default() -> (set: Self)
        ensures
            set@ == Map::<T::Variant, T>::empty(),
    {
        VariantSet::new()
    }
}

impl<T: VariantEnum + Clone> Clone for VariantSet<T> {
    /// Returns a set that holds a clone of each value under the tag of the
    /// value. As vstd does for the table, the contract takes a clone for equal
    /// to what it was cloned from.
    fn clone(&self) -> (copy: Self)
        ensures
            copy@ == self@,
    {
        proof {
            use_type_invariant(self);
        }
        VariantSet { data: self.data.clone() }
    }
}

/// Drops the keys of entries and keeps their values, in their order.
fn strip_keys<V>(entries: Vec<(usize, V)>) -> (items: Vec<V>)
    ensures
        items@ == values_of(entries@),
{
    let ghost all = entries@;
    let mut items: Vec<V> = Vec::new();
    for entry in iter: entries.into_iter()
        invariant
            iter.seq() == all,
            items@ == values_of(all.take(iter.index() as int)),
    {
        proof {
            assert(all.take(iter.index() + 1) =~= all.take(iter.index() as int).push(entry));
        }
        items.push(entry.1);
    }
    proof {
        assert(all.take(all.len() as int) =~= all);
    }
    items
}

} // verus!
