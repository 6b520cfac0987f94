//! The store behind a variant set: a hash map from ordinal to value whose
//! hasher passes the ordinal through unhashed.
//!
//! The map is std's `HashMap` with the hasher of the `nohash_hasher` crate.
//! vstd describes `HashMap` only for hashers that it knows, so the calls that
//! depend on hashing stand here, each behind a contract of its own over the
//! map's view. A key is a `usize`, which hashes by one call of `write_usize`:
//! the one use that the hasher accepts.
//!
//! How much room a map has is no part of its view: it depends on what was
//! allocated. The calls that make or give back room say what then holds of
//! every answer of `capacity`.

use vstd::prelude::*;
use std::collections::HashMap;
use std::collections::TryReserveError;
use std::hash::BuildHasherDefault;
use nohash_hasher::NoHashHasher;

verus! {

/// `nohash_hasher::NoHashHasher`, the hasher whose digest is the integer
/// written to it. Opaque here.
#[verifier::external_type_specification]
#[verifier::external_body]
#[verifier::reject_recursive_types(T)]
pub struct ExNoHashHasher<T>(NoHashHasher<T>);

/// `std::hash::BuildHasherDefault`, which builds a hasher by `Default`.
/// Opaque here.
#[verifier::external_type_specification]
#[verifier::external_body]
#[verifier::reject_recursive_types(H)]
pub struct ExBuildHasherDefault<H>(BuildHasherDefault<H>);

/// A hash map keyed by ordinal, with identity hashing.
pub type Table<T> = HashMap<usize, T, BuildHasherDefault<NoHashHasher<usize>>>;

/// `entries` lists the entries of `table`: as many as the table holds, each
/// of them an entry of the table, no key twice.
pub open spec fn lists_entries<T>(table: Map<usize, T>, entries: Seq<(usize, T)>) -> bool {
    &&& entries.len() == table.len()
    &&& forall|i: int|
        0 <= i < entries.len() ==> table.contains_pair((#[trigger] entries[i]).0, entries[i].1)
    &&& forall|i: int, j: int|
        0 <= i < j < entries.len() ==> (#[trigger] entries[i]).0 != (#[trigger] entries[j]).0
}

/// The entries of a sequence of borrowed entries.
pub open spec fn owned<T>(entries: Seq<(usize, &T)>) -> Seq<(usize, T)> {
    Seq::new(entries.len(), |i: int| (entries[i].0, *entries[i].1))
}

/// `capacity` is an answer that `HashMap::capacity` may give on `table`.
/// How much room a table has depends on what was allocated for it, so room
/// is told by what holds of the answers of `capacity`, and by nothing else.
pub(crate) open spec fn answers<T>(table: Table<T>, capacity: usize) -> bool {
    call_ensures(table_capacity::<T>, (&table,), capacity)
}

/// Whether `table` has room for `n` values without allocating again: every
/// answer of `capacity` on it is at least `n`.
pub(crate) open spec fn has_room<T>(table: Table<T>, n: int) -> bool {
    forall|capacity: usize| #[trigger] answers(table, capacity) ==> capacity >= n
}

/// `after` has room for whatever `before` has room for.
pub(crate) open spec fn keeps_room<T>(before: Table<T>, after: Table<T>) -> bool {
    forall|n: int| #[trigger] has_room(before, n) ==> has_room(after, n)
}

/// `after` has room for whatever `before` has room for, as far as `limit`
/// values.
pub(crate) open spec fn keeps_room_up_to<T>(before: Table<T>, after: Table<T>, limit: int) -> bool {
    forall|n: int| n <= limit && #[trigger] has_room(before, n) ==> has_room(after, n)
}

/// No answer of `capacity` on `after` is less than one on `before`.
pub(crate) open spec fn no_less_room<T>(before: Table<T>, after: Table<T>) -> bool {
    forall|a: usize, b: usize|
        #![trigger answers(before, a), answers(after, b)]
        answers(before, a) && answers(after, b) ==> b >= a
}

/// No answer of `capacity` on `after` is less than one on `before`, unless
/// it is `limit` or more.
pub(crate) open spec fn no_less_room_up_to<T>(
    before: Table<T>,
    after: Table<T>,
    limit: int,
) -> bool {
    forall|a: usize, b: usize|
        #![trigger answers(before, a), answers(after, b)]
        answers(before, a) && answers(after, b) ==> b >= a || b >= limit
}

/// What `capacity` answers on `after` is what it answers on `before`.
pub(crate) open spec fn same_room<T>(before: Table<T>, after: Table<T>) -> bool {
    forall|a: usize, b: usize|
        #![trigger answers(before, a), answers(after, b)]
        answers(before, a) && answers(after, b) ==> b == a
}

/// `HashMap::capacity` on a table: the number of values that the table can
/// hold without allocating again, which is no less than it holds.
#[verifier::external_body]
pub(crate) fn table_capacity<T>(table: &Table<T>) -> (capacity: usize)
    ensures
        capacity >= table@.len(),
{
    table.capacity()
}

/// `HashMap::len` on a table: the number of entries.
#[verifier::external_body]
pub(crate) fn table_len<T>(table: &Table<T>) -> (len: usize)
    ensures
        len == table@.len(),
{
    table.len()
}

/// `HashMap::insert` on a table: stores `value` under `code` and returns the
/// value that stood there before, if any.
#[verifier::external_body]
pub(crate) fn table_insert<T>(table: &mut Table<T>, code: usize, value: T) -> (prev: Option<T>)
    ensures
        final(table)@ == old(table)@.insert(code, value),
        prev == old(table)@.get(code),
{
    table.insert(code, value)
}

/// `HashMap::contains_key` on a table: whether a value is stored under `code`.
#[verifier::external_body]
pub(crate) fn table_contains<T>(table: &Table<T>, code: usize) -> (found: bool)
    ensures
        found == table@.contains_key(code),
{
    table.contains_key(&code)
}

/// `HashMap::get` on a table: the value stored under `code`, if any.
#[verifier::external_body]
pub(crate) fn table_get<T>(table: &Table<T>, code: usize) -> (found: Option<&T>)
    ensures
        found == (if table@.contains_key(code) {
            Some(&table@[code])
        } else {
            None
        }),
{
    table.get(&code)
}

/// `HashMap::remove` on a table: takes out and returns the value stored under
/// `code`, if any.
#[verifier::external_body]
pub(crate) fn table_remove<T>(table: &mut Table<T>, code: usize) -> (removed: Option<T>)
    ensures
        final(table)@ == old(table)@.remove(code),
        removed == old(table)@.get(code),
{
    table.remove(&code)
}

/// `HashMap::iter` on a table, collected: every entry once, in the order in
/// which the map hands them out.
#[verifier::external_body]
pub(crate) fn table_entries<T>(table: &Table<T>) -> (entries: Vec<(usize, &T)>)
    ensures
        lists_entries(table@, owned(entries@)),
{
    table.iter().map(|(code, value)| (*code, value)).collect()
}

/// `HashMap::drain` on a table, collected: every entry once, in the order in
/// which the map hands them out; the table is left empty.
#[verifier::external_body]
pub(crate) fn table_drain<T>(table: &mut Table<T>) -> (entries: Vec<(usize, T)>)
    ensures
        lists_entries(old(table)@, entries@),
        final(table)@ =~= Map::empty(),
{
    table.drain().collect()
}

/// `HashMap::keys` on a table, asked for one key: some key of the table, or
/// none where the table holds nothing.
#[verifier::external_body]
pub(crate) fn table_some_key<T>(table: &Table<T>) -> (key: Option<usize>)
    ensures
        key matches Some(code) ==> table@.contains_key(code),
        key is None ==> table@ =~= Map::empty(),
{
    table.keys().next().copied()
}

/// `HashMap::clear` on a table: takes out every entry and keeps the
/// allocation, so that no room is lost.
#[verifier::external_body]
pub(crate) fn table_clear<T>(table: &mut Table<T>)
    ensures
        final(table)@ =~= Map::empty(),
        keeps_room(*old(table), *final(table)),
        no_less_room(*old(table), *final(table)),
{
    table.clear()
}

/// `HashMap::reserve` on a table: makes room for `additional` more values
/// than the table holds, and loses no room that it had. The entries stay as
/// they are. It does not return where the room cannot be had. That is
/// certain where the values held and `additional` more are too many to
/// count, and such a call is left out; short of that it is up to the
/// allocation, which no contract can tell beforehand.
#[verifier::external_body]
pub(crate) fn table_reserve<T>(table: &mut Table<T>, additional: usize)
    requires
        old(table)@.len() + additional <= usize::MAX,
    ensures
        final(table)@ == old(table)@,
        has_room(*final(table), old(table)@.len() + additional),
        keeps_room(*old(table), *final(table)),
        no_less_room(*old(table), *final(table)),
{
    table.reserve(additional)
}

/// `HashMap::try_reserve` on a table: asks for room for `additional` more
/// values than the table holds. The entries stay as they are, whether or not
/// room was found. Where it reports success, the room is there, no room
/// that the table had is lost, and the values asked for are not too many to
/// count. Where it reports an error, the table is as it was. It does
/// nothing, and reports success, where the table has the room already.
#[verifier::external_body]
pub(crate) fn table_try_reserve<T>(table: &mut Table<T>, additional: usize) -> (outcome: Result<
    (),
    TryReserveError,
>)
    ensures
        final(table)@ == old(table)@,
        outcome is Ok ==> old(table)@.len() + additional <= usize::MAX,
        outcome is Ok ==> has_room(*final(table), old(table)@.len() + additional),
        outcome is Ok ==> keeps_room(*old(table), *final(table)),
        outcome is Ok ==> no_less_room(*old(table), *final(table)),
        outcome is Err ==> same_room(*old(table), *final(table)),
        has_room(*old(table), old(table)@.len() + additional) ==> outcome is Ok,
{
    table.try_reserve(additional)
}

/// `HashMap::shrink_to` on a table: gives back room, but none that is needed
/// for `min_capacity` values. The entries stay as they are. Nothing is said
/// of an upper bound: `capacity` is a lower bound of the room, and a table
/// that is built anew may answer more than it did before.
#[verifier::external_body]
pub(crate) fn table_shrink_to<T>(table: &mut Table<T>, min_capacity: usize)
    ensures
        final(table)@ == old(table)@,
        keeps_room_up_to(*old(table), *final(table), min_capacity as int),
        no_less_room_up_to(*old(table), *final(table), min_capacity as int),
{
    table.shrink_to(min_capacity)
}

/// `HashMap::shrink_to_fit` on a table: gives back as much room as it can.
/// The entries stay as they are. Nothing is said of an upper bound, as for
/// `shrink_to`.
#[verifier::external_body]
pub(crate) fn table_shrink_to_fit<T>(table: &mut Table<T>)
    ensures
        final(table)@ == old(table)@,
{
    table.shrink_to_fit()
}

/// A table has room for the values that it holds.
pub(crate) proof fn lemma_room_for_what_is_held<T>(table: Table<T>)
    ensures
        has_room(table, table@.len() as int),
{
}

} // verus!
