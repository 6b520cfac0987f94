//! What the operations of a variant set do, stated on maps from tag to value.

use vstd::prelude::*;
use vstd::std_specs::cmp::PartialEqSpec;
use crate::tagged::VariantEnum;

verus! {

/// Every value of `m` is stored under its own tag, and `m` is finite.
pub open spec fn keyed_by_tag<T: VariantEnum>(m: Map<T::Variant, T>) -> bool {
    &&& m.dom().finite()
    &&& forall|t: T::Variant| #[trigger] m.contains_key(t) ==> m[t].tag() == t
}

/// `m` after `value` was stored under its tag, in place of any value there.
pub open spec fn put<T: VariantEnum>(m: Map<T::Variant, T>, value: T) -> Map<T::Variant, T> {
    m.insert(value.tag(), value)
}

/// `m` after `value` was stored under its tag unless that tag was taken.
pub open spec fn put_if_absent<T: VariantEnum>(m: Map<T::Variant, T>, value: T) -> Map<
    T::Variant,
    T,
> {
    if m.contains_key(value.tag()) {
        m
    } else {
        m.insert(value.tag(), value)
    }
}

/// `m` after each of `values` was stored under its tag, from first to last:
/// of two values with one tag, the later stays.
pub open spec fn put_each<T: VariantEnum>(m: Map<T::Variant, T>, values: Seq<T>) -> Map<
    T::Variant,
    T,
>
    decreases values.len(),
{
    if values.len() == 0 {
        m
    } else {
        put(put_each(m, values.drop_last()), values.last())
    }
}

/// `m` after each of `values` was stored under its tag unless that tag was
/// taken, from first to last: of two values with one tag, the earlier stays.
pub open spec fn put_each_if_absent<T: VariantEnum>(m: Map<T::Variant, T>, values: Seq<T>) -> Map<
    T::Variant,
    T,
>
    decreases values.len(),
{
    if values.len() == 0 {
        m
    } else {
        put_if_absent(put_each_if_absent(m, values.drop_last()), values.last())
    }
}

/// `items` lists the values of `m`, each of them once: as many items as `m`
/// holds values, each item stored in `m` under its tag, no tag twice, and no
/// value of `m` left out.
pub open spec fn lists_once<T: VariantEnum>(m: Map<T::Variant, T>, items: Seq<T>) -> bool {
    &&& items.len() == m.len()
    &&& forall|i: int|
        0 <= i < items.len() ==> m.contains_key((#[trigger] items[i]).tag()) && m[items[i].tag()]
            == items[i]
    &&& forall|i: int, j: int|
        0 <= i < j < items.len() ==> (#[trigger] items[i]).tag() != (#[trigger] items[j]).tag()
    &&& forall|t: T::Variant| #[trigger]
        m.contains_key(t) ==> exists|i: int| 0 <= i < items.len() && #[trigger] items[i] == m[t]
}

/// `items` is what taking the values out of `m` one by one, until none is
/// left, hands out: the first item is a value of `m`, the second a value of
/// what is left then, and so on, and nothing is left after the last.
pub open spec fn taken_one_by_one<T: VariantEnum>(m: Map<T::Variant, T>, items: Seq<T>) -> bool
    decreases items.len(),
{
    if items.len() == 0 {
        m == Map::<T::Variant, T>::empty()
    } else {
        &&& m.contains_key(items[0].tag())
        &&& m[items[0].tag()] == items[0]
        &&& taken_one_by_one(m.remove(items[0].tag()), items.drop_first())
    }
}

/// The tags of `values`, in their order.
pub open spec fn tags_of<T: VariantEnum>(values: Seq<T>) -> Seq<T::Variant> {
    values.map_values(|value: T| value.tag())
}

/// `m` holds, under the tag of `value`, a value that `==` takes for equal to
/// `value`.
pub open spec fn holds_equal<T: VariantEnum + PartialEq>(m: Map<T::Variant, T>, value: T) -> bool {
    m.contains_key(value.tag()) && m[value.tag()].eq_spec(&value)
}

/// `a` and `b` hold values under the same tags, and `==` takes the two values
/// under each tag for equal.
pub open spec fn same_values<T: VariantEnum + PartialEq>(
    a: Map<T::Variant, T>,
    b: Map<T::Variant, T>,
) -> bool {
    &&& a.dom() == b.dom()
    &&& forall|t: T::Variant| #[trigger] a.contains_key(t) ==> a[t].eq_spec(&b[t])
}

/// One step of filling a set: by `insert`, which stores a value unless its
/// tag is taken, or by `set`, which stores it in any case.
pub enum Store<T> {
    /// What `insert` does with the value.
    IfAbsent(T),
    /// What `set` does with the value.
    InPlace(T),
}

/// The value that a step brings.
pub open spec fn brought<T>(step: Store<T>) -> T {
    match step {
        Store::IfAbsent(value) => value,
        Store::InPlace(value) => value,
    }
}

/// `m` after one step.
pub open spec fn store<T: VariantEnum>(m: Map<T::Variant, T>, step: Store<T>) -> Map<
    T::Variant,
    T,
> {
    match step {
        Store::IfAbsent(value) => put_if_absent(m, value),
        Store::InPlace(value) => put(m, value),
    }
}

/// `m` after each of `steps`, from first to last.
pub open spec fn store_each<T: VariantEnum>(m: Map<T::Variant, T>, steps: Seq<Store<T>>) -> Map<
    T::Variant,
    T,
>
    decreases steps.len(),
{
    if steps.len() == 0 {
        m
    } else {
        store(store_each(m, steps.drop_last()), steps.last())
    }
}

/// The tags of the values that `steps` bring, in their order.
pub open spec fn tags_brought<T: VariantEnum>(steps: Seq<Store<T>>) -> Seq<T::Variant> {
    steps.map_values(|step: Store<T>| brought(step).tag())
}

/// One call that changes what a set holds: a step that stores a value, the
/// taking out of the value under a tag (by `remove`, `take`, `remove_exact`
/// or `drain_next`), or the taking out of every value (by `clear` or
/// `drain`). `get_or_insert` stores as `insert` does, and `extend` as `set`
/// does, value by value.
pub enum Call<T: VariantEnum> {
    /// A step of `insert` or `set`.
    Store(Store<T>),
    /// The value under the tag, if any, leaves.
    Take(T::Variant),
    /// Every value leaves.
    Clear,
}

/// `m` after one call.
pub open spec fn call<T: VariantEnum>(m: Map<T::Variant, T>, c: Call<T>) -> Map<T::Variant, T> {
    match c {
        Call::Store(step) => store(m, step),
        Call::Take(tag) => m.remove(tag),
        Call::Clear => Map::empty(),
    }
}

/// `m` after each of `calls`, from first to last.
pub open spec fn call_each<T: VariantEnum>(m: Map<T::Variant, T>, calls: Seq<Call<T>>) -> Map<
    T::Variant,
    T,
>
    decreases calls.len(),
{
    if calls.len() == 0 {
        m
    } else {
        call(call_each(m, calls.drop_last()), calls.last())
    }
}

/// The tags of the values that `calls` ever stored.
pub open spec fn tags_stored<T: VariantEnum>(calls: Seq<Call<T>>) -> Set<T::Variant>
    decreases calls.len(),
{
    if calls.len() == 0 {
        Set::empty()
    } else {
        match calls.last() {
            Call::Store(step) => tags_stored(calls.drop_last()).insert(brought(step).tag()),
            _ => tags_stored(calls.drop_last()),
        }
    }
}

} // verus!
