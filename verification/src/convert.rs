//! Building a variant set from an array of values, and taking one apart.

use vstd::prelude::*;
use vstd::std_specs::convert::FromSpecImpl;
use vstd::std_specs::iter::IteratorSpec;
use crate::model::lists_once;
use crate::model::put_each;
use crate::set::VariantSet;
use crate::tagged::VariantEnum;

verus! {

/// `Vec::from` on an array: the items of the array, in their order.
#[verifier::external_body]
fn vec_of_array<T, const N: usize>(array: [T; N]) -> (values: Vec<T>)
    ensures
        values@ == array@,
{
    Vec::from(array)
}

impl<T: VariantEnum, const N: usize> From<[T; N]> for VariantSet<T> {
    /// Creates a set that holds the values of `array`, stored from first to
    /// last: of two with one tag the later stays.
    fn from(array: [T; N]) -> (set: Self)
        ensures
            set@ == put_each(Map::<T::Variant, T>::empty(), array@),
    {
        VariantSet::from_iter(vec_of_array(array))
    }
}

impl<T: VariantEnum, const N: usize> FromSpecImpl<[T; N]> for VariantSet<T> {
    /// Two sets with one view need not be one value, so `from` is described
    /// by the view of its result and not by a value.
    open spec fn obeys_from_spec() -> bool {
        false
    }

    open spec fn from_spec(array: [T; N]) -> Self {
        choose|set: Self| set@ == put_each(Map::<T::Variant, T>::empty(), array@)
    }
}

impl<T: VariantEnum> IntoIterator for VariantSet<T> {
    type Item = T;

    type IntoIter = std::vec::IntoIter<T>;

    /// Takes the set apart into its values, each once, in no given order.
    fn into_iter(self) -> (values: std::vec::IntoIter<T>)
        ensures
            lists_once(self@, values.remaining()),
    {
        let mut set = self;
        set.drain().into_iter()
    }
}

} // verus!
