//! Equality of variant sets: the same tags, with equal values under each.

use vstd::prelude::*;
use vstd::set_lib::lemma_subset_equality;
use vstd::std_specs::cmp::PartialEqSpec;
use vstd::std_specs::cmp::PartialEqSpecImpl;
use crate::model::{lists_once, same_values};
use crate::set::VariantSet;
use crate::tagged::VariantEnum;

verus! {

impl<T: VariantEnum + PartialEq> PartialEq for VariantSet<T> {
    /// Compares two sets value by value. The order in which the values went
    /// in plays no part.
    fn eq(&self, other: &Self) -> (equal: bool) {
        proof {
            self.lemma_one_value_per_tag();
            other.lemma_one_value_per_tag();
        }
        if self.len() != other.len() {
            return false;
        }
        let items = self.iter();
        let ghost mine = items@.unref();
        let mut i: usize = 0;
        while i < items.len()
            invariant
                i <= items.len(),
                mine == items@.unref(),
                lists_once(self@, mine),
                self@.len() == other@.len(),
                self@.dom().finite(),
                other@.dom().finite(),
                forall|j: int|
                    0 <= j < i ==> other@.contains_key((#[trigger] mine[j]).tag()) && (
                    T::obeys_eq_spec() ==> mine[j].eq_spec(&other@[mine[j].tag()])),
            decreases items.len() - i,
        {
            let item = items[i];
            assert(*item == mine[i as int]);
            assert(self@.contains_key(mine[i as int].tag()));
            match other.get(item.variant()) {
                None => {
                    return false;
                },
                Some(theirs) => {
                    if !(*item == *theirs) {
                        return false;
                    }
                },
            }
            i += 1;
        }
        proof {
            assert(self@.dom().subset_of(other@.dom())) by {
                assert forall|t: T::Variant| self@.dom().contains(t) implies other@.dom().contains(
                    t,
                ) by {
                    assert(self@.contains_key(t));
                    let j = choose|j: int| 0 <= j < mine.len() && mine[j] == self@[t];
                    assert(other@.contains_key(mine[j].tag()));
                }
            }
            lemma_subset_equality(self@.dom(), other@.dom());
            if T::obeys_eq_spec() {
                assert forall|t: T::Variant| #[trigger] self@.contains_key(t) implies self@[t].eq_spec(
                    &other@[t],
                ) by {
                    let j = choose|j: int| 0 <= j < mine.len() && mine[j] == self@[t];
                    assert(mine[j].eq_spec(&other@[mine[j].tag()]));
                }
            }
        }
        true
    }
}

impl<T: VariantEnum + PartialEq> PartialEqSpecImpl for VariantSet<T> {
    open spec fn obeys_eq_spec() -> bool {
        T::obeys_eq_spec()
    }

    open spec fn eq_spec(&self, other: &Self) -> bool {
        same_values(self@, other@)
    }
}

impl<T: VariantEnum + Eq> Eq for VariantSet<T> {
}

} // verus!
