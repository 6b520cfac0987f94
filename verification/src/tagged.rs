//! The link between a sum type and the tags of its variants.

use vstd::prelude::*;
use std::hash::Hash;

verus! {

/// A sum type whose every value belongs to exactly one variant, named by a
/// payload-free tag.
///
/// The tag of a value is a pure, total function of the value: `variant`
/// returns `tag` on every call. Tags are plain values that are copied,
/// compared and hashed at will. Each tag stands at a small non-negative
/// integer, its ordinal, and two tags that stand at one ordinal are one tag,
/// so that an ordinal can key a table in a tag's place at no cost of
/// hashing.
///
/// An impl states `tag` and `ordinal` as it sees fit and proves the three
/// contracts against them. A variant set relies on them and on nothing
/// else about the type.
pub trait VariantEnum {
    /// The tag type: one value per variant, without payload.
    type Variant: Copy + Eq + Hash;

    /// The tag of the variant that `self` belongs to.
    spec fn tag(&self) -> Self::Variant;

    /// The small integer at which a tag stands.
    spec fn ordinal(tag: Self::Variant) -> usize;

    /// Tags that stand at the same ordinal are equal.
    proof fn ordinal_is_injective(a: Self::Variant, b: Self::Variant)
        requires
            Self::ordinal(a) == Self::ordinal(b),
        ensures
            a == b,
    ;

    /// Returns the tag of `self`.
    fn variant(&self) -> (tag: Self::Variant)
        ensures
            tag == self.tag(),
    ;

    /// Returns the ordinal of `tag`.
    fn index(tag: Self::Variant) -> (i: usize)
        ensures
            i == Self::ordinal(tag),
    ;
}

} // verus!
