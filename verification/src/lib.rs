//! A container that holds at most one value per variant of a sum type.
//!
//! Each value of the sum type carries a payload-free tag that names its
//! variant. A [`VariantSet`] stores values under their tags, so that it
//! answers both "is this variant present?" and "with which payload?".
//! The store behind it is a hash map that hashes a tag's small integer code
//! by identity.
//!
//! - [`tagged`] holds the trait that links a sum type to its tags.
//! - [`set`] holds the set and its operations, each with its contract.
//! - [`model`] holds the functions on maps that the contracts are stated in.
//! - [`laws`] holds what follows from the contracts for several operations
//!   taken together.
//! - [`codegen`] writes the tag type and the trait impl of a sum type out as
//!   source text.

pub mod codegen;
mod convert;
mod equality;
mod keying;
pub mod laws;
pub mod model;
pub mod set;
mod table;
pub mod tagged;

pub use crate::set::VariantSet;
pub use crate::tagged::VariantEnum;
