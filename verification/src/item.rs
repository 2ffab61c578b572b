//! The item types that section handles store.

use vstd::prelude::*;

verus! {

/// Element type of a section handle ([`crate::sections::TypedSection`], etc.).
pub trait SectionItemType {
    /// Item type stored or referenced in the section.
    type Item;
}

/// Compatibility of a typed section handle with items of type `T`.
pub trait SectionItemTyped<T> {
    /// Item representation for this `T`.
    type Item;
}

} // verus!
