//! Section handles: the bounds of a section gathered at link time, and the
//! typed views over them.
//!
//! Addresses are plain `usize` values: a section is the byte range from its
//! start address to its end address.

use vstd::prelude::*;

use crate::item::{SectionItemType, SectionItemTyped};
use crate::platform::PtrBounds;

verus! {

/// An untyped link section that can hold items of any type. The items are
/// not enumerable.
pub struct Section {
    name: &'static str,
    bounds: PtrBounds,
}

/// Marker: an untyped [`Section`] handle.
pub trait IsUntypedSection {}

impl IsUntypedSection for Section {}

impl Section {
    #[verifier::type_invariant]
    spec fn bounds_ordered(&self) -> bool {
        self.bounds.start <= self.bounds.end
    }

    pub closed spec fn start(&self) -> usize {
        self.bounds.start
    }

    pub closed spec fn end(&self) -> usize {
        self.bounds.end
    }

    pub closed spec fn section_name(&self) -> Seq<char> {
        self.name@
    }

    /// A section named `name` over `bounds`, which the linker orders.
    pub fn new(name: &'static str, bounds: PtrBounds) -> (s: Self)
        requires
            bounds.start <= bounds.end,
        ensures
            s.start() == bounds.start,
            s.end() == bounds.end,
            s.section_name() == name@,
    {
        Self { name, bounds }
    }

    /// The byte length of the section.
    pub fn byte_len(&self) -> (n: usize)
        ensures
            n == self.end() - self.start(),
    {
        proof {
            use_type_invariant(self);
        }
        self.bounds.byte_len()
    }

    /// The start address of the section.
    pub fn start_ptr(&self) -> (p: usize)
        ensures
            p == self.start(),
    {
        self.bounds.start_ptr()
    }

    /// The end address of the section.
    pub fn end_ptr(&self) -> (p: usize)
        ensures
            p == self.end(),
    {
        self.bounds.end_ptr()
    }

    /// Ensures, at compile time, that a section exists at the given path.
    pub fn __validate<T: IsUntypedSection>(_section: &T) {
    }
}

/// A typed link section that can store any sized type. The items are
/// immutable and enumerable; `static` and `const` items are stored directly
/// in the section, and every item in it has a valid [`TypedSection::offset_of`].
pub struct TypedSection<T> {
    name: &'static str,
    bounds: PtrBounds,
    _phantom: core::marker::PhantomData<T>,
}

impl<T> TypedSection<T> {
    #[verifier::type_invariant]
    spec fn well_formed(&self) -> bool {
        &&& self.bounds.start <= self.bounds.end
        &&& vstd::layout::size_of::<T>() > 0
    }

    pub closed spec fn start(&self) -> usize {
        self.bounds.start
    }

    pub closed spec fn end(&self) -> usize {
        self.bounds.end
    }

    pub closed spec fn section_name(&self) -> Seq<char> {
        self.name@
    }

    /// A section named `name` over `bounds`. Zero-sized types are not
    /// supported.
    pub fn new(name: &'static str, bounds: PtrBounds) -> (s: Self)
        requires
            bounds.start <= bounds.end,
            vstd::layout::size_of::<T>() > 0,
        ensures
            s.start() == bounds.start,
            s.end() == bounds.end,
            s.section_name() == name@,
    {
        Self { name, bounds, _phantom: core::marker::PhantomData }
    }

    /// The start address of the section.
    pub fn start_ptr(&self) -> (p: usize)
        ensures
            p == self.start(),
    {
        self.bounds.start_ptr()
    }

    /// The end address of the section.
    pub fn end_ptr(&self) -> (p: usize)
        ensures
            p == self.end(),
    {
        self.bounds.end_ptr()
    }

    /// The stride of the section: the size of one item.
    pub fn stride(&self) -> (s: usize)
        ensures
            s == vstd::layout::size_of::<T>(),
            s > 0,
    {
        proof {
            use_type_invariant(self);
        }
        core::mem::size_of::<T>()
    }

    /// The byte length of the section.
    pub fn byte_len(&self) -> (n: usize)
        ensures
            n == self.end() - self.start(),
    {
        proof {
            use_type_invariant(self);
        }
        self.bounds.byte_len()
    }

    /// The number of items in the section.
    pub fn len(&self) -> (n: usize)
        ensures
            n == (self.end() - self.start()) / (vstd::layout::size_of::<T>() as int),
    {
        self.byte_len() / self.stride()
    }

    /// Whether the section holds no item.
    pub fn is_empty(&self) -> (b: bool)
        ensures
            b == ((self.end() - self.start()) / (vstd::layout::size_of::<T>() as int) == 0),
    {
        self.len() == 0
    }

    /// The index of the item at address `item`, if that address lies in the
    /// section. An address inside the section is that of one of its items.
    pub fn offset_of(&self, item: usize) -> (r: Option<usize>)
        requires
            self.start() <= item < self.end() ==> (item - self.start()) % (vstd::layout::size_of::<T>() as int) == 0,
        ensures
            r == (if item < self.start() || item >= self.end() {
                None::<usize>
            } else {
                Some(((item - self.start()) / (vstd::layout::size_of::<T>() as int)) as usize)
            }),
    {
        let start = self.start_ptr();
        if item < start || item >= self.end_ptr() {
            None
        } else {
            Some((item - start) / self.stride())
        }
    }
}

impl<T> SectionItemType for TypedSection<T> {
    type Item = T;
}

impl<T> SectionItemTyped<T> for TypedSection<T> {
    type Item = T;
}

/// A mutable typed link section that can store any sized type. The items
/// are (unsafely) mutable and enumerable. Only `const` items may be submitted.
pub struct TypedMutableSection<T> {
    name: &'static str,
    bounds: PtrBounds,
    _phantom: core::marker::PhantomData<T>,
}

impl<T> TypedMutableSection<T> {
    #[verifier::type_invariant]
    spec fn well_formed(&self) -> bool {
        &&& self.bounds.start <= self.bounds.end
        &&& vstd::layout::size_of::<T>() > 0
    }

    pub closed spec fn start(&self) -> usize {
        self.bounds.start
    }

    pub closed spec fn end(&self) -> usize {
        self.bounds.end
    }

    pub closed spec fn section_name(&self) -> Seq<char> {
        self.name@
    }

    /// A section named `name` over `bounds`. Zero-sized types are not
    /// supported.
    pub fn new(name: &'static str, bounds: PtrBounds) -> (s: Self)
        requires
            bounds.start <= bounds.end,
            vstd::layout::size_of::<T>() > 0,
        ensures
            s.start() == bounds.start,
            s.end() == bounds.end,
            s.section_name() == name@,
    {
        Self { name, bounds, _phantom: core::marker::PhantomData }
    }

    /// The start address of the section.
    pub fn start_ptr(&self) -> (p: usize)
        ensures
            p == self.start(),
    {
        self.bounds.start_ptr()
    }

    /// The end address of the section.
    pub fn end_ptr(&self) -> (p: usize)
        ensures
            p == self.end(),
    {
        self.bounds.end_ptr()
    }

    /// The start address of the section, for writing.
    pub fn start_ptr_mut(&self) -> (p: usize)
        ensures
            p == self.start(),
    {
        self.bounds.start_ptr()
    }

    /// The start address of the section, for writing.
    pub fn end_ptr_mut(&self) -> (p: usize)
        ensures
            p == self.start(),
    {
        self.bounds.start_ptr()
    }

    /// The stride of the section: the size of one item.
    pub fn stride(&self) -> (s: usize)
        ensures
            s == vstd::layout::size_of::<T>(),
            s > 0,
    {
        proof {
            use_type_invariant(self);
        }
        core::mem::size_of::<T>()
    }

    /// The byte length of the section.
    pub fn byte_len(&self) -> (n: usize)
        ensures
            n == self.end() - self.start(),
    {
        proof {
            use_type_invariant(self);
        }
        self.bounds.byte_len()
    }

    /// The number of items in the section.
    pub fn len(&self) -> (n: usize)
        ensures
            n == (self.end() - self.start()) / (vstd::layout::size_of::<T>() as int),
    {
        self.byte_len() / self.stride()
    }

    /// Whether the section holds no item.
    pub fn is_empty(&self) -> (b: bool)
        ensures
            b == ((self.end() - self.start()) / (vstd::layout::size_of::<T>() as int) == 0),
    {
        self.len() == 0
    }

    /// The index of the item at address `item`, if that address lies in the
    /// section. An address inside the section is that of one of its items.
    pub fn offset_of(&self, item: usize) -> (r: Option<usize>)
        requires
            self.start() <= item < self.end() ==> (item - self.start()) % (vstd::layout::size_of::<T>() as int) == 0,
        ensures
            r == (if item < self.start() || item >= self.end() {
                None::<usize>
            } else {
                Some(((item - self.start()) / (vstd::layout::size_of::<T>() as int)) as usize)
            }),
    {
        let start = self.start_ptr();
        if item < start || item >= self.end_ptr() {
            None
        } else {
            Some((item - start) / self.stride())
        }
    }
}

impl<T> SectionItemType for TypedMutableSection<T> {
    type Item = T;
}

impl<T> SectionItemTyped<T> for TypedMutableSection<T> {
    type Item = T;
}

/// A typed link section whose items are reached through [`Ref`] handles.
/// The items are enumerable.
pub struct TypedReferenceSection<T> {
    name: &'static str,
    bounds: PtrBounds,
    _phantom: core::marker::PhantomData<T>,
}

impl<T> TypedReferenceSection<T> {
    #[verifier::type_invariant]
    spec fn well_formed(&self) -> bool {
        &&& self.bounds.start <= self.bounds.end
        &&& vstd::layout::size_of::<T>() > 0
    }

    pub closed spec fn start(&self) -> usize {
        self.bounds.start
    }

    pub closed spec fn end(&self) -> usize {
        self.bounds.end
    }

    pub closed spec fn section_name(&self) -> Seq<char> {
        self.name@
    }

    /// A section named `name` over `bounds`. Zero-sized types are not
    /// supported.
    pub fn new(name: &'static str, bounds: PtrBounds) -> (s: Self)
        requires
            bounds.start <= bounds.end,
            vstd::layout::size_of::<T>() > 0,
        ensures
            s.start() == bounds.start,
            s.end() == bounds.end,
            s.section_name() == name@,
    {
        Self { name, bounds, _phantom: core::marker::PhantomData }
    }

    /// The start address of the section.
    pub fn start_ptr(&self) -> (p: usize)
        ensures
            p == self.start(),
    {
        self.bounds.start_ptr()
    }

    /// The end address of the section.
    pub fn end_ptr(&self) -> (p: usize)
        ensures
            p == self.end(),
    {
        self.bounds.end_ptr()
    }

    /// The stride of the section: the size of one item.
    pub fn stride(&self) -> (s: usize)
        ensures
            s == vstd::layout::size_of::<T>(),
            s > 0,
    {
        proof {
            use_type_invariant(self);
        }
        core::mem::size_of::<T>()
    }

    /// The byte length of the section.
    pub fn byte_len(&self) -> (n: usize)
        ensures
            n == self.end() - self.start(),
    {
        proof {
            use_type_invariant(self);
        }
        self.bounds.byte_len()
    }

    /// The number of items in the section.
    pub fn len(&self) -> (n: usize)
        ensures
            n == (self.end() - self.start()) / (vstd::layout::size_of::<T>() as int),
    {
        self.byte_len() / self.stride()
    }

    /// Whether the section holds no item.
    pub fn is_empty(&self) -> (b: bool)
        ensures
            b == ((self.end() - self.start()) / (vstd::layout::size_of::<T>() as int) == 0),
    {
        self.len() == 0
    }

    /// The index of the item at address `item`, if that address lies in the
    /// section. An address inside the section is that of one of its items.
    pub fn offset_of(&self, item: usize) -> (r: Option<usize>)
        requires
            self.start() <= item < self.end() ==> (item - self.start()) % (vstd::layout::size_of::<T>() as int) == 0,
        ensures
            r == (if item < self.start() || item >= self.end() {
                None::<usize>
            } else {
                Some(((item - self.start()) / (vstd::layout::size_of::<T>() as int)) as usize)
            }),
    {
        let start = self.start_ptr();
        if item < start || item >= self.end_ptr() {
            None
        } else {
            Some((item - start) / self.stride())
        }
    }
}

impl<T> SectionItemType for TypedReferenceSection<T> {
    type Item = T;
}

impl<T> SectionItemTyped<T> for TypedReferenceSection<T> {
    type Item = T;
}

/// A reference to a value in a link section. The value is held in place.
pub struct Ref<T> {
    t: T,
}

impl<T> Ref<T> {
    pub closed spec fn value(&self) -> T {
        self.t
    }

    /// A reference holding `t`.
    pub fn new(t: T) -> (r: Self)
        ensures
            r.value() == t,
    {
        Self { t }
    }

    /// The referenced value.
    pub fn get(&self) -> (t: &T)
        ensures
            *t == self.value(),
    {
        &self.t
    }
}

} // verus!
