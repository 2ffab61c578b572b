use vstd::prelude::*;

pub mod wasm;

verus! {

/// Constant bounds for a pointer-based section: the address of its first byte
/// and the address one past its last byte.
pub struct PtrBounds {
    pub start: usize,
    pub end: usize,
}

impl PtrBounds {
    /// Bounds from a start and an end address.
    pub fn new(start: usize, end: usize) -> (b: Self)
        ensures
            b.start == start,
            b.end == end,
    {
        Self { start, end }
    }

    /// The start address.
    pub fn start_ptr(&self) -> (p: usize)
        ensures
            p == self.start,
    {
        self.start
    }

    /// The end address.
    pub fn end_ptr(&self) -> (p: usize)
        ensures
            p == self.end,
    {
        self.end
    }

    /// The number of bytes between the start and the end.
    pub fn byte_len(&self) -> (n: usize)
        requires
            self.start <= self.end,
        ensures
            n == self.end - self.start,
    {
        self.end - self.start
    }
}

/// The address range of a section's items once they are laid out
/// contiguously: from `start` (inclusive) to `end` (exclusive).
pub struct SectionRange {
    pub start: usize,
    pub end: usize,
}

impl SectionRange {
    /// The range from `start` to `end`.
    pub fn new(start: usize, end: usize) -> (r: Self)
        ensures
            r.start == start,
            r.end == end,
    {
        Self { start, end }
    }
}

/// A non-zero-sized marker placed at the start and at the end of a section
/// so that both ends of the section carry the alignment of `T`: a zero-length
/// array of `T` gives it `T`'s alignment, the padding byte a non-zero size.
pub struct Alignment<T> {
    _align: [T; 0],
    _padding: u8,
}

impl<T> Alignment<T> {
    /// The marker value; its single byte of padding is zero.
    pub fn new() -> (a: Self)
        ensures
            a.padding() == 0,
    {
        Self { _align: [], _padding: 0 }
    }

    /// The padding byte that gives the marker its non-zero size.
    pub closed spec fn padding(&self) -> u8 {
        self._padding
    }
}

} // verus!
