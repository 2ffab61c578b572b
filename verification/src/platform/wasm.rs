//! Runtime bookkeeping for a WASM link section.
//!
//! WASM has no linker-gathered sections whose bounds are known at run time.
//! Each submitted item is a [`LinkCell`]: the value followed by its list link.
//! Constructors register the cells one by one with the section's
//! [`LinkSectionInfo`], and the section is then flattened once into contiguous
//! storage, in submission order. Sections that hand out references carry a
//! fix-up slot per cell, which flattening resolves to the item's final place.
//!
//! The contiguous storage belongs to the section record; the addresses that the
//! record hands out (its range and the targets of fix-up slots) are byte offsets
//! into that storage.

use vstd::prelude::*;
use vstd::arithmetic::power2::{is_pow2_exists, lemma_pow2, lemma_pow2_strictly_increases};
use vstd::bits::{low_bits_mask, lemma_usize_low_bits_mask_is_mod};
use vstd::layout::{valid_layout, layout_for_type_is_valid};

use crate::platform::SectionRange;

verus! {

/// The alignment of a pointer (that of `usize`, which has the same layout).
pub open spec fn pointer_align() -> int {
    vstd::layout::align_of::<usize>() as int
}

/// Offset of the trailing link metadata within a cell whose value occupies
/// `size_of` bytes: `size_of` rounded up to the alignment of a pointer.
pub fn meta_offset(size_of: usize) -> (r: usize)
    requires
        size_of + pointer_align() - 1 <= usize::MAX,
    ensures
        (r as int) % pointer_align() == 0,
        size_of <= r < size_of + pointer_align(),
{
    layout_for_type_is_valid::<usize>();
    let align = core::mem::align_of::<usize>();
    let y = size_of + (align - 1);
    let r = y & !(align - 1);
    proof {
        broadcast use vstd::arithmetic::power2::is_pow2_equiv;
        assert(is_pow2_exists(align as int));
        let k = choose|k: nat| vstd::arithmetic::power::pow(2, k) == align as int;
        lemma_pow2(k);
        vstd::layout::unsigned_int_max_values();
        lemma_pow2(usize::BITS as nat);
        if k >= usize::BITS {
            if k > usize::BITS {
                lemma_pow2_strictly_increases(usize::BITS as nat, k);
            }
            assert(false);
        }
        assert(low_bits_mask(k) == align - 1);
        lemma_usize_low_bits_mask_is_mod(y, k);
        let m = (align - 1) as usize;
        assert(y & !m == y - (y & m)) by (bit_vector);
        assert(y & m == y % align);
        let q = y / align;
        vstd::arithmetic::div_mod::lemma_fundamental_div_mod(y as int, align as int);
        assert(r == align * q);
        vstd::arithmetic::div_mod::lemma_mod_multiples_basic(q as int, align as int);
        vstd::arithmetic::mul::lemma_mul_is_commutative(q as int, align as int);
    }
    r
}

/// The lifecycle state of a section's storage.
#[derive(PartialEq, Eq, Structural, Clone, Copy)]
pub enum LinkSectionState {
    /// Items are still being submitted; no contiguous storage exists yet.
    Gathering,
    /// The submitted items have been laid out in contiguous storage.
    Flattened,
}

/// The lock state of a section's info record.
#[derive(PartialEq, Eq, Structural, Clone, Copy)]
pub enum LockState {
    Unlocked,
    Locked,
}

/// List link of a plain (`typed`/`mutable`) cell: the address of the next
/// cell, 0 at the tail.
pub struct LinkMeta {
    pub next: usize,
}

/// List link of a reference (`reference`/`movable`) cell: the address of the
/// next cell, and the address of the fix-up slot that flattening points at the
/// item's final place (0 where there is none).
pub struct LinkMetaSlot {
    pub next: usize,
    pub slot: usize,
}

/// What the section reads from a cell's link metadata.
pub trait CellLink {
    /// The fix-up slot the cell carries (0 for none).
    spec fn slot_of(&self) -> usize;

    fn slot(&self) -> (s: usize)
        ensures
            s == self.slot_of(),
    ;
}

impl CellLink for LinkMeta {
    open spec fn slot_of(&self) -> usize {
        0
    }

    fn slot(&self) -> (s: usize) {
        0
    }
}

impl CellLink for LinkMetaSlot {
    open spec fn slot_of(&self) -> usize {
        self.slot
    }

    fn slot(&self) -> (s: usize) {
        self.slot
    }
}

/// A submitted item: its value, followed by its list link.
pub struct LinkCell<T, M> {
    pub value: T,
    pub meta: M,
}

impl<T> LinkCell<T, LinkMeta> {
    /// A plain cell holding `value`, not yet linked.
    pub fn new(value: T) -> (c: Self)
        ensures
            c.value == value,
            c.meta.next == 0,
    {
        Self { value, meta: LinkMeta { next: 0 } }
    }
}

impl<T> LinkCell<T, LinkMetaSlot> {
    /// A reference cell holding `value` and the fix-up slot `slot`, not yet
    /// linked.
    pub fn new(value: T, slot: usize) -> (c: Self)
        ensures
            c.value == value,
            c.meta.next == 0,
            c.meta.slot == slot,
    {
        Self { value, meta: LinkMetaSlot { next: 0, slot } }
    }
}

/// A cell as the section holds it once registered: the bytes of the value and
/// the fix-up slot (0 for none).
pub struct SubmittedCell {
    pub bytes: Vec<u8>,
    pub slot: usize,
}

/// Whether `count` items of `size_of` bytes aligned to `align_of` can be laid
/// out in one allocation.
pub open spec fn storage_fits(count: nat, size_of: nat, align_of: nat) -> bool {
    count == 0 || (count * size_of <= usize::MAX && valid_layout(
        (count * size_of) as usize,
        align_of as usize,
    ))
}

/// A WASM link section: the submitted cells and, once flattened, the
/// contiguous storage of their values.
pub struct LinkSectionInfo {
    state: LinkSectionState,
    has_slot: bool,
    cells: Vec<SubmittedCell>,
    start: usize,
    end: usize,
    storage: Vec<u8>,
    size_of: usize,
    align_of: usize,
    name: &'static str,
}

impl LinkSectionInfo {
    /// The values of the submitted cells, in submission order.
    pub closed spec fn values(&self) -> Seq<Seq<u8>> {
        self.cells@.map_values(|c: SubmittedCell| c.bytes@)
    }

    /// The fix-up slots of the submitted cells, in submission order.
    pub closed spec fn slots(&self) -> Seq<usize> {
        self.cells@.map_values(|c: SubmittedCell| c.slot)
    }

    pub closed spec fn count(&self) -> nat {
        self.cells@.len()
    }

    pub closed spec fn is_flattened(&self) -> bool {
        self.state == LinkSectionState::Flattened
    }

    pub closed spec fn carries_slots(&self) -> bool {
        self.has_slot
    }

    pub closed spec fn item_size(&self) -> nat {
        self.size_of as nat
    }

    pub closed spec fn item_align(&self) -> nat {
        self.align_of as nat
    }

    pub closed spec fn section_name(&self) -> Seq<char> {
        self.name@
    }

    /// The contiguous storage (empty until the section is flattened).
    pub closed spec fn stored(&self) -> Seq<u8> {
        self.storage@
    }

    pub closed spec fn range_start(&self) -> usize {
        self.start
    }

    pub closed spec fn range_end(&self) -> usize {
        self.end
    }

    /// The bytes that item `i` occupies in the contiguous storage.
    pub open spec fn item_in_storage(&self, i: int) -> Seq<u8> {
        self.stored().subrange(i * self.item_size(), i * self.item_size() + self.item_size())
    }

    /// The record is consistent: every cell holds one value of the section's
    /// item size, and a flattened section's storage holds the values in
    /// submission order, one after the other.
    pub open spec fn wf(&self) -> bool {
        &&& self.values().len() == self.count()
        &&& self.slots().len() == self.count()
        &&& forall|i: int| 0 <= i < self.count() ==> (#[trigger] self.values()[i]).len() == self.item_size()
        &&& self.is_flattened() ==> {
            &&& self.stored().len() == self.count() * self.item_size()
            &&& self.range_start() == 0
            &&& self.range_end() == self.stored().len()
            &&& forall|i: int| 0 <= i < self.count() ==> #[trigger] self.item_in_storage(i) == self.values()[i]
        }
        &&& !self.is_flattened() ==> {
            &&& self.stored().len() == 0
            &&& self.range_start() == 0
            &&& self.range_end() == 0
        }
    }

    /// Whether flattening can lay the section out: the byte count does not
    /// overflow and makes a valid layout (otherwise flattening is a fatal
    /// error).
    pub open spec fn can_flatten(&self) -> bool {
        self.is_flattened() || storage_fits(self.count(), self.item_size(), self.item_align())
    }

    /// Metadata for a section storing `T`; `has_slot` selects cells carrying a
    /// fix-up slot (reference sections).
    pub fn new<T>(name: &'static str, has_slot: bool) -> (info: Self)
        ensures
            info.wf(),
            !info.is_flattened(),
            info.count() == 0,
            info.carries_slots() == has_slot,
            info.item_size() == vstd::layout::size_of::<T>(),
            info.item_align() == vstd::layout::align_of::<T>(),
            info.section_name() == name@,
    {
        let info = Self {
            state: LinkSectionState::Gathering,
            has_slot,
            cells: Vec::new(),
            start: 0,
            end: 0,
            storage: Vec::new(),
            size_of: core::mem::size_of::<T>(),
            align_of: core::mem::align_of::<T>(),
            name,
        };
        assert(info.values() =~= Seq::<Seq<u8>>::empty());
        info
    }

    /// Thread a cell onto the section's list of submissions.
    pub fn push<M: CellLink>(&mut self, cell: LinkCell<Vec<u8>, M>)
        requires
            old(self).wf(),
            !old(self).is_flattened(),
            cell.value@.len() == old(self).item_size(),
        ensures
            final(self).wf(),
            !final(self).is_flattened(),
            final(self).count() == old(self).count() + 1,
            final(self).values() == old(self).values().push(cell.value@),
            final(self).slots() == old(self).slots().push(cell.meta.slot_of()),
            final(self).carries_slots() == old(self).carries_slots(),
            final(self).item_size() == old(self).item_size(),
            final(self).item_align() == old(self).item_align(),
            final(self).section_name() == old(self).section_name(),
    {
        let slot = cell.meta.slot();
        self.cells.push(SubmittedCell { bytes: cell.value, slot });
        assert(self.values() =~= old(self).values().push(cell.value@));
        assert(self.slots() =~= old(self).slots().push(slot));
    }

    /// Lay the submitted values out in contiguous storage. The list is walked
    /// from its most recent cell back to its first and each value is placed at
    /// its index from the back, so that storage order is submission order.
    /// Returns, where the cells carry slots, the slot of each item by its index
    /// in the storage (empty otherwise).
    fn materialise(&mut self) -> (slots: Vec<usize>)
        requires
            old(self).wf(),
            !old(self).is_flattened(),
            storage_fits(old(self).count(), old(self).item_size(), old(self).item_align()),
        ensures
            final(self).cells@ == old(self).cells@,
            final(self).state == old(self).state,
            final(self).has_slot == old(self).has_slot,
            final(self).size_of == old(self).size_of,
            final(self).align_of == old(self).align_of,
            final(self).name == old(self).name,
            final(self).stored().len() == final(self).count() * final(self).item_size(),
            final(self).range_start() == 0,
            final(self).range_end() == final(self).stored().len(),
            forall|i: int| 0 <= i < final(self).count() ==> #[trigger] final(self).item_in_storage(i) == final(self).values()[i],
            old(self).has_slot ==> slots@ == old(self).slots(),
            !old(self).has_slot ==> slots@.len() == 0,
    {
        let count = self.cells.len();
        if count == 0 {
            self.start = 0;
            self.end = 0;
            assert(self.count() * self.item_size() == 0) by (nonlinear_arith)
                requires
                    self.count() == 0,
            ;
            return Vec::new();
        }
        let size_of = self.size_of;
        proof {
            vstd::arithmetic::mul::lemma_mul_nonnegative(count as int, size_of as int);
        }
        let bytes = count * size_of;
        let mut arr: Vec<u8> = vec![0u8; bytes];
        let mut slots: Vec<usize> = if self.has_slot { vec![0usize; count] } else { Vec::new() };
        let mut i = count;
        while i > 0
            invariant
                i <= count,
                count == self.cells@.len(),
                self == old(self),
                self.wf(),
                size_of == self.size_of,
                bytes == count * size_of,
                arr@.len() == bytes,
                forall|j: int, m: int| i <= j < count && 0 <= m < size_of ==>
                    #[trigger] arr@[j * size_of + m] == self.values()[j][m],
                self.has_slot ==> slots@.len() == count,
                !self.has_slot ==> slots@.len() == 0,
                self.has_slot ==> forall|j: int| i <= j < count ==> #[trigger] slots@[j] == self.slots()[j],
            decreases i,
        {
            i -= 1;
            let cell = &self.cells[i];
            proof {
                lemma_block_in_range(i as int, count as int, size_of as int);
                lemma_blocks_after(i as int, size_of as int);
                assert(cell.bytes@ == self.values()[i as int]);
            }
            let dst = i * size_of;
            let mut k: usize = 0;
            while k < size_of
                invariant
                    i < count,
                    count == self.cells@.len(),
                    self == old(self),
                    self.wf(),
                    size_of == self.size_of,
                    bytes == count * size_of,
                    dst == i * size_of,
                    dst + size_of <= bytes,
                    k <= size_of,
                    cell == &self.cells@[i as int],
                    cell.bytes@ == self.values()[i as int],
                    arr@.len() == bytes,
                    forall|j: int| i < j ==> (i * size_of + size_of) <= #[trigger] (j * size_of),
                    forall|j: int, m: int| i < j < count && 0 <= m < size_of ==>
                        #[trigger] arr@[j * size_of + m] == self.values()[j][m],
                    forall|m: int| 0 <= m < k ==> #[trigger] arr@[dst + m] == self.values()[i as int][m],
                decreases size_of - k,
            {
                let ghost before = arr@;
                arr.set(dst + k, cell.bytes[k]);
                proof {
                    assert forall|j: int, m: int| i < j < count && 0 <= m < size_of implies
                        #[trigger] arr@[j * size_of + m] == self.values()[j][m] by {
                        assert(i * size_of + size_of <= j * size_of);
                        lemma_block_in_range(j, count as int, size_of as int);
                        assert(before[j * size_of + m] == self.values()[j][m]);
                    }
                }
                k += 1;
            }
            proof {
                assert forall|j: int, m: int| i <= j < count && 0 <= m < size_of implies
                    #[trigger] arr@[j * size_of + m] == self.values()[j][m] by {
                    if j == i {
                        assert(arr@[dst + m] == self.values()[i as int][m]);
                    }
                }
            }
            if self.has_slot {
                slots.set(i, cell.slot);
            }
        }
        proof {
            assert forall|j: int| 0 <= j < count implies
                #[trigger] arr@.subrange(j * size_of, j * size_of + size_of) == self.values()[j] by {
                lemma_block_in_range(j, count as int, size_of as int);
                assert forall|m: int| 0 <= m < size_of implies
                    arr@.subrange(j * size_of, j * size_of + size_of)[m] == self.values()[j][m] by {
                    assert(arr@[j * size_of + m] == self.values()[j][m]);
                }
                assert(arr@.subrange(j * size_of, j * size_of + size_of) =~= self.values()[j]);
            }
            if self.has_slot {
                assert(slots@ =~= self.slots());
            }
        }
        self.storage = arr;
        self.start = 0;
        self.end = bytes;
        slots
    }

    /// Materialise the submissions into one contiguous storage. Idempotent:
    /// a flattened section is left as it is.
    pub fn flatten(&mut self)
        requires
            old(self).wf(),
            old(self).can_flatten(),
        ensures
            final(self).wf(),
            final(self).is_flattened(),
            old(self).is_flattened() ==> *final(self) == *old(self),
            final(self).values() == old(self).values(),
            final(self).count() == old(self).count(),
            final(self).slots() == old(self).slots(),
            final(self).carries_slots() == old(self).carries_slots(),
            final(self).item_size() == old(self).item_size(),
            final(self).item_align() == old(self).item_align(),
            final(self).section_name() == old(self).section_name(),
    {
        if self.state == LinkSectionState::Flattened {
            return;
        }
        let _ = self.materialise();
        let ghost laid_out = *self;
        self.state = LinkSectionState::Flattened;
        assert forall|i: int| 0 <= i < self.count() implies #[trigger] self.item_in_storage(i) == self.values()[i] by {
            assert(laid_out.item_in_storage(i) == laid_out.values()[i]);
        }
        assert(self.values() == old(self).values());
        assert(self.stored().len() == self.count() * self.item_size());
    }

    /// The flattened item range (meaningful once the section is flattened).
    pub fn range(&self) -> (r: SectionRange)
        ensures
            r.start == self.range_start(),
            r.end == self.range_end(),
    {
        SectionRange::new(self.start, self.end)
    }

    /// The place flattening gives the item whose fix-up slot is `slot`.
    pub open spec fn slot_target(&self, slot: usize) -> Option<usize> {
        if self.carries_slots() && slot != 0 && self.slots().contains(slot) {
            Some((first_index_of(self.slots(), slot) * self.item_size()) as usize)
        } else {
            None
        }
    }

    /// The number of submitted cells.
    pub fn len(&self) -> (n: usize)
        ensures
            n == self.count(),
    {
        self.cells.len()
    }

    /// The contiguous storage (empty until the section is flattened).
    pub fn stored_bytes(&self) -> (b: &Vec<u8>)
        ensures
            b@ == self.stored(),
    {
        &self.storage
    }

    /// Where flattening points the fix-up slot `slot`: the place of the first
    /// submitted item that carries it (flattening walks the items from the last
    /// to the first, so the first one's write is the one that stays). `None`
    /// where the cells carry no slots, `slot` is null, or no item carries it.
    pub fn resolve_slot(&self, slot: usize) -> (r: Option<usize>)
        requires
            self.wf(),
            self.is_flattened(),
        ensures
            r is Some <==> (self.carries_slots() && slot != 0 && self.slots().contains(slot)),
            r == self.slot_target(slot),
            r matches Some(t) ==> exists|i: int|
                0 <= i < self.count() && #[trigger] self.slots()[i] == slot
                    && (forall|j: int| 0 <= j < i ==> self.slots()[j] != slot)
                    && t == i * self.item_size(),
    {
        if !self.has_slot || slot == 0 {
            return None;
        }
        let n = self.cells.len();
        let mut i: usize = 0;
        while i < n
            invariant
                i <= n == self.cells@.len(),
                self.wf(),
                self.is_flattened(),
                self.has_slot,
                slot != 0,
                forall|j: int| 0 <= j < i ==> self.slots()[j] != slot,
            decreases n - i,
        {
            if self.cells[i].slot == slot {
                proof {
                    lemma_block_in_range(i as int, n as int, self.size_of as int);
                    assert(self.slots()[i as int] == slot);
                    assert(self.slots().contains(slot));
                    lemma_first_index_of(self.slots(), slot, i as int);
                }
                return Some(i * self.size_of);
            }
            i += 1;
        }
        proof {
            if self.slots().contains(slot) {
                let j = choose|j: int| 0 <= j < self.slots().len() && self.slots()[j] == slot;
                assert(self.slots()[j] != slot);
            }
        }
        None
    }
}

/// The index of the first occurrence of `x` in `s` (meaningful where `s`
/// contains `x`).
pub open spec fn first_index_of(s: Seq<usize>, x: usize) -> int {
    choose|i: int| 0 <= i < s.len() && s[i] == x && forall|j: int| 0 <= j < i ==> s[j] != x
}

/// An occurrence of `x` with none before it is the first occurrence.
pub proof fn lemma_first_index_of(s: Seq<usize>, x: usize, i: int)
    requires
        0 <= i < s.len(),
        s[i] == x,
        forall|j: int| 0 <= j < i ==> s[j] != x,
    ensures
        first_index_of(s, x) == i,
{
    let k = first_index_of(s, x);
    assert(0 <= k < s.len() && s[k] == x && forall|j: int| 0 <= j < k ==> s[j] != x);
    if k < i {
        assert(s[k] != x);
    }
    if i < k {
        assert(s[i] != x);
    }
}

/// A sequence that contains `x` has a first occurrence of it.
proof fn lemma_first_occurrence_exists(s: Seq<usize>, x: usize, j: int)
    requires
        0 <= j <= s.len(),
        forall|k: int| 0 <= k < j ==> s[k] != x,
        s.subrange(j, s.len() as int).contains(x),
    ensures
        exists|i: int| 0 <= i < s.len() && s[i] == x && forall|k: int| 0 <= k < i ==> s[k] != x,
    decreases s.len() - j,
{
    let tail = s.subrange(j, s.len() as int);
    let w = choose|w: int| 0 <= w < tail.len() && tail[w] == x;
    assert(tail[w] == s[j + w]);
    if s[j] == x {
        assert(0 <= j < s.len() && s[j] == x && forall|k: int| 0 <= k < j ==> s[k] != x);
    } else {
        assert(w > 0);
        let rest = s.subrange(j + 1, s.len() as int);
        assert(rest[w - 1] == s[j + w]);
        lemma_first_occurrence_exists(s, x, j + 1);
    }
}

/// A reference reads back what was registered for it: once the section is
/// flattened, the place its slot resolves to holds the value of the first
/// item registered with that slot.
pub proof fn law_slot_reads_back_registered_value(info: LinkSectionInfo, slot: usize)
    requires
        info.wf(),
        info.is_flattened(),
        info.carries_slots(),
        slot != 0,
        info.slots().contains(slot),
    ensures
        info.slot_target(slot) matches Some(t) && info.stored().subrange(t as int, t + info.item_size())
            == info.values()[first_index_of(info.slots(), slot)],
        info.slots()[first_index_of(info.slots(), slot)] == slot,
{
    let s = info.slots();
    assert(s.subrange(0, s.len() as int) =~= s);
    lemma_first_occurrence_exists(s, slot, 0);
    let i = first_index_of(s, slot);
    assert(0 <= i < s.len() && s[i] == slot);
    assert(s.len() == info.count());
    lemma_block_in_range(i, info.count() as int, info.item_size() as int);
    assert(info.item_in_storage(i) == info.values()[i]);
}

/// The size of a backref record: a single pointer to an item's slot.
pub open spec fn backref_size() -> nat {
    vstd::layout::size_of::<usize>()
}

/// A movable WASM link section: the section itself and, once flattened, one
/// backref per item, the item's fix-up slot, in storage order.
pub struct LinkSectionMovableInfo {
    base: LinkSectionInfo,
    backrefs: Vec<usize>,
    backrefs_start: usize,
    backrefs_end: usize,
}

impl LinkSectionMovableInfo {
    /// The underlying section record.
    pub closed spec fn base(&self) -> LinkSectionInfo {
        self.base
    }

    /// The backrefs (empty until the section is flattened).
    pub closed spec fn backrefs(&self) -> Seq<usize> {
        self.backrefs@
    }

    pub closed spec fn backrefs_start(&self) -> usize {
        self.backrefs_start
    }

    pub closed spec fn backrefs_end(&self) -> usize {
        self.backrefs_end
    }

    /// The record is consistent: the section is, its cells carry slots, and a
    /// flattened section holds the slot of each item as its backref.
    pub open spec fn wf(&self) -> bool {
        &&& self.base().wf()
        &&& self.base().carries_slots()
        &&& self.backrefs_start() == 0
        &&& self.base().is_flattened() ==> {
            &&& self.backrefs() == self.base().slots()
            &&& self.backrefs_end() == self.base().count() * backref_size()
        }
        &&& !self.base().is_flattened() ==> self.backrefs().len() == 0 && self.backrefs_end() == 0
    }

    /// Whether flattening can lay out both the items and the backrefs.
    pub open spec fn can_flatten(&self) -> bool {
        self.base().is_flattened() || (self.base().can_flatten() && storage_fits(
            self.base().count(),
            backref_size(),
            vstd::layout::align_of::<usize>(),
        ))
    }

    /// Metadata for a movable section storing `T`; its cells carry slots.
    pub fn new<T>(name: &'static str) -> (info: Self)
        ensures
            info.wf(),
            !info.base().is_flattened(),
            info.base().count() == 0,
            info.base().item_size() == vstd::layout::size_of::<T>(),
            info.base().item_align() == vstd::layout::align_of::<T>(),
            info.base().section_name() == name@,
    {
        Self {
            base: LinkSectionInfo::new::<T>(name, true),
            backrefs: Vec::new(),
            backrefs_start: 0,
            backrefs_end: 0,
        }
    }

    /// Thread a cell onto the section's list of submissions.
    pub fn push(&mut self, cell: LinkCell<Vec<u8>, LinkMetaSlot>)
        requires
            old(self).wf(),
            !old(self).base().is_flattened(),
            cell.value@.len() == old(self).base().item_size(),
        ensures
            final(self).wf(),
            !final(self).base().is_flattened(),
            final(self).base().count() == old(self).base().count() + 1,
            final(self).base().values() == old(self).base().values().push(cell.value@),
            final(self).base().slots() == old(self).base().slots().push(cell.meta.slot),
            final(self).base().item_size() == old(self).base().item_size(),
            final(self).base().item_align() == old(self).base().item_align(),
            final(self).base().section_name() == old(self).base().section_name(),
    {
        self.base.push(cell);
    }

    /// Materialise the values and the backrefs. Idempotent.
    pub fn flatten(&mut self)
        requires
            old(self).wf(),
            old(self).can_flatten(),
        ensures
            final(self).wf(),
            final(self).base().is_flattened(),
            old(self).base().is_flattened() ==> *final(self) == *old(self),
            final(self).base().values() == old(self).base().values(),
            final(self).base().count() == old(self).base().count(),
            final(self).base().slots() == old(self).base().slots(),
            final(self).base().item_size() == old(self).base().item_size(),
            final(self).base().item_align() == old(self).base().item_align(),
            final(self).base().section_name() == old(self).base().section_name(),
    {
        if self.base.state == LinkSectionState::Flattened {
            return;
        }
        let count = self.base.cells.len();
        let backref_bytes = if count == 0 {
            0
        } else {
            proof {
                vstd::arithmetic::mul::lemma_mul_nonnegative(count as int, backref_size() as int);
            }
            count * core::mem::size_of::<usize>()
        };
        let slots = self.base.materialise();
        let ghost laid_out = self.base;
        self.base.state = LinkSectionState::Flattened;
        proof {
            assert forall|i: int| 0 <= i < self.base.count() implies #[trigger] self.base.item_in_storage(i)
                == self.base.values()[i] by {
                assert(laid_out.item_in_storage(i) == laid_out.values()[i]);
            }
            assert(self.base.values() == old(self).base.values());
        }
        self.backrefs = slots;
        self.backrefs_start = 0;
        self.backrefs_end = backref_bytes;
    }

    /// The flattened item range.
    pub fn range(&self) -> (r: SectionRange)
        ensures
            r.start == self.base().range_start(),
            r.end == self.base().range_end(),
    {
        self.base.range()
    }

    /// The flattened backref range.
    pub fn backrefs_range(&self) -> (r: SectionRange)
        ensures
            r.start == self.backrefs_start(),
            r.end == self.backrefs_end(),
    {
        SectionRange::new(self.backrefs_start, self.backrefs_end)
    }

    /// The backref of item `i`: the item's fix-up slot.
    pub fn backref(&self, i: usize) -> (slot: usize)
        requires
            i < self.backrefs().len(),
        ensures
            slot == self.backrefs()[i as int],
    {
        self.backrefs[i]
    }
}

/// Lock and info record of a section. Registration and the first
/// (flattening) read take the lock; taking a held lock is a fatal error.
pub struct LinkSectionInfoLock<I> {
    lock: LockState,
    info: I,
}

impl<I> LinkSectionInfoLock<I> {
    pub closed spec fn info(&self) -> I {
        self.info
    }

    pub closed spec fn is_unlocked(&self) -> bool {
        self.lock == LockState::Unlocked
    }

    /// A new, unlocked record holding `info`.
    pub fn new(info: I) -> (l: Self)
        ensures
            l.info() == info,
            l.is_unlocked(),
    {
        Self { lock: LockState::Unlocked, info }
    }

    /// Take the lock. Taking a held lock is a fatal error ("Link section
    /// already locked: concurrent access is not supported"); callers rule it
    /// out, so at most one holder has the record at a time.
    pub fn lock(&mut self)
        requires
            old(self).is_unlocked(),
        ensures
            !final(self).is_unlocked(),
            final(self).info() == old(self).info(),
            lock_taken(*old(self), *final(self)),
    {
        self.lock = LockState::Locked;
    }

    /// Release the lock, which the caller holds.
    pub fn unlock(&mut self)
        requires
            !old(self).is_unlocked(),
        ensures
            final(self).is_unlocked(),
            final(self).info() == old(self).info(),
            lock_released(*old(self), *final(self)),
    {
        self.lock = LockState::Unlocked;
    }
}

/// `after` is `before` with its lock taken, the info unchanged.
pub open spec fn lock_taken<I>(before: LinkSectionInfoLock<I>, after: LinkSectionInfoLock<I>) -> bool {
    &&& !after.is_unlocked()
    &&& after.info() == before.info()
}

/// `after` is `before` with its lock released, the info unchanged.
pub open spec fn lock_released<I>(before: LinkSectionInfoLock<I>, after: LinkSectionInfoLock<I>) -> bool {
    &&& after.is_unlocked()
    &&& after.info() == before.info()
}

/// The lock is exclusive: once taken, a record refuses to be taken again
/// (taking requires it unlocked) until it is released, and releasing makes
/// it takeable again; neither step changes the info. So at most one holder
/// has the info at a time.
pub proof fn law_lock_is_exclusive<I>(
    before: LinkSectionInfoLock<I>,
    held: LinkSectionInfoLock<I>,
    released: LinkSectionInfoLock<I>,
)
    requires
        before.is_unlocked(),
        lock_taken(before, held),
        lock_released(held, released),
    ensures
        !held.is_unlocked(),
        released.is_unlocked(),
        held.info() == before.info(),
        released.info() == before.info(),
{
}

/// Register a cell with a section: under the section's lock, thread it onto
/// the section's list.
pub fn register_wasm_link_section_item<M: CellLink>(
    section: &mut LinkSectionInfoLock<LinkSectionInfo>,
    cell: LinkCell<Vec<u8>, M>,
)
    requires
        old(section).is_unlocked(),
        old(section).info().wf(),
        !old(section).info().is_flattened(),
        cell.value@.len() == old(section).info().item_size(),
    ensures
        final(section).is_unlocked(),
        final(section).info().wf(),
        !final(section).info().is_flattened(),
        final(section).info().count() == old(section).info().count() + 1,
        final(section).info().values() == old(section).info().values().push(cell.value@),
        final(section).info().slots() == old(section).info().slots().push(cell.meta.slot_of()),
        final(section).info().carries_slots() == old(section).info().carries_slots(),
        final(section).info().item_size() == old(section).info().item_size(),
        final(section).info().item_align() == old(section).info().item_align(),
        final(section).info().section_name() == old(section).info().section_name(),
{
    section.lock();
    section.info.push(cell);
    section.unlock();
}

/// Register a movable-section cell with its section.
pub fn register_wasm_link_section_movable_item(
    section: &mut LinkSectionInfoLock<LinkSectionMovableInfo>,
    cell: LinkCell<Vec<u8>, LinkMetaSlot>,
)
    requires
        old(section).is_unlocked(),
        old(section).info().wf(),
        !old(section).info().base().is_flattened(),
        cell.value@.len() == old(section).info().base().item_size(),
    ensures
        final(section).is_unlocked(),
        final(section).info().wf(),
        !final(section).info().base().is_flattened(),
        final(section).info().base().count() == old(section).info().base().count() + 1,
        final(section).info().base().values() == old(section).info().base().values().push(cell.value@),
        final(section).info().base().slots() == old(section).info().base().slots().push(cell.meta.slot),
        final(section).info().base().item_size() == old(section).info().base().item_size(),
        final(section).info().base().item_align() == old(section).info().base().item_align(),
        final(section).info().base().section_name() == old(section).info().base().section_name(),
{
    section.lock();
    section.info.push(cell);
    section.unlock();
}

/// Flatten a section under its lock (idempotent).
pub fn flatten_wasm_link_section(section: &mut LinkSectionInfoLock<LinkSectionInfo>)
    requires
        old(section).is_unlocked(),
        old(section).info().wf(),
        old(section).info().can_flatten(),
    ensures
        final(section).is_unlocked(),
        final(section).info().wf(),
        final(section).info().is_flattened(),
        old(section).info().is_flattened() ==> final(section).info() == old(section).info(),
        final(section).info().values() == old(section).info().values(),
        final(section).info().count() == old(section).info().count(),
        final(section).info().slots() == old(section).info().slots(),
        final(section).info().carries_slots() == old(section).info().carries_slots(),
        final(section).info().item_size() == old(section).info().item_size(),
        final(section).info().item_align() == old(section).info().item_align(),
        final(section).info().section_name() == old(section).info().section_name(),
{
    section.lock();
    section.info.flatten();
    section.unlock();
}

/// Flatten a movable section under its lock (idempotent).
pub fn flatten_wasm_link_section_movable(section: &mut LinkSectionInfoLock<LinkSectionMovableInfo>)
    requires
        old(section).is_unlocked(),
        old(section).info().wf(),
        old(section).info().can_flatten(),
    ensures
        final(section).is_unlocked(),
        final(section).info().wf(),
        final(section).info().base().is_flattened(),
        old(section).info().base().is_flattened() ==> final(section).info() == old(section).info(),
        final(section).info().base().values() == old(section).info().base().values(),
        final(section).info().base().count() == old(section).info().base().count(),
        final(section).info().base().slots() == old(section).info().base().slots(),
        final(section).info().base().item_size() == old(section).info().base().item_size(),
        final(section).info().base().item_align() == old(section).info().base().item_align(),
        final(section).info().base().section_name() == old(section).info().base().section_name(),
{
    section.lock();
    section.info.flatten();
    section.unlock();
}

/// Run-time bounds of a WASM link section: the section, flattened lazily on
/// first access.
pub struct Bounds {
    section: LinkSectionInfoLock<LinkSectionInfo>,
}

impl Bounds {
    pub closed spec fn section(&self) -> LinkSectionInfoLock<LinkSectionInfo> {
        self.section
    }

    /// Bounds over `section`.
    pub fn new(section: LinkSectionInfoLock<LinkSectionInfo>) -> (b: Self)
        ensures
            b.section() == section,
    {
        Self { section }
    }

    /// Register a cell with the section.
    pub fn register<M: CellLink>(&mut self, cell: LinkCell<Vec<u8>, M>)
        requires
            old(self).section().is_unlocked(),
            old(self).section().info().wf(),
            !old(self).section().info().is_flattened(),
            cell.value@.len() == old(self).section().info().item_size(),
        ensures
            final(self).section().is_unlocked(),
            final(self).section().info().wf(),
            !final(self).section().info().is_flattened(),
            final(self).section().info().count() == old(self).section().info().count() + 1,
            final(self).section().info().values() == old(self).section().info().values().push(cell.value@),
            final(self).section().info().slots() == old(self).section().info().slots().push(cell.meta.slot_of()),
            final(self).section().info().carries_slots() == old(self).section().info().carries_slots(),
            final(self).section().info().item_size() == old(self).section().info().item_size(),
            final(self).section().info().item_align() == old(self).section().info().item_align(),
    {
        register_wasm_link_section_item(&mut self.section, cell);
    }

    /// The section's item range, flattening the section first if no earlier
    /// access has done so.
    pub fn range(&mut self) -> (r: SectionRange)
        requires
            old(self).section().is_unlocked(),
            old(self).section().info().wf(),
            old(self).section().info().can_flatten(),
        ensures
            final(self).section().is_unlocked(),
            final(self).section().info().wf(),
            final(self).section().info().is_flattened(),
            old(self).section().info().is_flattened() ==> final(self).section() == old(self).section(),
            final(self).section().info().values() == old(self).section().info().values(),
            final(self).section().info().count() == old(self).section().info().count(),
            final(self).section().info().slots() == old(self).section().info().slots(),
            final(self).section().info().carries_slots() == old(self).section().info().carries_slots(),
            final(self).section().info().item_size() == old(self).section().info().item_size(),
            r.start == 0,
            r.end == old(self).section().info().count() * old(self).section().info().item_size(),
            r.start == final(self).section().info().range_start(),
            r.end == final(self).section().info().range_end(),
    {
        self.section.lock();
        self.section.info.flatten();
        let r = self.section.info.range();
        self.section.unlock();
        r
    }
}

/// Run-time bounds of a WASM movable link section and of its backrefs.
pub struct MovableBounds {
    section: LinkSectionInfoLock<LinkSectionMovableInfo>,
}

impl MovableBounds {
    pub closed spec fn section(&self) -> LinkSectionInfoLock<LinkSectionMovableInfo> {
        self.section
    }

    /// Bounds over `section`.
    pub fn new(section: LinkSectionInfoLock<LinkSectionMovableInfo>) -> (b: Self)
        ensures
            b.section() == section,
    {
        Self { section }
    }

    /// Register a cell with the section.
    pub fn register(&mut self, cell: LinkCell<Vec<u8>, LinkMetaSlot>)
        requires
            old(self).section().is_unlocked(),
            old(self).section().info().wf(),
            !old(self).section().info().base().is_flattened(),
            cell.value@.len() == old(self).section().info().base().item_size(),
        ensures
            final(self).section().is_unlocked(),
            final(self).section().info().wf(),
            !final(self).section().info().base().is_flattened(),
            final(self).section().info().base().count() == old(self).section().info().base().count() + 1,
            final(self).section().info().base().values() == old(self).section().info().base().values().push(cell.value@),
            final(self).section().info().base().slots() == old(self).section().info().base().slots().push(cell.meta.slot),
            final(self).section().info().base().item_size() == old(self).section().info().base().item_size(),
            final(self).section().info().base().item_align() == old(self).section().info().base().item_align(),
    {
        register_wasm_link_section_movable_item(&mut self.section, cell);
    }

    /// The movable item range, flattening the section first if necessary.
    pub fn range(&mut self) -> (r: SectionRange)
        requires
            old(self).section().is_unlocked(),
            old(self).section().info().wf(),
            old(self).section().info().can_flatten(),
        ensures
            final(self).section().is_unlocked(),
            final(self).section().info().wf(),
            final(self).section().info().base().is_flattened(),
            old(self).section().info().base().is_flattened() ==> final(self).section() == old(self).section(),
            final(self).section().info().base().values() == old(self).section().info().base().values(),
            final(self).section().info().base().count() == old(self).section().info().base().count(),
            final(self).section().info().base().slots() == old(self).section().info().base().slots(),
            final(self).section().info().base().item_size() == old(self).section().info().base().item_size(),
            r.start == 0,
            r.end == old(self).section().info().base().count() * old(self).section().info().base().item_size(),
            r.start == final(self).section().info().base().range_start(),
            r.end == final(self).section().info().base().range_end(),
    {
        self.section.lock();
        self.section.info.flatten();
        let r = self.section.info.range();
        self.section.unlock();
        r
    }

    /// The backref range, flattening the section first if necessary.
    pub fn backrefs_range(&mut self) -> (r: SectionRange)
        requires
            old(self).section().is_unlocked(),
            old(self).section().info().wf(),
            old(self).section().info().can_flatten(),
        ensures
            final(self).section().is_unlocked(),
            final(self).section().info().wf(),
            final(self).section().info().base().is_flattened(),
            old(self).section().info().base().is_flattened() ==> final(self).section() == old(self).section(),
            final(self).section().info().base().values() == old(self).section().info().base().values(),
            final(self).section().info().base().count() == old(self).section().info().base().count(),
            final(self).section().info().base().slots() == old(self).section().info().base().slots(),
            final(self).section().info().base().item_size() == old(self).section().info().base().item_size(),
            final(self).section().info().backrefs() == old(self).section().info().base().slots(),
            r.start == 0,
            r.end == old(self).section().info().base().count() * backref_size(),
            r.start == final(self).section().info().backrefs_start(),
            r.end == final(self).section().info().backrefs_end(),
    {
        self.section.lock();
        self.section.info.flatten();
        let r = self.section.info.backrefs_range();
        self.section.unlock();
        r
    }
}

/// Storage behind a reference into a WASM section: the item's place, once
/// known, and the fix-up slot that registration named for it.
pub struct RefStorage {
    ptr: Option<usize>,
    slot: usize,
}

impl RefStorage {
    pub closed spec fn ptr(&self) -> Option<usize> {
        self.ptr
    }

    pub closed spec fn slot(&self) -> usize {
        self.slot
    }

    /// Storage for a reference whose fix-up slot is `slot`, not yet resolved.
    pub fn new(slot: usize) -> (r: Self)
        ensures
            r.ptr() is None,
            r.slot() == slot,
    {
        Self { ptr: None, slot }
    }

    /// The item's place, read without flattening.
    pub fn as_ptr(&self) -> (p: Option<usize>)
        ensures
            p == self.ptr(),
    {
        self.ptr
    }

    /// Resolve to the item's place, flattening the section on first use.
    /// A reference for which the section holds no item is a fatal error
    /// ("Ref not initialized"); callers rule that case out.
    pub fn get(&mut self, bounds: &mut Bounds) -> (p: usize)
        requires
            old(bounds).section().is_unlocked(),
            old(bounds).section().info().wf(),
            old(bounds).section().info().can_flatten(),
            old(self).ptr() is None ==> old(bounds).section().info().carries_slots()
                && old(self).slot() != 0
                && old(bounds).section().info().slots().contains(old(self).slot()),
        ensures
            final(self).slot() == old(self).slot(),
            final(self).ptr() == Some(p),
            old(self).ptr() matches Some(q) ==> p == q && *final(bounds) == *old(bounds),
            old(self).ptr() is None ==> {
                &&& final(bounds).section().is_unlocked()
                &&& final(bounds).section().info().wf()
                &&& final(bounds).section().info().is_flattened()
                &&& final(bounds).section().info().values() == old(bounds).section().info().values()
                &&& final(bounds).section().info().slots() == old(bounds).section().info().slots()
                &&& final(bounds).section().info().item_size() == old(bounds).section().info().item_size()
                &&& Some(p) == final(bounds).section().info().slot_target(old(self).slot())
            },
    {
        match self.ptr {
            Some(p) => p,
            None => {
                flatten_wasm_link_section(&mut bounds.section);
                let t = bounds.section.info.resolve_slot(self.slot);
                match t {
                    Some(p) => {
                        self.ptr = Some(p);
                        p
                    },
                    None => {
                        proof {
                            assert(false);
                        }
                        0
                    },
                }
            },
        }
    }
}

/// Storage behind a reference into a WASM movable section: the item's place,
/// once known, and the fix-up slot that registration named for it.
pub struct MovableRefStorage {
    slot_ptr: Option<usize>,
    slot: usize,
}

impl MovableRefStorage {
    pub closed spec fn ptr(&self) -> Option<usize> {
        self.slot_ptr
    }

    pub closed spec fn slot(&self) -> usize {
        self.slot
    }

    /// Storage holding `ptr` whose fix-up slot is `slot`.
    pub fn new(ptr: Option<usize>, slot: usize) -> (r: Self)
        ensures
            r.ptr() == ptr,
            r.slot() == slot,
    {
        Self { slot_ptr: ptr, slot }
    }

    /// The current place, read without flattening.
    pub fn as_ptr(&self) -> (p: Option<usize>)
        ensures
            p == self.ptr(),
    {
        self.slot_ptr
    }

    /// Resolve to the item's place, flattening the section on first use.
    /// A reference for which the section holds no item is a fatal error
    /// ("MovableRef not initialized"); callers rule that case out.
    pub fn get(&mut self, bounds: &mut MovableBounds) -> (p: usize)
        requires
            old(bounds).section().is_unlocked(),
            old(bounds).section().info().wf(),
            old(bounds).section().info().can_flatten(),
            old(self).ptr() is None ==> old(self).slot() != 0
                && old(bounds).section().info().base().slots().contains(old(self).slot()),
        ensures
            final(self).slot() == old(self).slot(),
            final(self).ptr() == Some(p),
            old(self).ptr() matches Some(q) ==> p == q && *final(bounds) == *old(bounds),
            old(self).ptr() is None ==> {
                &&& final(bounds).section().is_unlocked()
                &&& final(bounds).section().info().wf()
                &&& final(bounds).section().info().base().is_flattened()
                &&& final(bounds).section().info().base().values() == old(bounds).section().info().base().values()
                &&& final(bounds).section().info().base().slots() == old(bounds).section().info().base().slots()
                &&& final(bounds).section().info().base().item_size() == old(bounds).section().info().base().item_size()
                &&& Some(p) == final(bounds).section().info().base().slot_target(old(self).slot())
            },
    {
        match self.slot_ptr {
            Some(p) => p,
            None => {
                flatten_wasm_link_section_movable(&mut bounds.section);
                let t = bounds.section.info.base.resolve_slot(self.slot);
                match t {
                    Some(p) => {
                        self.slot_ptr = Some(p);
                        p
                    },
                    None => {
                        proof {
                            assert(false);
                        }
                        0
                    },
                }
            },
        }
    }
}

/// An item block of `size` bytes at index `i < count` lies inside the
/// `count * size` bytes of storage.
proof fn lemma_block_in_range(i: int, count: int, size: int)
    requires
        0 <= i < count,
        0 <= size,
    ensures
        0 <= i * size,
        i * size + size <= count * size,
{
    assert(0 <= i * size) by (nonlinear_arith)
        requires
            0 <= i,
            0 <= size,
    ;
    assert(i * size + size <= count * size) by (nonlinear_arith)
        requires
            0 <= i < count,
            0 <= size,
    ;
}

/// Every block after block `i` starts after block `i` ends.
proof fn lemma_blocks_after(i: int, size: int)
    requires
        0 <= i,
        0 <= size,
    ensures
        forall|j: int| i < j ==> (i * size + size) <= #[trigger] (j * size),
{
    assert forall|j: int| i < j implies (i * size + size) <= #[trigger] (j * size) by {
        assert(i * size + size <= j * size) by (nonlinear_arith)
            requires
                i < j,
                0 <= size,
        ;
    }
}

} // verus!
