//! WASM link sections backed by a custom section that counts the items.
//!
//! Each submitted item contributes one byte to a custom section, so the host
//! knows how many items a section will receive before any is registered. On
//! first access the section allocates storage for that many items; each
//! registration then hands out the next free slot, and the section counts as
//! initialized once the last slot is taken.

use vstd::prelude::*;
use vstd::string::StringSliceAdditionalSpecFns;

verus! {

/// The address an empty section points its bounds at: non-null and never
/// dereferenced.
pub const DANGLING: usize = 1;

/// The lifecycle state of a section's storage.
#[derive(PartialEq, Eq, Structural, Clone, Copy)]
pub enum LinkSectionState {
    Uninitialized,
    Initializing,
    Initialized,
}

/// The lock state of a section.
#[derive(PartialEq, Eq, Structural, Clone, Copy)]
pub enum LockState {
    /// The storage has not been set up yet.
    Uninitialized,
    /// The record is unlocked (the common case).
    Unlocked,
    /// The record is locked.
    Locked,
}

/// The state of a section's storage: the allocated range, the next free slot,
/// and the layout of the items.
#[derive(Clone, Copy)]
pub struct LinkSectionInfo {
    state: LinkSectionState,
    name_length: u16,
    name: &'static str,
    start: usize,
    end: usize,
    current: usize,
    size_of: usize,
    align_of: usize,
}

impl LinkSectionInfo {
    pub closed spec fn state(&self) -> LinkSectionState {
        self.state
    }

    pub closed spec fn start(&self) -> usize {
        self.start
    }

    pub closed spec fn end(&self) -> usize {
        self.end
    }

    /// The next free slot.
    pub closed spec fn current(&self) -> usize {
        self.current
    }

    pub closed spec fn item_size(&self) -> nat {
        self.size_of as nat
    }

    pub closed spec fn item_align(&self) -> nat {
        self.align_of as nat
    }

    pub closed spec fn name_length(&self) -> u16 {
        self.name_length
    }

    pub closed spec fn section_name(&self) -> Seq<char> {
        self.name@
    }

    /// How many slots have been handed out.
    pub open spec fn handed_out(&self) -> int {
        if self.item_size() == 0 {
            0
        } else {
            (self.current() - self.start()) / (self.item_size() as int)
        }
    }

    /// How many items the storage holds.
    pub open spec fn capacity(&self) -> int {
        if self.item_size() == 0 {
            0
        } else {
            (self.end() - self.start()) / (self.item_size() as int)
        }
    }

    /// The record is consistent: the free slot lies in the storage, slots are
    /// handed out in steps of the item size, and the section counts as
    /// initialized exactly when the storage is full.
    pub open spec fn wf(&self) -> bool {
        &&& self.start() <= self.current() <= self.end()
        &&& self.state() == LinkSectionState::Uninitialized ==> self.start() == 0 && self.end() == 0
            && self.current() == 0
        &&& self.state() == LinkSectionState::Initializing ==> self.current() < self.end()
            && self.item_size() > 0
        &&& self.state() == LinkSectionState::Initialized ==> self.current() == self.end()
        &&& self.state() != LinkSectionState::Uninitialized && self.item_size() > 0 ==>
            (self.current() - self.start()) % (self.item_size() as int) == 0
                && (self.end() - self.start()) % (self.item_size() as int) == 0
    }

    /// The bytes of storage `item_count` items need; `None` where the count
    /// overflows, a fatal error when setting up ("Link section size overflow").
    pub fn required_bytes(&self, item_count: usize) -> (r: Option<usize>)
        ensures
            r == (if item_count * self.item_size() <= usize::MAX {
                Some((item_count * self.item_size()) as usize)
            } else {
                None::<usize>
            }),
    {
        item_count.checked_mul(self.size_of)
    }

    /// Set up the storage for `item_count` items (the count the host reports
    /// for the section's custom section). An empty section is initialized at
    /// once with its bounds at [`DANGLING`]; otherwise `base` is the address of
    /// the storage allocated for the items, and slots are handed out from it.
    pub fn initialize(&mut self, item_count: usize, base: usize)
        requires
            old(self).wf(),
            old(self).state() == LinkSectionState::Uninitialized,
            setup_admissible(*old(self), item_count, base),
        ensures
            set_up_as(*old(self), *final(self), item_count, base),
            final(self).wf(),
            item_count > 0 ==> final(self).start() as int % final(self).item_align() as int == 0,
            final(self).item_size() == old(self).item_size(),
            final(self).item_align() == old(self).item_align(),
            final(self).section_name() == old(self).section_name(),
            final(self).name_length() == old(self).name_length(),
            item_count == 0 ==> {
                &&& final(self).state() == LinkSectionState::Initialized
                &&& final(self).start() == DANGLING
                &&& final(self).end() == DANGLING
                &&& final(self).current() == DANGLING
            },
            item_count > 0 ==> {
                &&& final(self).state() == LinkSectionState::Initializing
                &&& final(self).start() == base
                &&& final(self).current() == base
                &&& final(self).end() == base + item_count * old(self).item_size()
            },
    {
        if item_count == 0 {
            self.start = DANGLING;
            self.end = DANGLING;
            self.current = DANGLING;
            self.state = LinkSectionState::Initialized;
            proof {
                if self.size_of > 0 {
                    vstd::arithmetic::div_mod::lemma_small_mod(0, self.size_of as nat);
                }
            }
            return;
        }
        proof {
            vstd::arithmetic::mul::lemma_mul_strictly_positive(item_count as int, self.size_of as int);
        }
        let layout_bytes = item_count * self.size_of;
        self.start = base;
        self.current = base;
        self.end = base + layout_bytes;
        self.state = LinkSectionState::Initializing;
        proof {
            vstd::arithmetic::div_mod::lemma_small_mod(0, self.size_of as nat);
            vstd::arithmetic::div_mod::lemma_mod_multiples_basic(item_count as int, self.size_of as int);
            vstd::arithmetic::div_mod::lemma_div_multiples_vanish(item_count as int, self.size_of as int);
            vstd::arithmetic::mul::lemma_mul_is_commutative(item_count as int, self.size_of as int);
        }
    }

    /// Hand out the next free slot. Registering with a section that is
    /// already initialized ("Link section already initialized") or past the
    /// end of its storage ("too many registered items") is a fatal error;
    /// callers rule those cases out. The section counts as initialized once
    /// the slot just handed out was the last.
    pub fn take_slot(&mut self) -> (slot: usize)
        requires
            old(self).wf(),
            old(self).state() == LinkSectionState::Initializing,
        ensures
            final(self).wf(),
            slot == old(self).current(),
            slot == old(self).start() + old(self).handed_out() * old(self).item_size(),
            final(self).current() == old(self).current() + old(self).item_size(),
            final(self).handed_out() == old(self).handed_out() + 1,
            final(self).start() == old(self).start(),
            final(self).end() == old(self).end(),
            final(self).item_size() == old(self).item_size(),
            final(self).item_align() == old(self).item_align(),
            final(self).section_name() == old(self).section_name(),
            final(self).name_length() == old(self).name_length(),
            final(self).state() == (if final(self).current() == final(self).end() {
                LinkSectionState::Initialized
            } else {
                LinkSectionState::Initializing
            }),
            slot_taken(*old(self), *final(self), slot),
    {
        let slot = self.current;
        proof {
            vstd::arithmetic::div_mod::lemma_fundamental_div_mod(
                (self.current - self.start) as int,
                self.size_of as int,
            );
            vstd::arithmetic::mul::lemma_mul_is_commutative(
                self.size_of as int,
                (self.current - self.start) as int / (self.size_of as int),
            );
            lemma_next_slot_fits(
                (self.current - self.start) as int,
                (self.end - self.start) as int,
                self.size_of as int,
            );
        }
        let next = slot + self.size_of;
        self.current = next;
        if next == self.end {
            self.state = LinkSectionState::Initialized;
        }
        proof {
            let k = (slot - self.start) as int;
            let s = self.size_of as int;
            vstd::arithmetic::div_mod::lemma_fundamental_div_mod(k, s);
            assert((k + s) % s == 0 && (k + s) / s == k / s + 1) by {
                vstd::arithmetic::div_mod::lemma_mod_add_multiples_vanish(k, s);
                vstd::arithmetic::div_mod::lemma_div_plus_one(k, s);
            }
        }
        slot
    }
}

/// Whether storage for `item_count` items can be set up at `base`: for any
/// items at all, the items have a size, the storage fits in the address
/// space, and `base` is a non-null address aligned for the items.
pub open spec fn setup_admissible(info: LinkSectionInfo, item_count: usize, base: usize) -> bool {
    item_count > 0 ==> {
        &&& info.item_size() > 0
        &&& item_count * info.item_size() <= usize::MAX
        &&& base != 0
        &&& base + item_count * info.item_size() <= usize::MAX
        &&& info.item_align() > 0
        &&& base as int % info.item_align() as int == 0
    }
}

/// `after` is `before` with storage set up for `item_count` items at `base`:
/// an empty section is initialized at once with its bounds at [`DANGLING`];
/// otherwise the storage spans `item_count` items from `base` and no slot is
/// handed out yet. Layout and name are unchanged.
pub open spec fn set_up_as(
    before: LinkSectionInfo,
    after: LinkSectionInfo,
    item_count: usize,
    base: usize,
) -> bool {
    &&& after.wf()
    &&& after.item_size() == before.item_size()
    &&& after.item_align() == before.item_align()
    &&& after.section_name() == before.section_name()
    &&& after.name_length() == before.name_length()
    &&& item_count == 0 ==> {
        &&& after.state() == LinkSectionState::Initialized
        &&& after.start() == DANGLING
        &&& after.end() == DANGLING
        &&& after.current() == DANGLING
    }
    &&& item_count > 0 ==> {
        &&& after.state() == LinkSectionState::Initializing
        &&& after.start() == base
        &&& after.current() == base
        &&& after.end() == base + item_count * before.item_size()
        &&& after.start() as int % after.item_align() as int == 0
        &&& after.capacity() == item_count
    }
}

/// One registration step: `slot` is the free slot of `before`, and `after`
/// is `before` with that slot taken (the next free slot one item further on,
/// storage and layout unchanged, initialized exactly when the storage is
/// full).
pub open spec fn slot_taken(before: LinkSectionInfo, after: LinkSectionInfo, slot: usize) -> bool {
    &&& after.wf()
    &&& slot == before.current()
    &&& after.current() == before.current() + before.item_size()
    &&& after.start() == before.start()
    &&& after.end() == before.end()
    &&& after.item_size() == before.item_size()
    &&& after.item_align() == before.item_align()
    &&& after.section_name() == before.section_name()
    &&& after.name_length() == before.name_length()
    &&& after.state() == (if after.current() == after.end() {
        LinkSectionState::Initialized
    } else {
        LinkSectionState::Initializing
    })
}

/// Lock and storage state of a section, as the section's static holds them.
pub struct LinkSectionRawInfo {
    lock: LockState,
    info: LinkSectionInfo,
}

impl LinkSectionRawInfo {
    pub closed spec fn lock_state(&self) -> LockState {
        self.lock
    }

    pub closed spec fn info(&self) -> LinkSectionInfo {
        self.info
    }

    /// The record of a section named `name` storing `T`: storage not yet set
    /// up, and the name's length kept as a `u16` (truncated, as `as` does).
    pub fn new<T>(name: &'static str) -> (r: Self)
        ensures
            r.lock_state() == LockState::Uninitialized,
            r.info().wf(),
            r.info().state() == LinkSectionState::Uninitialized,
            r.info().item_size() == vstd::layout::size_of::<T>(),
            r.info().item_align() == vstd::layout::align_of::<T>(),
            r.info().section_name() == name@,
            r.info().name_length() == name.spec_bytes().len() as usize as u16,
    {
        Self {
            lock: LockState::Uninitialized,
            info: LinkSectionInfo {
                state: LinkSectionState::Uninitialized,
                name_length: name.len() as u16,
                name,
                start: 0,
                end: 0,
                current: 0,
                size_of: core::mem::size_of::<T>(),
                align_of: core::mem::align_of::<T>(),
            },
        }
    }
}

/// What taking a section's lock involves, by the lock's state.
#[derive(PartialEq, Eq, Structural, Clone, Copy)]
pub enum LockAction {
    /// Unlocked: take the lock.
    Acquire,
    /// Storage not set up yet: take the lock and set up the storage.
    InitializeAndAcquire,
    /// Already locked: a fatal error ("Link section already locked").
    AlreadyLocked,
}

/// What taking a lock in state `state` involves.
pub fn lock_action(state: LockState) -> (a: LockAction)
    ensures
        state == LockState::Unlocked ==> a == LockAction::Acquire,
        state == LockState::Uninitialized ==> a == LockAction::InitializeAndAcquire,
        state == LockState::Locked ==> a == LockAction::AlreadyLocked,
{
    match state {
        LockState::Unlocked => LockAction::Acquire,
        LockState::Uninitialized => LockAction::InitializeAndAcquire,
        LockState::Locked => LockAction::AlreadyLocked,
    }
}

/// Whether a record's lock and storage states go together: the record is
/// consistent, and the lock reads "not set up" exactly while the storage is
/// not set up.
pub open spec fn raw_consistent(raw: LinkSectionRawInfo) -> bool {
    &&& raw.info().wf()
    &&& (raw.lock_state() == LockState::Uninitialized) == (raw.info().state()
        == LinkSectionState::Uninitialized)
}

/// Handle on a section's record: the lock protects the storage state. The
/// lock reads "not set up" exactly until the storage is set up, and never
/// again after, so the storage is set up at most once.
pub struct LinkSection {
    raw: LinkSectionRawInfo,
}

impl LinkSection {
    #[verifier::type_invariant]
    spec fn consistent(&self) -> bool {
        raw_consistent(self.raw)
    }

    pub closed spec fn raw(&self) -> LinkSectionRawInfo {
        self.raw
    }

    /// A handle on `raw`.
    pub fn new(raw: LinkSectionRawInfo) -> (s: Self)
        requires
            raw_consistent(raw),
        ensures
            s.raw() == raw,
    {
        Self { raw }
    }

    /// The state of the section's lock.
    pub fn lock_state(&self) -> (l: LockState)
        ensures
            l == self.raw().lock_state(),
            raw_consistent(self.raw()),
    {
        proof {
            use_type_invariant(self);
        }
        self.raw.lock
    }

    /// The state of the section's storage.
    pub fn state(&self) -> (st: LinkSectionState)
        ensures
            st == self.raw().info().state(),
            raw_consistent(self.raw()),
    {
        proof {
            use_type_invariant(self);
        }
        self.raw.info.state
    }

    /// Take the lock of a section whose storage is set up.
    pub fn lock(&mut self)
        requires
            old(self).raw().lock_state() == LockState::Unlocked,
        ensures
            final(self).raw().lock_state() == LockState::Locked,
            final(self).raw().info() == old(self).raw().info(),
    {
        proof {
            use_type_invariant(&*self);
        }
        self.raw.lock = LockState::Locked;
    }

    /// Take the lock of a section whose storage is not set up yet, setting it
    /// up for `item_count` items at `base` (see [`LinkSectionInfo::initialize`]).
    pub fn maybe_lock_uninit(&mut self, item_count: usize, base: usize)
        requires
            old(self).raw().lock_state() == LockState::Uninitialized,
            setup_admissible(old(self).raw().info(), item_count, base),
        ensures
            final(self).raw().lock_state() == LockState::Locked,
            set_up_as(old(self).raw().info(), final(self).raw().info(), item_count, base),
            final(self).raw().info().wf(),
            final(self).raw().info().item_size() == old(self).raw().info().item_size(),
            final(self).raw().info().item_align() == old(self).raw().info().item_align(),
            final(self).raw().info().section_name() == old(self).raw().info().section_name(),
            final(self).raw().info().name_length() == old(self).raw().info().name_length(),
            item_count == 0 ==> final(self).raw().info().state() == LinkSectionState::Initialized
                && final(self).raw().info().start() == DANGLING
                && final(self).raw().info().end() == DANGLING
                && final(self).raw().info().current() == DANGLING,
            item_count > 0 ==> final(self).raw().info().state() == LinkSectionState::Initializing
                && final(self).raw().info().start() == base
                && final(self).raw().info().current() == base
                && final(self).raw().info().end() == base + item_count * old(self).raw().info().item_size()
                && final(self).raw().info().start() as int % final(self).raw().info().item_align() as int == 0,
    {
        proof {
            use_type_invariant(&*self);
        }
        let mut info = self.raw.info;
        info.initialize(item_count, base);
        self.raw = LinkSectionRawInfo { lock: LockState::Locked, info };
    }

    /// Release the lock, which the caller holds.
    pub fn unlock(&mut self)
        requires
            old(self).raw().lock_state() == LockState::Locked,
        ensures
            final(self).raw().lock_state() == LockState::Unlocked,
            final(self).raw().info() == old(self).raw().info(),
    {
        proof {
            use_type_invariant(&*self);
        }
        self.raw.lock = LockState::Unlocked;
    }

    /// The size and the alignment of the section's items.
    pub fn item_layout(&self) -> (r: (usize, usize))
        ensures
            r.0 == self.raw().info().item_size(),
            r.1 == self.raw().info().item_align(),
    {
        (self.raw.info.size_of, self.raw.info.align_of)
    }

    /// The name of the section (that of its custom section).
    pub fn name(&self) -> (n: &'static str)
        ensures
            n@ == self.raw().info().section_name(),
    {
        self.raw.info.name
    }

    /// The bytes of storage `item_count` items need (see
    /// [`LinkSectionInfo::required_bytes`]).
    pub fn required_bytes(&self, item_count: usize) -> (r: Option<usize>)
        ensures
            r == (if item_count * self.raw().info().item_size() <= usize::MAX {
                Some((item_count * self.raw().info().item_size()) as usize)
            } else {
                None::<usize>
            }),
    {
        self.raw.info.required_bytes(item_count)
    }
}

/// Register an item: under the section's lock, hand out the next free slot,
/// where the item is then written.
pub fn register_wasm_link_section_item(section: &mut LinkSection) -> (slot: usize)
    requires
        old(section).raw().lock_state() == LockState::Unlocked,
        old(section).raw().info().state() == LinkSectionState::Initializing,
    ensures
        final(section).raw().lock_state() == LockState::Unlocked,
        final(section).raw().info().wf(),
        slot == old(section).raw().info().current(),
        slot == old(section).raw().info().start() + old(section).raw().info().handed_out()
            * old(section).raw().info().item_size(),
        final(section).raw().info().current() == old(section).raw().info().current() + old(section).raw().info().item_size(),
        final(section).raw().info().handed_out() == old(section).raw().info().handed_out() + 1,
        final(section).raw().info().start() == old(section).raw().info().start(),
        final(section).raw().info().end() == old(section).raw().info().end(),
        final(section).raw().info().item_size() == old(section).raw().info().item_size(),
        final(section).raw().info().state() == (if final(section).raw().info().current() == final(section).raw().info().end() {
            LinkSectionState::Initialized
        } else {
            LinkSectionState::Initializing
        }),
        slot_taken(old(section).raw().info(), final(section).raw().info(), slot),
{
    proof {
        use_type_invariant(&*section);
    }
    section.lock();
    let mut info = section.raw.info;
    let slot = info.take_slot();
    section.raw = LinkSectionRawInfo { lock: LockState::Locked, info };
    section.unlock();
    slot
}

/// The bounds of a section backed by a custom section.
pub struct Bounds {
    section: LinkSection,
}

impl Bounds {
    pub closed spec fn section(&self) -> LinkSection {
        self.section
    }

    /// Bounds over `section`.
    pub fn new(section: LinkSection) -> (b: Self)
        ensures
            b.section() == section,
    {
        Self { section }
    }

    /// The section's lock state.
    pub fn lock_state(&self) -> (l: LockState)
        ensures
            l == self.section().raw().lock_state(),
    {
        self.section.lock_state()
    }

    /// The state of the section's storage.
    pub fn state(&self) -> (st: LinkSectionState)
        ensures
            st == self.section().raw().info().state(),
    {
        self.section.state()
    }

    /// The section the bounds are over.
    pub fn link_section(&self) -> (s: &LinkSection)
        ensures
            *s == self.section(),
    {
        &self.section
    }

    /// Set up the section's storage if that has not happened yet, for
    /// `item_count` items at `base` (see [`LinkSectionInfo::initialize`]),
    /// leaving the lock released.
    fn set_up_if_needed(&mut self, item_count: usize, base: usize)
        requires
            old(self).section().raw().lock_state() != LockState::Locked,
            old(self).section().raw().lock_state() == LockState::Uninitialized ==> setup_admissible(
                old(self).section().raw().info(),
                item_count,
                base,
            ),
        ensures
            final(self).section().raw().lock_state() == LockState::Unlocked,
            old(self).section().raw().lock_state() == LockState::Unlocked ==> *final(self) == *old(
                self,
            ),
            old(self).section().raw().lock_state() == LockState::Uninitialized ==> set_up_as(
                old(self).section().raw().info(),
                final(self).section().raw().info(),
                item_count,
                base,
            ),
    {
        if self.section.lock_state() == LockState::Uninitialized {
            self.section.maybe_lock_uninit(item_count, base);
            self.section.unlock();
        }
    }

    /// The start address of the storage. Taking the lock first sets up the
    /// storage where that has not happened yet, for the `item_count` items
    /// the section's custom section reports, at `base`. Asking while the
    /// section is not initialized ("possible ctor ordering issue") is a fatal
    /// error, so callers rule it out: either the storage is set up and every
    /// slot taken, or it is not set up yet and the section has no items
    /// (its bounds are then [`DANGLING`]).
    pub fn start_ptr(&mut self, item_count: usize, base: usize) -> (p: usize)
        requires
            old(self).section().raw().lock_state() != LockState::Locked,
            old(self).section().raw().lock_state() == LockState::Unlocked ==> old(
                self,
            ).section().raw().info().state() == LinkSectionState::Initialized,
            old(self).section().raw().lock_state() == LockState::Uninitialized ==> item_count == 0,
        ensures
            final(self).section().raw().lock_state() == LockState::Unlocked,
            final(self).section().raw().info().state() == LinkSectionState::Initialized,
            p == final(self).section().raw().info().start(),
            old(self).section().raw().lock_state() == LockState::Unlocked ==> *final(self) == *old(
                self,
            ),
            old(self).section().raw().lock_state() == LockState::Uninitialized ==> p == DANGLING
                && set_up_as(
                old(self).section().raw().info(),
                final(self).section().raw().info(),
                item_count,
                base,
            ),
    {
        self.set_up_if_needed(item_count, base);
        self.section.lock();
        let p = self.section.raw.info.start;
        self.section.unlock();
        p
    }

    /// The end address of the storage; set up and checked as for
    /// [`Bounds::start_ptr`].
    pub fn end_ptr(&mut self, item_count: usize, base: usize) -> (p: usize)
        requires
            old(self).section().raw().lock_state() != LockState::Locked,
            old(self).section().raw().lock_state() == LockState::Unlocked ==> old(
                self,
            ).section().raw().info().state() == LinkSectionState::Initialized,
            old(self).section().raw().lock_state() == LockState::Uninitialized ==> item_count == 0,
        ensures
            final(self).section().raw().lock_state() == LockState::Unlocked,
            final(self).section().raw().info().state() == LinkSectionState::Initialized,
            p == final(self).section().raw().info().end(),
            old(self).section().raw().lock_state() == LockState::Unlocked ==> *final(self) == *old(
                self,
            ),
            old(self).section().raw().lock_state() == LockState::Uninitialized ==> p == DANGLING
                && set_up_as(
                old(self).section().raw().info(),
                final(self).section().raw().info(),
                item_count,
                base,
            ),
    {
        self.set_up_if_needed(item_count, base);
        self.section.lock();
        let p = self.section.raw.info.end;
        self.section.unlock();
        p
    }

    /// The byte length of the storage. Taking the lock first sets up the
    /// storage where that has not happened yet, for the `item_count` items
    /// the section's custom section reports, at `base`; unlike the start and
    /// end, the length may be asked before every slot is taken. It is the
    /// item count times the item size.
    pub fn byte_len(&mut self, item_count: usize, base: usize) -> (n: usize)
        requires
            old(self).section().raw().lock_state() != LockState::Locked,
            old(self).section().raw().lock_state() == LockState::Uninitialized ==> setup_admissible(
                old(self).section().raw().info(),
                item_count,
                base,
            ),
        ensures
            final(self).section().raw().lock_state() == LockState::Unlocked,
            n == final(self).section().raw().info().end() - final(self).section().raw().info().start(),
            old(self).section().raw().lock_state() == LockState::Unlocked ==> *final(self) == *old(
                self,
            ),
            old(self).section().raw().lock_state() == LockState::Uninitialized ==> n == item_count
                * old(self).section().raw().info().item_size() && set_up_as(
                old(self).section().raw().info(),
                final(self).section().raw().info(),
                item_count,
                base,
            ),
    {
        self.set_up_if_needed(item_count, base);
        proof {
            use_type_invariant(&self.section);
            vstd::arithmetic::mul::lemma_mul_by_zero_is_zero(self.section.raw.info.size_of as int);
        }
        self.section.lock();
        let n = self.section.raw.info.end - self.section.raw.info.start;
        self.section.unlock();
        n
    }
}

/// The storage of a set-up section spans a whole number of items: its
/// capacity times the item size. Set up for `n` items, the capacity is `n`
/// (see [`set_up_as`]), so the byte length is `n` items.
pub proof fn law_storage_spans_capacity(info: LinkSectionInfo)
    requires
        info.wf(),
        info.state() != LinkSectionState::Uninitialized,
        info.item_size() > 0,
    ensures
        info.end() - info.start() == info.capacity() * info.item_size(),
{
    let s = info.item_size() as int;
    vstd::arithmetic::div_mod::lemma_fundamental_div_mod(info.end() - info.start(), s);
    vstd::arithmetic::mul::lemma_mul_is_commutative(s, (info.end() - info.start()) / s);
}

/// A section whose storage is set up counts as initialized exactly when every
/// slot of its storage has been handed out.
pub proof fn law_initialized_when_all_slots_taken(info: LinkSectionInfo)
    requires
        info.wf(),
        info.state() != LinkSectionState::Uninitialized,
        info.item_size() > 0,
    ensures
        (info.state() == LinkSectionState::Initialized) <==> info.handed_out() == (info.end()
            - info.start()) / (info.item_size() as int),
{
    let s = info.item_size() as int;
    let used = info.current() - info.start();
    let total = info.end() - info.start();
    if info.state() == LinkSectionState::Initializing {
        lemma_next_slot_fits(used, total, s);
        vstd::arithmetic::div_mod::lemma_fundamental_div_mod(used, s);
        vstd::arithmetic::div_mod::lemma_fundamental_div_mod(total, s);
        let a = used / s;
        let b = total / s;
        if a >= b {
            vstd::arithmetic::mul::lemma_mul_inequality(b, a, s);
            vstd::arithmetic::mul::lemma_mul_is_commutative(a, s);
            vstd::arithmetic::mul::lemma_mul_is_commutative(b, s);
        }
    }
}

/// Slots are handed out in order from the start of the storage: once the
/// storage is set up, the next free slot lies `handed_out` items past the
/// start, within the storage. So the `j`-th registration gets
/// `start + j * size`, distinct slots for distinct registrations.
pub proof fn law_slots_in_order(info: LinkSectionInfo)
    requires
        info.wf(),
        info.state() != LinkSectionState::Uninitialized,
        info.item_size() > 0,
    ensures
        info.current() == info.start() + info.handed_out() * info.item_size(),
        info.start() + info.handed_out() * info.item_size() <= info.end(),
{
    let s = info.item_size() as int;
    vstd::arithmetic::div_mod::lemma_fundamental_div_mod(info.current() - info.start(), s);
    vstd::arithmetic::mul::lemma_mul_is_commutative(s, (info.current() - info.start()) / s);
}

/// Storage is set up at most once. Setting it up requires the lock to read
/// "not set up"; in every consistent record (every handle's record is one)
/// whose storage is set up, the lock never reads so, and no operation on a
/// handle leaves it so.
pub proof fn law_storage_set_up_at_most_once(raw: LinkSectionRawInfo)
    requires
        raw_consistent(raw),
        raw.info().state() != LinkSectionState::Uninitialized,
    ensures
        raw.lock_state() != LockState::Uninitialized,
{
}

/// A run of registrations from freshly set-up storage: `infos[0]` is the
/// storage just set up for at least one item, and the `j`-th registration,
/// made while the section was still initializing, took `slots[j]` and left
/// the section in state `infos[j + 1]`.
pub open spec fn registration_run(infos: Seq<LinkSectionInfo>, slots: Seq<usize>) -> bool {
    &&& infos.len() == slots.len() + 1
    &&& infos[0].wf()
    &&& infos[0].state() == LinkSectionState::Initializing
    &&& infos[0].current() == infos[0].start()
    &&& forall|j: int|
        #![trigger slots[j]]
        0 <= j < slots.len() ==> infos[j].state() == LinkSectionState::Initializing && slot_taken(
            infos[j],
            infos[j + 1],
            slots[j],
        )
}

/// Registrations fill the storage in order. Starting from freshly set-up
/// storage (state `infos[0]`), let `k` registrations take one slot each,
/// `slots[j]` taking the section from `infos[j]` to `infos[j + 1]` (each
/// registration requires the section still initializing). Then the `j`-th
/// registration gets `start + j * size`; each slot lies in the storage;
/// distinct registrations get distinct slots; and the section counts as
/// initialized after the `k`-th exactly when `k` is the number of items the
/// storage holds (a further registration is then refused).
pub proof fn law_registrations_fill_storage_in_order(
    infos: Seq<LinkSectionInfo>,
    slots: Seq<usize>,
)
    requires
        registration_run(infos, slots),
    ensures
        forall|j: int|
            #![trigger slots[j]]
            0 <= j < slots.len() ==> slots[j] == infos[0].start() + j * infos[0].item_size(),
        forall|j: int|
            #![trigger slots[j]]
            0 <= j < slots.len() ==> infos[0].start() <= slots[j] && slots[j]
                + infos[0].item_size() <= infos[0].end(),
        forall|i: int, j: int|
            #![trigger slots[i], slots[j]]
            0 <= i < j < slots.len() ==> slots[i] != slots[j],
        (infos[slots.len() as int].state() == LinkSectionState::Initialized) <==> slots.len() == (
        infos[0].end() - infos[0].start()) / (infos[0].item_size() as int),
{
    let s = infos[0].item_size() as int;
    let start = infos[0].start() as int;
    let total = infos[0].end() - infos[0].start();
    let k = slots.len() as int;
    assert forall|j: int| #![trigger slots[j]] 0 <= j < slots.len() implies slots[j] == start
        + j * s && start <= slots[j] && slots[j] + s <= infos[0].end() by {
        lemma_registration_prefix(infos, slots, j);
        lemma_registration_prefix(infos, slots, j + 1);
    }
    assert forall|i: int, j: int| #![trigger slots[i], slots[j]] 0 <= i < j < slots.len() implies slots[i]
        != slots[j] by {
        vstd::arithmetic::mul::lemma_mul_strict_inequality(i, j, s);
    }
    lemma_registration_prefix(infos, slots, k);
    vstd::arithmetic::div_mod::lemma_fundamental_div_mod(total, s);
    vstd::arithmetic::div_mod::lemma_div_multiples_vanish(k, s);
    vstd::arithmetic::mul::lemma_mul_is_commutative(k, s);
    if k == 0 {
        assert(total / s != 0) by {
            if total / s == 0 {
                assert(total == s * (total / s) + total % s);
                vstd::arithmetic::mul::lemma_mul_by_zero_is_zero(s);
            }
        }
    } else {
        if k == total / s {
            assert(total == s * (total / s) + total % s);
        }
    }
}

/// After `k` registrations from freshly set-up storage, the next free slot
/// is `k` items past the start, with storage and layout unchanged.
proof fn lemma_registration_prefix(infos: Seq<LinkSectionInfo>, slots: Seq<usize>, k: int)
    requires
        registration_run(infos, slots),
        0 <= k <= slots.len(),
    ensures
        infos[k].wf(),
        infos[k].current() == infos[0].start() + k * infos[0].item_size(),
        infos[k].start() == infos[0].start(),
        infos[k].end() == infos[0].end(),
        infos[k].item_size() == infos[0].item_size(),
    decreases k,
{
    if k > 0 {
        lemma_registration_prefix(infos, slots, k - 1);
        assert(slot_taken(infos[k - 1], infos[k], slots[k - 1]));
        vstd::arithmetic::mul::lemma_mul_is_distributive_add_other_way(
            infos[0].item_size() as int,
            k - 1,
            1,
        );
    }
}

/// With whole items handed out below a limit that is not yet reached, one
/// more item fits (the storage holds a whole number of items).
proof fn lemma_next_slot_fits(used: int, total: int, size: int)
    requires
        0 <= used < total,
        size > 0,
        used % size == 0,
        total % size == 0,
    ensures
        used + size <= total,
{
    vstd::arithmetic::div_mod::lemma_fundamental_div_mod(used, size);
    vstd::arithmetic::div_mod::lemma_fundamental_div_mod(total, size);
    let a = used / size;
    let b = total / size;
    assert(a < b) by {
        if a >= b {
            vstd::arithmetic::mul::lemma_mul_inequality(b, a, size);
            vstd::arithmetic::mul::lemma_mul_is_commutative(a, size);
            vstd::arithmetic::mul::lemma_mul_is_commutative(b, size);
        }
    }
    vstd::arithmetic::mul::lemma_mul_inequality(a + 1, b, size);
    vstd::arithmetic::mul::lemma_mul_is_distributive_add_other_way(size, a, 1);
    vstd::arithmetic::mul::lemma_mul_is_commutative(a, size);
    vstd::arithmetic::mul::lemma_mul_is_commutative(b, size);
    vstd::arithmetic::mul::lemma_mul_is_commutative(a + 1, size);
}

} // verus!
