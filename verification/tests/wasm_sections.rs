use link_section::platform::wasm::{
    flatten_wasm_link_section, meta_offset, register_wasm_link_section_item, Bounds, LinkCell,
    LinkMeta, LinkMetaSlot, LinkSectionInfo, LinkSectionInfoLock, LinkSectionMovableInfo,
    MovableBounds, MovableRefStorage, RefStorage,
};
use link_section::platform::{Alignment, PtrBounds, SectionRange};

fn plain(bytes: &[u8]) -> LinkCell<Vec<u8>, LinkMeta> {
    LinkCell::<Vec<u8>, LinkMeta>::new(bytes.to_vec())
}

fn slotted(bytes: &[u8], slot: usize) -> LinkCell<Vec<u8>, LinkMetaSlot> {
    LinkCell::<Vec<u8>, LinkMetaSlot>::new(bytes.to_vec(), slot)
}

#[test]
fn ptr_bounds_report_their_addresses_and_length() {
    let b = PtrBounds::new(0x1000, 0x1040);
    assert_eq!(b.start_ptr(), 0x1000);
    assert_eq!(b.end_ptr(), 0x1040);
    assert_eq!(b.byte_len(), 0x40);
    assert_eq!(PtrBounds::new(7, 7).byte_len(), 0);
    let r = SectionRange::new(3, 9);
    assert_eq!((r.start, r.end), (3, 9));
    let _marker: Alignment<u64> = Alignment::new();
}

#[test]
fn meta_offset_rounds_up_to_pointer_alignment() {
    let a = core::mem::align_of::<usize>();
    assert_eq!(meta_offset(0), 0);
    assert_eq!(meta_offset(1), a);
    assert_eq!(meta_offset(a), a);
    assert_eq!(meta_offset(a + 1), 2 * a);
    assert_eq!(meta_offset(3 * a - 1), 3 * a);
}

#[test]
fn cells_start_unlinked() {
    let c = plain(&[1, 2]);
    assert_eq!(c.meta.next, 0);
    assert_eq!(c.value, vec![1, 2]);
    let s = slotted(&[3], 77);
    assert_eq!(s.meta.next, 0);
    assert_eq!(s.meta.slot, 77);
}

#[test]
fn flatten_keeps_submission_order() {
    let mut info = LinkSectionInfo::new::<u32>("items", false);
    info.push(plain(&[1, 1, 1, 1]));
    info.push(plain(&[2, 2, 2, 2]));
    info.push(plain(&[3, 3, 3, 3]));
    assert_eq!(info.len(), 3);
    assert!(info.stored_bytes().is_empty());
    info.flatten();
    let r = info.range();
    assert_eq!((r.start, r.end), (0, 12));
    assert_eq!(
        info.stored_bytes(),
        &vec![1, 1, 1, 1, 2, 2, 2, 2, 3, 3, 3, 3]
    );
}

#[test]
fn flatten_is_idempotent() {
    let mut info = LinkSectionInfo::new::<u16>("twice", false);
    info.push(plain(&[9, 8]));
    info.flatten();
    let first = info.stored_bytes().clone();
    let r1 = info.range();
    info.flatten();
    let r2 = info.range();
    assert_eq!(info.stored_bytes(), &first);
    assert_eq!((r1.start, r1.end), (r2.start, r2.end));
}

#[test]
fn empty_section_flattens_to_an_empty_range() {
    let mut info = LinkSectionInfo::new::<u64>("empty", false);
    info.flatten();
    let r = info.range();
    assert_eq!(r.start, r.end);
    assert!(info.stored_bytes().is_empty());
}

#[test]
fn slots_resolve_to_the_item_place() {
    let mut info = LinkSectionInfo::new::<u16>("refs", true);
    info.push(slotted(&[1, 0], 0x500));
    info.push(slotted(&[2, 0], 0));
    info.push(slotted(&[3, 0], 0x700));
    info.flatten();
    assert_eq!(info.resolve_slot(0x500), Some(0));
    assert_eq!(info.resolve_slot(0x700), Some(4));
    assert_eq!(info.resolve_slot(0), None);
    assert_eq!(info.resolve_slot(0x600), None);
    let t = info.resolve_slot(0x700).unwrap();
    assert_eq!(&info.stored_bytes()[t..t + 2], &[3, 0]);
}

#[test]
fn a_shared_slot_resolves_to_the_first_item() {
    let mut info = LinkSectionInfo::new::<u8>("dup", true);
    info.push(slotted(&[1], 0x10));
    info.push(slotted(&[2], 0x10));
    info.flatten();
    assert_eq!(info.resolve_slot(0x10), Some(0));
}

#[test]
fn plain_sections_resolve_no_slot() {
    let mut info = LinkSectionInfo::new::<u8>("plain", false);
    info.push(plain(&[1]));
    info.flatten();
    assert_eq!(info.resolve_slot(0x10), None);
}

#[test]
fn registration_and_bounds_go_through_the_lock() {
    let mut lock = LinkSectionInfoLock::new(LinkSectionInfo::new::<u16>("locked", false));
    register_wasm_link_section_item(&mut lock, plain(&[5, 6]));
    register_wasm_link_section_item(&mut lock, plain(&[7, 8]));
    flatten_wasm_link_section(&mut lock);
    flatten_wasm_link_section(&mut lock);
    let mut bounds = Bounds::new(LinkSectionInfoLock::new(LinkSectionInfo::new::<u16>("b", false)));
    bounds.register(plain(&[1, 2]));
    bounds.register(plain(&[3, 4]));
    bounds.register(plain(&[5, 6]));
    let r = bounds.range();
    assert_eq!((r.start, r.end), (0, 6));
    let again = bounds.range();
    assert_eq!((again.start, again.end), (0, 6));
}

#[test]
fn references_resolve_lazily() {
    let mut bounds = Bounds::new(LinkSectionInfoLock::new(LinkSectionInfo::new::<u32>("r", true)));
    bounds.register(slotted(&[0, 0, 0, 1], 0x100));
    bounds.register(slotted(&[0, 0, 0, 2], 0x200));
    let mut second = RefStorage::new(0x200);
    assert_eq!(second.as_ptr(), None);
    assert_eq!(second.get(&mut bounds), 4);
    assert_eq!(second.as_ptr(), Some(4));
    let mut first = RefStorage::new(0x100);
    assert_eq!(first.get(&mut bounds), 0);
}

#[test]
fn movable_sections_record_backrefs() {
    let mut info = LinkSectionMovableInfo::new::<u16>("m");
    info.push(slotted(&[1, 1], 0xa0));
    info.push(slotted(&[2, 2], 0xb0));
    info.flatten();
    assert_eq!(info.backref(0), 0xa0);
    assert_eq!(info.backref(1), 0xb0);
    let r = info.range();
    assert_eq!((r.start, r.end), (0, 4));
    let b = info.backrefs_range();
    assert_eq!((b.start, b.end), (0, 2 * core::mem::size_of::<usize>()));
}

#[test]
fn movable_bounds_and_references() {
    let mut bounds = MovableBounds::new(LinkSectionInfoLock::new(LinkSectionMovableInfo::new::<u8>("mv")));
    bounds.register(slotted(&[4], 0x40));
    bounds.register(slotted(&[5], 0x50));
    let mut r = MovableRefStorage::new(None, 0x50);
    assert_eq!(r.get(&mut bounds), 1);
    let range = bounds.range();
    assert_eq!((range.start, range.end), (0, 2));
    let backrefs = bounds.backrefs_range();
    assert_eq!(backrefs.end, 2 * core::mem::size_of::<usize>());
    let mut known = MovableRefStorage::new(Some(99), 0x40);
    assert_eq!(known.as_ptr(), Some(99));
    assert_eq!(known.get(&mut bounds), 99);
}
