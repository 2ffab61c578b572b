use link_section::wasm::{
    lock_action, register_wasm_link_section_item, Bounds, LinkSection, LinkSectionRawInfo,
    LinkSectionState, LockAction, LockState, DANGLING,
};

#[test]
fn registrations_hand_out_consecutive_slots() {
    let mut section = LinkSection::new(LinkSectionRawInfo::new::<u32>("items"));
    assert!(section.lock_state() == LockState::Uninitialized);
    assert_eq!(section.required_bytes(3), Some(12));
    section.maybe_lock_uninit(3, 0x1000);
    assert!(section.lock_state() == LockState::Locked);
    section.unlock();
    assert_eq!(register_wasm_link_section_item(&mut section), 0x1000);
    assert_eq!(register_wasm_link_section_item(&mut section), 0x1004);
    assert_eq!(register_wasm_link_section_item(&mut section), 0x1008);
    let mut bounds = Bounds::new(section);
    assert_eq!(bounds.start_ptr(0, 0), 0x1000);
    assert_eq!(bounds.end_ptr(0, 0), 0x100c);
    assert_eq!(bounds.byte_len(0, 0), 12);
}

#[test]
fn an_empty_section_is_initialized_at_once() {
    let mut section = LinkSection::new(LinkSectionRawInfo::new::<u64>("none"));
    section.maybe_lock_uninit(0, 0);
    section.unlock();
    let mut bounds = Bounds::new(section);
    assert_eq!(bounds.start_ptr(0, 0), DANGLING);
    assert_eq!(bounds.end_ptr(0, 0), DANGLING);
    assert_eq!(bounds.byte_len(0, 0), 0);
}

#[test]
fn byte_len_is_available_before_the_last_registration() {
    let mut section = LinkSection::new(LinkSectionRawInfo::new::<u16>("partial"));
    section.maybe_lock_uninit(4, 0x20);
    section.unlock();
    assert_eq!(register_wasm_link_section_item(&mut section), 0x20);
    let mut bounds = Bounds::new(section);
    assert_eq!(bounds.byte_len(0, 0), 8);
}

#[test]
fn required_bytes_reports_overflow() {
    let section = LinkSection::new(LinkSectionRawInfo::new::<u64>("big"));
    assert_eq!(section.required_bytes(usize::MAX), None);
    assert_eq!(section.required_bytes(0), Some(0));
}

#[test]
fn lock_action_by_state() {
    assert!(lock_action(LockState::Unlocked) == LockAction::Acquire);
    assert!(lock_action(LockState::Uninitialized) == LockAction::InitializeAndAcquire);
    assert!(lock_action(LockState::Locked) == LockAction::AlreadyLocked);
}

#[test]
fn lock_and_unlock() {
    let mut section = LinkSection::new(LinkSectionRawInfo::new::<u8>("l"));
    section.maybe_lock_uninit(1, 0x40);
    section.unlock();
    section.lock();
    assert!(section.lock_state() == LockState::Locked);
    section.unlock();
    assert!(section.lock_state() == LockState::Unlocked);
}

#[test]
fn the_section_is_initialized_when_the_last_slot_is_taken() {
    let mut section = LinkSection::new(LinkSectionRawInfo::new::<u64>("count"));
    section.maybe_lock_uninit(2, 0x100);
    section.unlock();
    assert!(section.state() == LinkSectionState::Initializing);
    assert_eq!(register_wasm_link_section_item(&mut section), 0x100);
    assert!(section.state() == LinkSectionState::Initializing);
    assert_eq!(register_wasm_link_section_item(&mut section), 0x108);
    assert!(section.state() == LinkSectionState::Initialized);
    assert!(section.lock_state() == LockState::Unlocked);
}

#[test]
fn bounds_set_up_an_empty_section_on_first_use() {
    let section = LinkSection::new(LinkSectionRawInfo::new::<u32>("fresh"));
    let mut bounds = Bounds::new(section);
    assert!(bounds.lock_state() == LockState::Uninitialized);
    assert_eq!(bounds.start_ptr(0, 0), DANGLING);
    assert!(bounds.state() == LinkSectionState::Initialized);
    assert!(bounds.lock_state() == LockState::Unlocked);
    assert_eq!(bounds.end_ptr(0, 0), DANGLING);
    assert_eq!(bounds.byte_len(0, 0), 0);
}

#[test]
fn byte_len_sets_up_the_storage_for_the_counted_items() {
    let section = LinkSection::new(LinkSectionRawInfo::new::<u32>("counted"));
    let mut bounds = Bounds::new(section);
    assert_eq!(bounds.byte_len(3, 0x400), 12);
    assert!(bounds.state() == LinkSectionState::Initializing);
    assert!(bounds.lock_state() == LockState::Unlocked);
    assert_eq!(bounds.byte_len(0, 0), 12);
}
