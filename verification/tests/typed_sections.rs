use link_section::platform::PtrBounds;
use link_section::sections::{
    Ref, Section, TypedMutableSection, TypedReferenceSection, TypedSection,
};

#[test]
fn untyped_section_bounds() {
    let s = Section::new("data", PtrBounds::new(100, 164));
    assert_eq!(s.start_ptr(), 100);
    assert_eq!(s.end_ptr(), 164);
    assert_eq!(s.byte_len(), 64);
    Section::__validate(&s);
}

#[test]
fn typed_section_len_and_offsets() {
    let s: TypedSection<u64> = TypedSection::new("words", PtrBounds::new(0x100, 0x140));
    assert_eq!(s.stride(), 8);
    assert_eq!(s.byte_len(), 0x40);
    assert_eq!(s.len(), 8);
    assert!(!s.is_empty());
    assert_eq!(s.offset_of(0x100), Some(0));
    assert_eq!(s.offset_of(0x118), Some(3));
    assert_eq!(s.offset_of(0x138), Some(7));
    assert_eq!(s.offset_of(0x140), None);
    assert_eq!(s.offset_of(0xf8), None);
}

#[test]
fn empty_typed_section() {
    let s: TypedSection<u32> = TypedSection::new("none", PtrBounds::new(0x200, 0x200));
    assert_eq!(s.len(), 0);
    assert!(s.is_empty());
    assert_eq!(s.offset_of(0x200), None);
}

#[test]
fn mutable_section_pointers() {
    let s: TypedMutableSection<u16> = TypedMutableSection::new("m", PtrBounds::new(10, 20));
    assert_eq!(s.start_ptr_mut(), 10);
    assert_eq!(s.end_ptr_mut(), 10);
    assert_eq!(s.end_ptr(), 20);
    assert_eq!(s.len(), 5);
    assert_eq!(s.offset_of(14), Some(2));
}

#[test]
fn reference_section_offsets() {
    let s: TypedReferenceSection<u32> = TypedReferenceSection::new("r", PtrBounds::new(0, 16));
    assert_eq!(s.len(), 4);
    assert_eq!(s.offset_of(12), Some(3));
    assert_eq!(s.offset_of(16), None);
}

#[test]
fn ref_holds_its_value() {
    let r = Ref::new(41u32);
    assert_eq!(*r.get(), 41);
}
