use link_section::aix::{
    find_section_in_image, find_section_in_images, section_name, image_bases, LoadedImage, next_query_buffer_size, xcoff_headers_extent, LdXinfo,
    Filehdr64, Scnhdr64, INITIAL_QUERY_BUFFER_SIZE, MAX_QUERY_BUFFER_SIZE,
};

fn ld_entry(next: u32, textorg: u64) -> Vec<u8> {
    let mut e = Vec::new();
    e.extend_from_slice(&next.to_be_bytes());
    e.extend_from_slice(&0u16.to_be_bytes());
    e.extend_from_slice(&0u16.to_be_bytes());
    e.extend_from_slice(&0u64.to_be_bytes());
    e.extend_from_slice(&textorg.to_be_bytes());
    e.extend_from_slice(&[0u8; 24]);
    assert_eq!(e.len(), 48);
    e
}

fn name8(s: &[u8]) -> [u8; 8] {
    let mut n = [0u8; 8];
    n[..s.len()].copy_from_slice(s);
    n
}

fn scn64(name: &[u8], vaddr: u64, size: u64) -> Vec<u8> {
    let mut h = Vec::new();
    h.extend_from_slice(&name8(name));
    h.extend_from_slice(&vaddr.to_be_bytes()); // s_paddr
    h.extend_from_slice(&vaddr.to_be_bytes());
    h.extend_from_slice(&size.to_be_bytes());
    h.extend_from_slice(&[0u8; 24]);
    h.extend_from_slice(&[0u8; 12]);
    assert_eq!(h.len(), 68);
    h
}

fn image64() -> Vec<u8> {
    let mut img = Vec::new();
    img.extend_from_slice(&0x01F7u16.to_be_bytes());
    img.extend_from_slice(&2u16.to_be_bytes());
    img.extend_from_slice(&0i32.to_be_bytes());
    img.extend_from_slice(&0u64.to_be_bytes());
    img.extend_from_slice(&0i32.to_be_bytes());
    img.extend_from_slice(&8u16.to_be_bytes());
    img.extend_from_slice(&0u16.to_be_bytes());
    img.extend_from_slice(&[0xAA; 8]);
    img.extend_from_slice(&scn64(b".text", 0x100, 0x50));
    img.extend_from_slice(&scn64(b".data", 0x200, 0x30));
    img
}

fn image32(name: [u8; 8], vaddr: i32, size: i32) -> Vec<u8> {
    let mut img = Vec::new();
    img.extend_from_slice(&0x01DFu16.to_be_bytes());
    img.extend_from_slice(&1u16.to_be_bytes());
    img.extend_from_slice(&[0u8; 12]);
    img.extend_from_slice(&0u16.to_be_bytes());
    img.extend_from_slice(&0u16.to_be_bytes());
    img.extend_from_slice(&name);
    img.extend_from_slice(&vaddr.to_be_bytes()); // s_paddr
    img.extend_from_slice(&vaddr.to_be_bytes());
    img.extend_from_slice(&size.to_be_bytes());
    img.extend_from_slice(&[0u8; 20]);
    assert_eq!(img.len(), 60);
    img
}

#[test]
fn ld_xinfo_chain_lists_non_null_images_in_order() {
    let mut buf = Vec::new();
    buf.extend(ld_entry(48, 0x1000_0000));
    buf.extend(ld_entry(48, 0));
    buf.extend(ld_entry(0, 0x2000_0000));
    buf.extend(vec![0u8; 16]);
    assert_eq!(image_bases(&buf), vec![0x1000_0000, 0x2000_0000]);
    let info = LdXinfo::read(&buf, 96);
    assert_eq!(info.ldinfo_next, 0);
    assert_eq!(info.ldinfo_textorg, 0x2000_0000);
}

#[test]
fn chain_stops_at_a_record_outside_the_buffer() {
    let mut buf = Vec::new();
    buf.extend(ld_entry(200, 0x10));
    buf.extend(ld_entry(0, 0x20));
    assert_eq!(image_bases(&buf), vec![0x10]);
    assert_eq!(image_bases(&[0u8; 10]), Vec::<u64>::new());
}

#[test]
fn finds_a_section_in_a_64_bit_image() {
    let img = image64();
    assert_eq!(xcoff_headers_extent(&img[..24]), Some(24 + 8 + 2 * 68));
    assert_eq!(img.len(), 168);
    assert_eq!(find_section_in_image(&img, 0x4000, ".data"), Some((0x4200, 0x30)));
    assert_eq!(find_section_in_image(&img, 0x4000, ".text"), Some((0x4100, 0x50)));
    assert_eq!(find_section_in_image(&img, 0x4000, ".bss"), None);
    assert_eq!(find_section_in_image(&img, 0x4000, ".dat"), None);
    let h = Filehdr64::read(&img);
    assert_eq!((h.f_magic, h.f_nscns, h.f_opthdr), (0x01F7, 2, 8));
    let s = Scnhdr64::read(&img, 32 + 68);
    assert_eq!(&s.s_name, b".data\0\0\0");
    assert_eq!((s.s_vaddr, s.s_size), (0x200, 0x30));
}

#[test]
fn a_32_bit_image_sign_extends_addresses() {
    let img = image32(name8(b"x"), -16, 4);
    assert_eq!(xcoff_headers_extent(&img[..24]), Some(60));
    assert_eq!(find_section_in_image(&img, 0x1000, "x"), Some((0x1000 - 16, 4)));
    let neg = image32(name8(b"y"), 8, -1);
    assert_eq!(find_section_in_image(&neg, 0, "y"), Some((8, usize::MAX)));
}

#[test]
fn a_name_field_without_nul_is_a_full_length_name() {
    let img = image32(*b"abcdefgh", 0x10, 2);
    assert_eq!(find_section_in_image(&img, 0, "abcdefgh"), Some((0x10, 2)));
    assert_eq!(find_section_in_image(&img, 0, ""), None);
    assert_eq!(find_section_in_image(&img, 0, "abcdefg"), None);
}

#[test]
fn an_eight_character_name_in_a_64_bit_image() {
    let mut img = Vec::new();
    img.extend_from_slice(&0x01F7u16.to_be_bytes());
    img.extend_from_slice(&1u16.to_be_bytes());
    img.extend_from_slice(&[0u8; 16]);
    img.extend_from_slice(&0u16.to_be_bytes());
    img.extend_from_slice(&0u16.to_be_bytes());
    img.extend_from_slice(&scn64(b".tdataXY", 0x40, 0x8));
    assert_eq!(xcoff_headers_extent(&img[..24]), Some(24 + 68));
    assert_eq!(find_section_in_image(&img, 0x1000, ".tdataXY"), Some((0x1040, 0x8)));
}

#[test]
fn names_are_compared_as_lossy_utf8() {
    let img = image32(name8(&[0xFF]), 0x20, 1);
    assert_eq!(find_section_in_image(&img, 0, "\u{FFFD}"), Some((0x20, 1)));
    let accented = image32(name8("é".as_bytes()), 0x30, 1);
    assert_eq!(find_section_in_image(&accented, 0, "é"), Some((0x30, 1)));
}

#[test]
fn the_first_image_with_the_section_wins() {
    let unknown = {
        let mut img = image64();
        img[0] = 0;
        img
    };
    let images = vec![
        LoadedImage { base: 0x1000, headers: unknown },
        LoadedImage { base: 0x2000, headers: image32(name8(b".text"), 0x10, 4) },
        LoadedImage { base: 0x3000, headers: image64() },
        LoadedImage { base: 0x4000, headers: image64() },
    ];
    assert_eq!(find_section_in_images(&images, ".data"), Some((0x3200, 0x30)));
    assert_eq!(find_section_in_images(&images, ".text"), Some((0x2010, 4)));
    assert_eq!(find_section_in_images(&images, ".bss"), None);
    assert_eq!(find_section_in_images(&vec![], ".data"), None);
}

#[test]
fn unknown_magic_is_skipped() {
    let mut img = image64();
    img[0] = 0x12;
    assert_eq!(xcoff_headers_extent(&img[..24]), None);
    assert_eq!(find_section_in_image(&img, 0, ".data"), None);
}

#[test]
fn query_buffer_grows_until_the_cap() {
    assert_eq!(next_query_buffer_size(INITIAL_QUERY_BUFFER_SIZE), Some(131072));
    assert_eq!(next_query_buffer_size(MAX_QUERY_BUFFER_SIZE / 2), Some(MAX_QUERY_BUFFER_SIZE));
    assert_eq!(next_query_buffer_size(MAX_QUERY_BUFFER_SIZE), None);
}

#[test]
fn section_names_decode_from_their_fields() {
    assert_eq!(section_name(b".text\0\0\0"), ".text");
    assert_eq!(section_name(b".tdataXY"), ".tdataXY");
    assert_eq!(section_name(&[0xFF, 0, 0, 0, 0, 0, 0, 0]), "\u{FFFD}");
    assert_eq!(section_name(&[0; 8]), "");
}
