//! Finding a named section in the loaded images of an AIX process.
//!
//! The loader describes the loaded images as a chain of `ld_xinfo` records in a
//! buffer that `loadquery(L_GETXINFO)` fills; each record gives the address at
//! which an image's text (its XCOFF file, headers first) is loaded. The XCOFF
//! headers name the image's sections and give their virtual addresses and sizes
//! relative to that base. This module reads those structures from bytes; the
//! caller copies the bytes out of the process (see the crate's app).
//!
//! AIX runs on big-endian POWER, so all multi-byte fields are read big-endian.

use vstd::prelude::*;

verus! {

/// `loadquery` request for the extended loader information.
pub const L_GETXINFO: i32 = 8;

/// Size of the first buffer offered to `loadquery`, in bytes.
pub const INITIAL_QUERY_BUFFER_SIZE: usize = 65536;

/// Largest buffer size from which a failed `loadquery` is retried with a
/// larger buffer.
pub const MAX_QUERY_BUFFER_SIZE: usize = 16777216;

/// Size of an `ld_xinfo` record as this module reads it.
pub const LD_XINFO_SIZE: usize = 48;

/// Size of a 32-bit XCOFF file header.
pub const FILEHDR32_SIZE: usize = 20;

/// Size of a 32-bit XCOFF section header.
pub const SCNHDR32_SIZE: usize = 40;

/// Size of a 64-bit XCOFF file header.
pub const FILEHDR64_SIZE: usize = 24;

/// Size of a 64-bit XCOFF section header.
pub const SCNHDR64_SIZE: usize = 68;

/// How many bytes at an image's base are enough to read either file header.
pub const FILEHDR_READ_SIZE: usize = 24;

/// Magic numbers of 32-bit XCOFF files.
pub const XCOFF32_MAGIC: u16 = 0x01DF;
pub const XCOFF32_MAGIC_ALT: u16 = 0x01EF;

/// Magic number of 64-bit XCOFF files.
pub const XCOFF64_MAGIC: u16 = 0x01F7;

/// Big-endian unsigned value of `n` bytes of `b` from `off`.
pub open spec fn be(b: Seq<u8>, off: int, n: nat) -> nat
    decreases n,
{
    if n == 0 {
        0
    } else {
        be(b, off, (n - 1) as nat) * 256 + b[off + n - 1] as nat
    }
}

pub open spec fn be_u16(b: Seq<u8>, off: int) -> u16 {
    be(b, off, 2) as u16
}

pub open spec fn be_u32(b: Seq<u8>, off: int) -> u32 {
    be(b, off, 4) as u32
}

pub open spec fn be_u64(b: Seq<u8>, off: int) -> u64 {
    be(b, off, 8) as u64
}

pub open spec fn be_i32(b: Seq<u8>, off: int) -> i32 {
    be(b, off, 4) as u32 as i32
}

proof fn lemma_be_bound(b: Seq<u8>, off: int, n: nat)
    ensures
        be(b, off, n) < vstd::arithmetic::power2::pow2(8 * n),
    decreases n,
{
    if n == 0 {
        vstd::arithmetic::power2::lemma2_to64();
    } else {
        lemma_be_bound(b, off, (n - 1) as nat);
        vstd::arithmetic::power2::lemma_pow2_adds(8 * (n - 1) as nat, 8);
        vstd::arithmetic::power2::lemma2_to64();
        assert(b[off + n - 1] < 256);
        let p = vstd::arithmetic::power2::pow2(8 * (n - 1) as nat);
        assert(be(b, off, (n - 1) as nat) * 256 + 255 < p * 256) by (nonlinear_arith)
            requires
                be(b, off, (n - 1) as nat) < p,
        ;
        assert(8 * (n - 1) as nat + 8 == 8 * n);
    }
}

/// Read `n <= 8` bytes big-endian.
fn read_be(b: &[u8], off: usize, n: usize) -> (r: u64)
    requires
        n <= 8,
        off + n <= b@.len(),
    ensures
        r == be(b@, off as int, n as nat),
{
    let mut acc: u64 = 0;
    let mut i: usize = 0;
    while i < n
        invariant
            i <= n <= 8,
            off + n <= b@.len(),
            b@.len() == b.len(),
            acc == be(b@, off as int, i as nat),
        decreases n - i,
    {
        proof {
            lemma_be_bound(b@, off as int, i as nat);
            vstd::arithmetic::power2::lemma_pow2_adds(8 * i as nat, 8);
            vstd::arithmetic::power2::lemma2_to64();
            assert(8 * i as nat + 8 <= 64);
            if 8 * i as nat + 8 < 64 {
                vstd::arithmetic::power2::lemma_pow2_strictly_increases(8 * i as nat + 8, 64);
            }
            let p = vstd::arithmetic::power2::pow2(8 * i as nat);
            assert(acc * 256 + 255 < p * 256) by (nonlinear_arith)
                requires
                    acc < p,
            ;
        }
        acc = acc * 256 + b[off + i] as u64;
        i += 1;
    }
    acc
}

fn read_u16(b: &[u8], off: usize) -> (r: u16)
    requires
        off + 2 <= b@.len(),
    ensures
        r == be_u16(b@, off as int),
{
    proof {
        lemma_be_bound(b@, off as int, 2);
        vstd::arithmetic::power2::lemma2_to64();
    }
    read_be(b, off, 2) as u16
}

fn read_u32(b: &[u8], off: usize) -> (r: u32)
    requires
        off + 4 <= b@.len(),
    ensures
        r == be_u32(b@, off as int),
{
    proof {
        lemma_be_bound(b@, off as int, 4);
        vstd::arithmetic::power2::lemma2_to64();
    }
    read_be(b, off, 4) as u32
}

fn read_i32(b: &[u8], off: usize) -> (r: i32)
    requires
        off + 4 <= b@.len(),
    ensures
        r == be_i32(b@, off as int),
{
    read_u32(b, off) as i32
}

fn read_u64(b: &[u8], off: usize) -> (r: u64)
    requires
        off + 8 <= b@.len(),
    ensures
        r == be_u64(b@, off as int),
{
    read_be(b, off, 8)
}

/// One record of the loader's `ld_xinfo` chain (the fields this module reads;
/// the loader's record carries more after them).
pub struct LdXinfo {
    /// Offset from this record to the next one; 0 for the last record.
    pub ldinfo_next: u32,
    pub ldinfo_flags: u16,
    /// Offset of the file name string.
    pub ldinfo_filename: u16,
    pub _file: u64,
    /// Address at which the image's text (its XCOFF file) is loaded.
    pub ldinfo_textorg: u64,
    pub ldinfo_textsize: u64,
    pub ldinfo_dataorg: u64,
    pub ldinfo_datasize: u64,
}

/// The record at `off` of a `loadquery` buffer.
pub open spec fn ld_xinfo_at(buf: Seq<u8>, off: int) -> LdXinfo {
    LdXinfo {
        ldinfo_next: be_u32(buf, off),
        ldinfo_flags: be_u16(buf, off + 4),
        ldinfo_filename: be_u16(buf, off + 6),
        _file: be_u64(buf, off + 8),
        ldinfo_textorg: be_u64(buf, off + 16),
        ldinfo_textsize: be_u64(buf, off + 24),
        ldinfo_dataorg: be_u64(buf, off + 32),
        ldinfo_datasize: be_u64(buf, off + 40),
    }
}

impl LdXinfo {
    /// Read the record at `off`.
    pub fn read(buf: &[u8], off: usize) -> (r: Self)
        requires
            off + LD_XINFO_SIZE <= buf@.len(),
        ensures
            r == ld_xinfo_at(buf@, off as int),
    {
        proof {
            assert(buf@.len() == buf.len());
        }
        LdXinfo {
            ldinfo_next: read_u32(buf, off),
            ldinfo_flags: read_u16(buf, off + 4),
            ldinfo_filename: read_u16(buf, off + 6),
            _file: read_u64(buf, off + 8),
            ldinfo_textorg: read_u64(buf, off + 16),
            ldinfo_textsize: read_u64(buf, off + 24),
            ldinfo_dataorg: read_u64(buf, off + 32),
            ldinfo_datasize: read_u64(buf, off + 40),
        }
    }
}

/// The non-null image addresses of the `ld_xinfo` chain that starts at `off`,
/// in chain order. A record that does not fit in the buffer ends the chain.
pub open spec fn chain_bases(buf: Seq<u8>, off: int) -> Seq<u64>
    decreases buf.len() - off,
{
    if off < 0 || off + LD_XINFO_SIZE > buf.len() {
        Seq::empty()
    } else {
        let info = ld_xinfo_at(buf, off);
        let here = if info.ldinfo_textorg == 0 {
            Seq::empty()
        } else {
            seq![info.ldinfo_textorg]
        };
        if info.ldinfo_next == 0 || off + info.ldinfo_next + LD_XINFO_SIZE > buf.len() {
            here
        } else {
            here + chain_bases(buf, off + info.ldinfo_next)
        }
    }
}

/// The addresses of the loaded images that a `loadquery(L_GETXINFO)` buffer
/// describes, in the loader's order, skipping records with a null address.
pub fn image_bases(buf: &[u8]) -> (bases: Vec<u64>)
    ensures
        bases@ == chain_bases(buf@, 0),
{
    let mut bases: Vec<u64> = Vec::new();
    let mut off: usize = 0;
    loop
        invariant
            off <= buf@.len(),
            buf@.len() == buf.len(),
            chain_bases(buf@, 0) == bases@ + chain_bases(buf@, off as int),
        decreases buf@.len() - off,
    {
        if buf.len() < LD_XINFO_SIZE || off > buf.len() - LD_XINFO_SIZE {
            assert(chain_bases(buf@, off as int) == Seq::<u64>::empty());
            assert(bases@ + Seq::<u64>::empty() =~= bases@);
            return bases;
        }
        let info = LdXinfo::read(buf, off);
        let ghost before = bases@;
        if info.ldinfo_textorg != 0 {
            bases.push(info.ldinfo_textorg);
        }
        let next = info.ldinfo_next as usize;
        if next == 0 || next > buf.len() - LD_XINFO_SIZE - off {
            assert(bases@ =~= before + chain_bases(buf@, off as int));
            return bases;
        }
        assert(bases@ + chain_bases(buf@, (off + next) as int) =~= before + chain_bases(buf@, off as int));
        off = off + next;
    }
}

/// A 32-bit XCOFF file header.
pub struct Filehdr32 {
    pub f_magic: u16,
    pub f_nscns: u16,
    pub f_timdat: i32,
    pub f_symptr: i32,
    pub f_nsyms: i32,
    pub f_opthdr: u16,
    pub f_flags: u16,
}

/// A 32-bit XCOFF section header.
pub struct Scnhdr32 {
    pub s_name: [u8; 8],
    pub s_paddr: i32,
    pub s_vaddr: i32,
    pub s_size: i32,
    pub s_scnptr: i32,
    pub s_relptr: i32,
    pub s_lnnoptr: i32,
    pub s_nreloc: u16,
    pub s_nlnno: u16,
    pub s_flags: i32,
}

/// A 64-bit XCOFF file header.
pub struct Filehdr64 {
    pub f_magic: u16,
    pub f_nscns: u16,
    pub f_timdat: i32,
    pub f_symptr: u64,
    pub f_nsyms: i32,
    pub f_opthdr: u16,
    pub f_flags: u16,
}

/// A 64-bit XCOFF section header.
pub struct Scnhdr64 {
    pub s_name: [u8; 8],
    pub s_paddr: u64,
    pub s_vaddr: u64,
    pub s_size: u64,
    pub s_scnptr: u64,
    pub s_relptr: u64,
    pub s_lnnoptr: u64,
    pub s_nreloc: u32,
    pub s_nlnno: u32,
    pub s_flags: i32,
}

impl Filehdr32 {
    /// Read the header at the start of `image`.
    pub fn read(image: &[u8]) -> (h: Self)
        requires
            FILEHDR32_SIZE <= image@.len(),
        ensures
            h.f_magic == be_u16(image@, 0),
            h.f_nscns == be_u16(image@, 2),
            h.f_timdat == be_i32(image@, 4),
            h.f_symptr == be_i32(image@, 8),
            h.f_nsyms == be_i32(image@, 12),
            h.f_opthdr == be_u16(image@, 16),
            h.f_flags == be_u16(image@, 18),
    {
        Filehdr32 {
            f_magic: read_u16(image, 0),
            f_nscns: read_u16(image, 2),
            f_timdat: read_i32(image, 4),
            f_symptr: read_i32(image, 8),
            f_nsyms: read_i32(image, 12),
            f_opthdr: read_u16(image, 16),
            f_flags: read_u16(image, 18),
        }
    }
}

impl Filehdr64 {
    /// Read the header at the start of `image`.
    pub fn read(image: &[u8]) -> (h: Self)
        requires
            FILEHDR64_SIZE <= image@.len(),
        ensures
            h.f_magic == be_u16(image@, 0),
            h.f_nscns == be_u16(image@, 2),
            h.f_timdat == be_i32(image@, 4),
            h.f_symptr == be_u64(image@, 8),
            h.f_nsyms == be_i32(image@, 16),
            h.f_opthdr == be_u16(image@, 20),
            h.f_flags == be_u16(image@, 22),
    {
        Filehdr64 {
            f_magic: read_u16(image, 0),
            f_nscns: read_u16(image, 2),
            f_timdat: read_i32(image, 4),
            f_symptr: read_u64(image, 8),
            f_nsyms: read_i32(image, 16),
            f_opthdr: read_u16(image, 20),
            f_flags: read_u16(image, 22),
        }
    }
}

fn read_name(image: &[u8], off: usize) -> (n: [u8; 8])
    requires
        off + 8 <= image@.len(),
    ensures
        n@ == image@.subrange(off as int, off + 8),
{
    let n = [
        image[off],
        image[off + 1],
        image[off + 2],
        image[off + 3],
        image[off + 4],
        image[off + 5],
        image[off + 6],
        image[off + 7],
    ];
    assert(n@ =~= image@.subrange(off as int, off + 8));
    n
}

impl Scnhdr32 {
    /// Read the section header at `off`.
    pub fn read(image: &[u8], off: usize) -> (h: Self)
        requires
            off + SCNHDR32_SIZE <= image@.len(),
        ensures
            h.s_name@ == image@.subrange(off as int, off + 8),
            h.s_paddr == be_i32(image@, off + 8),
            h.s_vaddr == be_i32(image@, off + 12),
            h.s_size == be_i32(image@, off + 16),
            h.s_scnptr == be_i32(image@, off + 20),
            h.s_relptr == be_i32(image@, off + 24),
            h.s_lnnoptr == be_i32(image@, off + 28),
            h.s_nreloc == be_u16(image@, off + 32),
            h.s_nlnno == be_u16(image@, off + 34),
            h.s_flags == be_i32(image@, off + 36),
    {
        proof {
            assert(image@.len() == image.len());
        }
        Scnhdr32 {
            s_name: read_name(image, off),
            s_paddr: read_i32(image, off + 8),
            s_vaddr: read_i32(image, off + 12),
            s_size: read_i32(image, off + 16),
            s_scnptr: read_i32(image, off + 20),
            s_relptr: read_i32(image, off + 24),
            s_lnnoptr: read_i32(image, off + 28),
            s_nreloc: read_u16(image, off + 32),
            s_nlnno: read_u16(image, off + 34),
            s_flags: read_i32(image, off + 36),
        }
    }
}

impl Scnhdr64 {
    /// Read the section header at `off`.
    pub fn read(image: &[u8], off: usize) -> (h: Self)
        requires
            off + SCNHDR64_SIZE <= image@.len(),
        ensures
            h.s_name@ == image@.subrange(off as int, off + 8),
            h.s_paddr == be_u64(image@, off + 8),
            h.s_vaddr == be_u64(image@, off + 16),
            h.s_size == be_u64(image@, off + 24),
            h.s_scnptr == be_u64(image@, off + 32),
            h.s_relptr == be_u64(image@, off + 40),
            h.s_lnnoptr == be_u64(image@, off + 48),
            h.s_nreloc == be_u32(image@, off + 56),
            h.s_nlnno == be_u32(image@, off + 60),
            h.s_flags == be_i32(image@, off + 64),
    {
        proof {
            assert(image@.len() == image.len());
        }
        Scnhdr64 {
            s_name: read_name(image, off),
            s_paddr: read_u64(image, off + 8),
            s_vaddr: read_u64(image, off + 16),
            s_size: read_u64(image, off + 24),
            s_scnptr: read_u64(image, off + 32),
            s_relptr: read_u64(image, off + 40),
            s_lnnoptr: read_u64(image, off + 48),
            s_nreloc: read_u32(image, off + 56),
            s_nlnno: read_u32(image, off + 60),
            s_flags: read_i32(image, off + 64),
        }
    }
}

/// The two XCOFF flavours.
#[derive(PartialEq, Eq, Structural, Clone, Copy)]
pub enum XcoffKind {
    Xcoff32,
    Xcoff64,
}

/// The flavour of the XCOFF file at the start of `image`, by its magic
/// number; `None` for an unknown magic.
pub open spec fn xcoff_kind(image: Seq<u8>) -> Option<XcoffKind> {
    let magic = be_u16(image, 0);
    if magic == XCOFF32_MAGIC || magic == XCOFF32_MAGIC_ALT {
        Some(XcoffKind::Xcoff32)
    } else if magic == XCOFF64_MAGIC {
        Some(XcoffKind::Xcoff64)
    } else {
        None
    }
}

pub open spec fn filehdr_size(kind: XcoffKind) -> int {
    match kind {
        XcoffKind::Xcoff32 => FILEHDR32_SIZE as int,
        XcoffKind::Xcoff64 => FILEHDR64_SIZE as int,
    }
}

pub open spec fn scnhdr_size(kind: XcoffKind) -> int {
    match kind {
        XcoffKind::Xcoff32 => SCNHDR32_SIZE as int,
        XcoffKind::Xcoff64 => SCNHDR64_SIZE as int,
    }
}

/// The size of the auxiliary header that sits between the file header and
/// the section table.
pub open spec fn opthdr_size(image: Seq<u8>, kind: XcoffKind) -> int {
    match kind {
        XcoffKind::Xcoff32 => be_u16(image, 16) as int,
        XcoffKind::Xcoff64 => be_u16(image, 20) as int,
    }
}

pub open spec fn section_count(image: Seq<u8>) -> int {
    be_u16(image, 2) as int
}

/// Offset of section header `k`.
pub open spec fn section_header_offset(image: Seq<u8>, kind: XcoffKind, k: int) -> int {
    filehdr_size(kind) + opthdr_size(image, kind) + k * scnhdr_size(kind)
}

/// How many bytes from the image's base the headers span: file header,
/// auxiliary header and section table.
pub open spec fn headers_extent(image: Seq<u8>, kind: XcoffKind) -> int {
    section_header_offset(image, kind, section_count(image))
}

/// The bytes of a C string held in a fixed-size field: those before the
/// first NUL, or `None` where the field holds no NUL.
pub open spec fn c_str_until_nul(field: Seq<u8>) -> Option<Seq<u8>>
    decreases field.len(),
{
    if field.len() == 0 {
        None
    } else if field[0] == 0 {
        Some(Seq::empty())
    } else {
        match c_str_until_nul(field.drop_first()) {
            Some(rest) => Some(seq![field[0]] + rest),
            None => None,
        }
    }
}

/// The bytes of a section's name: those before the first NUL of the field,
/// or all of the field where it holds no NUL (a name of the full field size).
pub open spec fn field_name_bytes(field: Seq<u8>) -> Seq<u8> {
    match c_str_until_nul(field) {
        Some(s) => s,
        None => field,
    }
}

/// The text of `bytes` decoded as UTF-8, each invalid sequence replaced by
/// U+FFFD (as `String::from_utf8_lossy` decodes it).
pub uninterp spec fn utf8_lossy(bytes: Seq<u8>) -> Seq<char>;

/// `String::from_utf8_lossy`: the UTF-8 text of `bytes`, invalid sequences
/// replaced by U+FFFD; bytes that are valid UTF-8 decode to their own text.
#[verifier::external_body]
fn from_utf8_lossy(bytes: &[u8]) -> (s: String)
    ensures
        s@ == utf8_lossy(bytes@),
        vstd::utf8::valid_utf8(bytes@) ==> s@ == vstd::utf8::decode_utf8(bytes@),
{
    String::from_utf8_lossy(bytes).into_owned()
}

/// Whether a section's name field names `name`: the field's name bytes,
/// decoded as UTF-8 with invalid sequences replaced, are `name`.
pub open spec fn name_field_matches(field: Seq<u8>, name: Seq<char>) -> bool {
    utf8_lossy(field_name_bytes(field)) == name
}

/// Name field, virtual address and size of section header `k`, with the
/// address and size converted with `as usize` (a 32-bit field sign-extends).
pub open spec fn section_name_field(image: Seq<u8>, kind: XcoffKind, k: int) -> Seq<u8> {
    let off = section_header_offset(image, kind, k);
    image.subrange(off, off + 8)
}

pub open spec fn section_vaddr(image: Seq<u8>, kind: XcoffKind, k: int) -> usize {
    let off = section_header_offset(image, kind, k);
    match kind {
        XcoffKind::Xcoff32 => be_i32(image, off + 12) as usize,
        XcoffKind::Xcoff64 => be_u64(image, off + 16) as usize,
    }
}

pub open spec fn section_size(image: Seq<u8>, kind: XcoffKind, k: int) -> usize {
    let off = section_header_offset(image, kind, k);
    match kind {
        XcoffKind::Xcoff32 => be_i32(image, off + 16) as usize,
        XcoffKind::Xcoff64 => be_u64(image, off + 24) as usize,
    }
}

/// The first section at index `k` or later whose name is `name`: its
/// address (the image's base plus the section's virtual address, wrapping as
/// pointer arithmetic on the address does) and its size.
pub open spec fn first_section_from(
    image: Seq<u8>,
    kind: XcoffKind,
    base: usize,
    name: Seq<char>,
    k: int,
) -> Option<(usize, usize)>
    decreases section_count(image) - k,
{
    if k < 0 || k >= section_count(image) {
        None
    } else if name_field_matches(section_name_field(image, kind, k), name) {
        Some(
            (
                vstd::wrapping::usize_specs::wrapping_add(base, section_vaddr(image, kind, k)),
                section_size(image, kind, k),
            ),
        )
    } else {
        first_section_from(image, kind, base, name, k + 1)
    }
}

/// The section named `name` in the image loaded at `base` whose bytes start
/// with `image` (the first such section header): its address and size, `None` where the image is no XCOFF
/// file this module knows or has no such section.
pub open spec fn section_in_image(image: Seq<u8>, base: usize, name: Seq<char>) -> Option<(usize, usize)> {
    match xcoff_kind(image) {
        Some(kind) => first_section_from(image, kind, base, name, 0),
        None => None,
    }
}

/// How many bytes at an image's base the XCOFF headers span, read from the
/// first `FILEHDR_READ_SIZE` bytes there; `None` for an unknown magic (the
/// image is then skipped).
pub fn xcoff_headers_extent(header: &[u8]) -> (r: Option<usize>)
    requires
        FILEHDR_READ_SIZE <= header@.len(),
    ensures
        r == (match xcoff_kind(header@) {
            Some(kind) => Some(headers_extent(header@, kind) as usize),
            None => None,
        }),
        r matches Some(n) ==> n == headers_extent(header@, xcoff_kind(header@)->0),
{
    let magic = read_u16(header, 0);
    if magic == XCOFF32_MAGIC || magic == XCOFF32_MAGIC_ALT {
        let h = Filehdr32::read(header);
        Some(FILEHDR32_SIZE + h.f_opthdr as usize + h.f_nscns as usize * SCNHDR32_SIZE)
    } else if magic == XCOFF64_MAGIC {
        let h = Filehdr64::read(header);
        Some(FILEHDR64_SIZE + h.f_opthdr as usize + h.f_nscns as usize * SCNHDR64_SIZE)
    } else {
        None
    }
}

/// Whether the name field `field` names `name` (see [`name_field_matches`]).
fn name_matches(field: &[u8; 8], name: &str) -> (r: bool)
    ensures
        r == name_field_matches(field@, name@),
{
    let text = section_name(field);
    text == String::from_str(name)
}

/// The name a section header's name field holds: the bytes before the first
/// NUL (all eight where there is none), decoded as UTF-8 with each invalid
/// sequence replaced by U+FFFD. A name that is valid UTF-8, such as any ASCII
/// name, is its own text.
pub fn section_name(field: &[u8; 8]) -> (s: String)
    ensures
        s@ == utf8_lossy(field_name_bytes(field@)),
        vstd::utf8::valid_utf8(field_name_bytes(field@)) ==> s@ == vstd::utf8::decode_utf8(
            field_name_bytes(field@),
        ),
{
    let mut i: usize = 0;
    proof {
        assert(field@.subrange(0, 8) =~= field@);
        match c_str_until_nul(field@) {
            Some(rest) => {
                assert(field@.subrange(0, 0) + rest =~= rest);
            },
            None => {},
        }
    }
    while i < 8 && field[i] != 0
        invariant
            i <= 8,
            field@.len() == 8,
            forall|j: int| 0 <= j < i ==> field@[j] != 0,
            c_str_until_nul(field@) == lift_prefix(field@, i as int),
        decreases 8 - i,
    {
        proof {
            lemma_c_str_step(field@, i as int);
        }
        i += 1;
    }
    proof {
        if i < 8 {
            lemma_c_str_at_nul(field@, i as int);
        } else {
            lemma_c_str_none(field@);
            assert(field@.subrange(0, 8) =~= field@);
        }
    }
    let mut bytes: Vec<u8> = Vec::new();
    let mut j: usize = 0;
    while j < i
        invariant
            j <= i <= 8,
            field@.len() == 8,
            bytes@ == field@.subrange(0, j as int),
        decreases i - j,
    {
        bytes.push(field[j]);
        j += 1;
        assert(bytes@ =~= field@.subrange(0, j as int));
    }
    assert(bytes@ == field_name_bytes(field@));
    from_utf8_lossy(bytes.as_slice())
}

/// The C string of `field` given that its first `i` bytes are not NUL: those
/// bytes followed by the C string of the rest.
pub open spec fn lift_prefix(field: Seq<u8>, i: int) -> Option<Seq<u8>> {
    match c_str_until_nul(field.subrange(i, field.len() as int)) {
        Some(rest) => Some(field.subrange(0, i) + rest),
        None => None,
    }
}

proof fn lemma_c_str_step(field: Seq<u8>, i: int)
    requires
        0 <= i < field.len(),
        field[i] != 0,
        c_str_until_nul(field) == lift_prefix(field, i),
    ensures
        c_str_until_nul(field) == lift_prefix(field, i + 1),
{
    let tail = field.subrange(i, field.len() as int);
    assert(tail.drop_first() =~= field.subrange(i + 1, field.len() as int));
    assert(field.subrange(0, i) + seq![field[i]] =~= field.subrange(0, i + 1));
    match c_str_until_nul(tail.drop_first()) {
        Some(rest) => {
            assert(field.subrange(0, i) + (seq![field[i]] + rest) =~= field.subrange(0, i + 1) + rest);
        },
        None => {},
    }
}

proof fn lemma_c_str_at_nul(field: Seq<u8>, i: int)
    requires
        0 <= i < field.len(),
        field[i] == 0,
        c_str_until_nul(field) == lift_prefix(field, i),
    ensures
        c_str_until_nul(field) == Some(field.subrange(0, i)),
{
    let tail = field.subrange(i, field.len() as int);
    assert(tail[0] == 0);
    assert(field.subrange(0, i) + Seq::<u8>::empty() =~= field.subrange(0, i));
}

proof fn lemma_c_str_none(field: Seq<u8>)
    requires
        c_str_until_nul(field) == lift_prefix(field, field.len() as int),
    ensures
        c_str_until_nul(field) is None,
{
    assert(field.subrange(field.len() as int, field.len() as int) =~= Seq::<u8>::empty());
}

/// The section named `name` in the image loaded at `base`, given the image's
/// headers (`image` holds at least the bytes that [`xcoff_headers_extent`]
/// names): its address and size.
pub fn find_section_in_image(image: &[u8], base: usize, name: &str) -> (r: Option<(usize, usize)>)
    requires
        FILEHDR_READ_SIZE <= image@.len(),
        xcoff_kind(image@) matches Some(kind) ==> headers_extent(image@, kind) <= image@.len(),
    ensures
        r == section_in_image(image@, base, name@),
{
    proof {
        assert(image@.len() == image.len());
    }
    let magic = read_u16(image, 0);
    let kind = if magic == XCOFF32_MAGIC || magic == XCOFF32_MAGIC_ALT {
        XcoffKind::Xcoff32
    } else if magic == XCOFF64_MAGIC {
        XcoffKind::Xcoff64
    } else {
        return None;
    };
    let count = read_u16(image, 2) as usize;
    let (table, entry_size) = match kind {
        XcoffKind::Xcoff32 => (FILEHDR32_SIZE + read_u16(image, 16) as usize, SCNHDR32_SIZE),
        XcoffKind::Xcoff64 => (FILEHDR64_SIZE + read_u16(image, 20) as usize, SCNHDR64_SIZE),
    };
    let mut k: usize = 0;
    while k < count
        invariant
            xcoff_kind(image@) == Some(kind),
            count == section_count(image@),
            table == filehdr_size(kind) + opthdr_size(image@, kind),
            entry_size == scnhdr_size(kind),
            headers_extent(image@, kind) <= image@.len(),
            image@.len() == image.len(),
            k <= count,
            section_in_image(image@, base, name@) == first_section_from(image@, kind, base, name@, k as int),
        decreases count - k,
    {
        proof {
            assert(k * entry_size + entry_size <= count * entry_size) by (nonlinear_arith)
                requires
                    k < count,
                    0 <= entry_size,
            ;
        }
        let off = table + k * entry_size;
        let (field, vaddr, size) = match kind {
            XcoffKind::Xcoff32 => {
                let h = Scnhdr32::read(image, off);
                (h.s_name, h.s_vaddr as usize, h.s_size as usize)
            },
            XcoffKind::Xcoff64 => {
                let h = Scnhdr64::read(image, off);
                (h.s_name, h.s_vaddr as usize, h.s_size as usize)
            },
        };
        if name_matches(&field, name) {
            return Some((base.wrapping_add(vaddr), size));
        }
        k += 1;
    }
    None
}

/// An image loaded in the process: its address, and the bytes at that
/// address that hold its XCOFF headers.
pub struct LoadedImage {
    pub base: usize,
    pub headers: Vec<u8>,
}

/// The bytes read at an image's base cover what a lookup reads: at least
/// `FILEHDR_READ_SIZE` bytes, and all of the headers of a known flavour.
pub open spec fn headers_cover(headers: Seq<u8>) -> bool {
    &&& FILEHDR_READ_SIZE <= headers.len()
    &&& xcoff_kind(headers) matches Some(kind) ==> headers_extent(headers, kind) <= headers.len()
}

/// The section named `name` in the first of `images`, from index `k` on,
/// that has one: its address and size.
pub open spec fn section_in_images(images: Seq<LoadedImage>, name: Seq<char>, k: int) -> Option<(usize, usize)>
    decreases images.len() - k,
{
    if k < 0 || k >= images.len() {
        None
    } else {
        match section_in_image(images[k].headers@, images[k].base, name) {
            Some(found) => Some(found),
            None => section_in_images(images, name, k + 1),
        }
    }
}

/// The section named `name` in the loaded images, taken in the given order
/// (the loader's order, as [`image_bases`] lists the images): its address
/// and size in the first image that has it; `None` where none has it.
/// Images of an unknown flavour are skipped.
pub fn find_section_in_images(images: &Vec<LoadedImage>, name: &str) -> (r: Option<(usize, usize)>)
    requires
        forall|i: int| 0 <= i < images@.len() ==> headers_cover(#[trigger] images@[i].headers@),
    ensures
        r == section_in_images(images@, name@, 0),
{
    let mut k: usize = 0;
    while k < images.len()
        invariant
            k <= images@.len(),
            forall|i: int| 0 <= i < images@.len() ==> headers_cover(#[trigger] images@[i].headers@),
            section_in_images(images@, name@, 0) == section_in_images(images@, name@, k as int),
        decreases images@.len() - k,
    {
        let image = &images[k];
        assert(headers_cover(images@[k as int].headers@));
        let found = find_section_in_image(image.headers.as_slice(), image.base, name);
        if found.is_some() {
            return found;
        }
        k += 1;
    }
    None
}

/// Where section header `k` of an XCOFF file starts, by the file format: the
/// file header (20 bytes in a 32-bit file, 24 in a 64-bit one), then the
/// auxiliary header, whose size is the file header's `f_opthdr` field (the
/// big-endian `u16` at offset 16, resp. 20), then `k` section headers of 40,
/// resp. 68, bytes each.
pub open spec fn xcoff_section_header_start(image: Seq<u8>, kind: XcoffKind, k: int) -> int {
    match kind {
        XcoffKind::Xcoff32 => 20 + be_u16(image, 16) as int + 40 * k,
        XcoffKind::Xcoff64 => 24 + be_u16(image, 20) as int + 68 * k,
    }
}

/// Whether section header `k` of `image` is named `name`: its name field is
/// the 8 bytes at the header's start.
pub open spec fn header_k_named(image: Seq<u8>, kind: XcoffKind, k: int, name: Seq<char>) -> bool {
    let o = xcoff_section_header_start(image, kind, k);
    name_field_matches(image.subrange(o, o + 8), name)
}

/// The headers span the file header, the auxiliary header of `f_opthdr`
/// bytes and `f_nscns` section headers (the `u16` at offset 2): so the
/// bytes to read for a lookup reach past the auxiliary header.
pub proof fn law_headers_extent_by_layout(image: Seq<u8>)
    ensures
        headers_extent(image, XcoffKind::Xcoff32) == 20 + be_u16(image, 16) as int + 40
            * be_u16(image, 2) as int,
        headers_extent(image, XcoffKind::Xcoff64) == 24 + be_u16(image, 20) as int + 68
            * be_u16(image, 2) as int,
{
    vstd::arithmetic::mul::lemma_mul_is_commutative(be_u16(image, 2) as int, 40);
    vstd::arithmetic::mul::lemma_mul_is_commutative(be_u16(image, 2) as int, 68);
}

/// A lookup in one image reads the section table where the file format puts
/// it (after the auxiliary header, see [`xcoff_section_header_start`]): it
/// finds the section named `name` at the first of the `f_nscns` section
/// headers with that name, giving the image's base plus the header's virtual
/// address (the `s_vaddr` field: a sign-extended `i32` at offset 12 of a
/// 32-bit header, a `u64` at offset 16 of a 64-bit one) and its size (the
/// `s_size` field that follows); it finds nothing where no header has the
/// name or the flavour is unknown.
pub proof fn law_lookup_reads_the_section_table(image: Seq<u8>, base: usize, name: Seq<char>)
    ensures
        match section_in_image(image, base, name) {
            Some((addr, size)) => xcoff_kind(image) matches Some(kind) && exists|k: int|
                {
                    let o = xcoff_section_header_start(image, kind, k);
                    &&& 0 <= k < be_u16(image, 2)
                    &&& #[trigger] header_k_named(image, kind, k, name)
                    &&& forall|j: int| 0 <= j < k ==> !header_k_named(image, kind, j, name)
                    &&& addr == vstd::wrapping::usize_specs::wrapping_add(
                        base,
                        match kind {
                            XcoffKind::Xcoff32 => be_i32(image, o + 12) as usize,
                            XcoffKind::Xcoff64 => be_u64(image, o + 16) as usize,
                        },
                    )
                    &&& size == match kind {
                        XcoffKind::Xcoff32 => be_i32(image, o + 16) as usize,
                        XcoffKind::Xcoff64 => be_u64(image, o + 24) as usize,
                    }
                },
            None => xcoff_kind(image) matches Some(kind) ==> forall|k: int|
                0 <= k < be_u16(image, 2) ==> !header_k_named(image, kind, k, name),
        },
{
    if let Some(kind) = xcoff_kind(image) {
        assert forall|k: int| #[trigger] section_header_offset(image, kind, k)
            == xcoff_section_header_start(image, kind, k) by {
            vstd::arithmetic::mul::lemma_mul_is_commutative(k, 40);
            vstd::arithmetic::mul::lemma_mul_is_commutative(k, 68);
        }
        lemma_first_section_from(image, kind, base, name, 0);
    }
}

/// What `first_section_from` finds from index `k0` on, by the layout.
proof fn lemma_first_section_from(image: Seq<u8>, kind: XcoffKind, base: usize, name: Seq<char>, k0: int)
    requires
        0 <= k0,
        forall|k: int| #[trigger] section_header_offset(image, kind, k)
            == xcoff_section_header_start(image, kind, k),
    ensures
        match first_section_from(image, kind, base, name, k0) {
            Some((addr, size)) => exists|k: int|
                {
                    let o = xcoff_section_header_start(image, kind, k);
                    &&& k0 <= k < be_u16(image, 2)
                    &&& #[trigger] header_k_named(image, kind, k, name)
                    &&& forall|j: int| k0 <= j < k ==> !header_k_named(image, kind, j, name)
                    &&& addr == vstd::wrapping::usize_specs::wrapping_add(
                        base,
                        match kind {
                            XcoffKind::Xcoff32 => be_i32(image, o + 12) as usize,
                            XcoffKind::Xcoff64 => be_u64(image, o + 16) as usize,
                        },
                    )
                    &&& size == match kind {
                        XcoffKind::Xcoff32 => be_i32(image, o + 16) as usize,
                        XcoffKind::Xcoff64 => be_u64(image, o + 24) as usize,
                    }
                },
            None => forall|k: int| k0 <= k < be_u16(image, 2) ==> !header_k_named(image, kind, k, name),
        },
    decreases section_count(image) - k0,
{
    if k0 < section_count(image) {
        assert(section_header_offset(image, kind, k0) == xcoff_section_header_start(image, kind, k0));
        if name_field_matches(section_name_field(image, kind, k0), name) {
            assert(header_k_named(image, kind, k0, name));
        } else {
            assert(!header_k_named(image, kind, k0, name));
            lemma_first_section_from(image, kind, base, name, k0 + 1);
            match first_section_from(image, kind, base, name, k0 + 1) {
                Some((addr, size)) => {
                    let k = choose|k: int|
                        {
                            let o = xcoff_section_header_start(image, kind, k);
                            &&& k0 + 1 <= k < be_u16(image, 2)
                            &&& #[trigger] header_k_named(image, kind, k, name)
                            &&& forall|j: int| k0 + 1 <= j < k ==> !header_k_named(image, kind, j, name)
                            &&& addr == vstd::wrapping::usize_specs::wrapping_add(
                                base,
                                match kind {
                                    XcoffKind::Xcoff32 => be_i32(image, o + 12) as usize,
                                    XcoffKind::Xcoff64 => be_u64(image, o + 16) as usize,
                                },
                            )
                            &&& size == match kind {
                                XcoffKind::Xcoff32 => be_i32(image, o + 16) as usize,
                                XcoffKind::Xcoff64 => be_u64(image, o + 24) as usize,
                            }
                        };
                    assert(header_k_named(image, kind, k, name));
                },
                None => {},
            }
        }
    }
}

/// The `ld_xinfo` chain is followed by each record's `ldinfo_next` field (the
/// big-endian `u32` at the record's start), an offset from that record, not
/// by the size of the fields read: the images listed from the record at
/// `off` are its text origin (the `u64` at offset 16, where non-null),
/// followed by those listed from `off + ldinfo_next`, while that offset is
/// non-zero and a record fits there.
pub proof fn law_chain_follows_next_offsets(buf: Seq<u8>, off: int)
    requires
        0 <= off,
        off + 48 <= buf.len(),
    ensures
        ({
            let next = be_u32(buf, off) as int;
            let org = be_u64(buf, off + 16);
            let here = if org == 0 { Seq::<u64>::empty() } else { seq![org] };
            chain_bases(buf, off) == if next == 0 || off + next + 48 > buf.len() {
                here
            } else {
                here + chain_bases(buf, off + next)
            }
        }),
{
}

/// The next buffer size to offer `loadquery` after it failed with a buffer of
/// `size` bytes: twice the size while the size is under the cap, `None` (give
/// up) from the cap on.
pub fn next_query_buffer_size(size: usize) -> (r: Option<usize>)
    ensures
        size < MAX_QUERY_BUFFER_SIZE ==> r == Some((2 * size) as usize),
        size >= MAX_QUERY_BUFFER_SIZE ==> r is None,
{
    if size < MAX_QUERY_BUFFER_SIZE {
        Some(size * 2)
    } else {
        None
    }
}

} // verus!
