//! Loading the init program: the program headers of its ELF image and,
//! for each loadable segment, the plan the caller carries out (map the
//! pages writable, zero the segment, copy its file bytes, then drop the
//! write permission of read-only segments).
use vstd::prelude::*;
use xmas_elf::ElfFile;
use xmas_elf::program::Type;
use crate::paging::{PageRange, inclusive_pages, page_range_inclusive, virt_valid, sign_extend, virt_addr, PRESENT, WRITABLE, USER_ACCESSIBLE, NO_EXECUTE, LOWER_HALF_END, UPPER_HALF_START, SIGN_EXTENDABLE_END};

verus! {

/// The type of a program header.
#[derive(Clone, Copy, Debug, PartialEq, Eq, Structural)]
pub enum SegmentKind {
    /// A loadable segment.
    Load,
    /// A valid header of another type.
    Other,
    /// A type value the ELF format does not define.
    Invalid,
}

/// The fields of a program header that loading reads.
#[derive(Clone, Copy, Debug)]
pub struct ProgramSegment {
    pub kind: SegmentKind,
    pub virtual_addr: u64,
    pub mem_size: u64,
    pub file_size: u64,
    pub offset: u64,
    pub writable: bool,
}

/// An ELF file's entry point and program headers, in file order.
pub struct ElfImage {
    pub entry: u64,
    pub segments: Vec<ProgramSegment>,
}

/// Reads a little-endian 16-bit field.
pub open spec fn le_u16(s: Seq<u8>, at: int) -> int {
    s[at] + 256 * s[at + 1]
}

/// Reads a little-endian 32-bit field.
pub open spec fn le_u32(s: Seq<u8>, at: int) -> int {
    le_u16(s, at) + 65536 * le_u16(s, at + 2)
}

/// Reads a little-endian 64-bit field.
pub open spec fn le_u64(s: Seq<u8>, at: int) -> int {
    le_u32(s, at) + 0x1_0000_0000 * le_u32(s, at + 4)
}

/// A program-header table (at `offset`, `count` entries of `entry_size`
/// bytes) that the parser would read lies inside the file, each entry is
/// large enough, and every entry read starts at a multiple of `align` from
/// the start of the file (the entry size matters for that only when a
/// second entry is read).
pub open spec fn table_fits(offset: int, entry_size: int, count: int, min_size: int, align: int, len: int) -> bool {
    (count > 0 && offset > 0 && entry_size > 0) ==> {
        &&& offset + count * entry_size <= len
        &&& entry_size >= min_size
        &&& offset % align == 0
        &&& (count > 1 ==> entry_size % align == 0)
    }
}

/// The program-header table of a 32-bit or 64-bit ELF file lies inside the
/// file and is aligned as the parser reads it.
pub open spec fn elf_tables_fit(s: Seq<u8>) -> bool {
    &&& (s.len() >= 64 && s[4] == 2) ==> table_fits(le_u64(s, 32), le_u16(s, 54), le_u16(s, 56), 56, 8, s.len() as int)
    &&& (s.len() >= 52 && s[4] == 1) ==> table_fits(le_u32(s, 28), le_u16(s, 42), le_u16(s, 44), 32, 4, s.len() as int)
}

/// Reads the little-endian 16-bit field at `at`.
fn read_u16(data: &[u8], at: usize) -> (r: u64)
    requires
        at + 2 <= data.len(),
    ensures
        r == le_u16(data@, at as int),
{
    data[at] as u64 + 256 * data[at + 1] as u64
}

/// Reads the little-endian 32-bit field at `at`.
fn read_u32(data: &[u8], at: usize) -> (r: u64)
    requires
        at + 4 <= data.len(),
    ensures
        r == le_u32(data@, at as int),
        r < 0x1_0000_0000,
{
    let lo = read_u16(data, at);
    let hi = read_u16(data, at + 2);
    lo + 65536 * hi
}

/// Reads the little-endian 64-bit field at `at`.
fn read_u64(data: &[u8], at: usize) -> (r: u64)
    requires
        at + 8 <= data.len(),
    ensures
        r == le_u64(data@, at as int),
{
    let lo = read_u32(data, at);
    let hi = read_u32(data, at + 4);
    assert(lo + 0x1_0000_0000 * hi <= u64::MAX) by (nonlinear_arith)
        requires
            lo < 0x1_0000_0000,
            hi < 0x1_0000_0000;
    lo + 0x1_0000_0000 * hi
}

/// Whether a program-header table lies inside a file of `len` bytes and is
/// laid out as the parser reads it.
fn table_fits_exec(offset: u64, entry_size: u64, count: u64, min_size: u64, align: u64, len: u64) -> (r: bool)
    requires
        entry_size < 0x1_0000,
        count < 0x1_0000,
        align > 0,
    ensures
        r == table_fits(offset as int, entry_size as int, count as int, min_size as int, align as int, len as int),
{
    if count > 0 && offset > 0 && entry_size > 0 {
        assert(count * entry_size < 0x1_0000_0000) by (nonlinear_arith)
            requires
                count < 0x1_0000,
                entry_size < 0x1_0000;
        let table: u64 = count * entry_size;
        offset <= len && table <= len - offset && entry_size >= min_size && offset % align == 0
            && (count <= 1 || entry_size % align == 0)
    } else {
        true
    }
}

/// Whether the program-header tables of an ELF file lie inside it and are
/// laid out as the parser reads them.
pub fn headers_in_bounds(data: &[u8]) -> (r: bool)
    ensures
        r == elf_tables_fit(data@),
{
    let len: u64 = data.len() as u64;
    if data.len() >= 64 && data[4] == 2 {
        let ok = table_fits_exec(read_u64(data, 32), read_u16(data, 54), read_u16(data, 56), 56, 8, len);
        if !ok {
            return false;
        }
    }
    if data.len() >= 52 && data[4] == 1 {
        let ok = table_fits_exec(read_u32(data, 28), read_u16(data, 42), read_u16(data, 44), 32, 4, len);
        if !ok {
            return false;
        }
    }
    true
}

/// The entry point and program headers that `xmas_elf` reads from an ELF
/// file, or `None` where it refuses the file.
pub uninterp spec fn elf_program(data: Seq<u8>) -> Option<(u64, Seq<ProgramSegment>)>;

/// The entry point and headers of a parsed image.
pub open spec fn image_view(img: Option<ElfImage>) -> Option<(u64, Seq<ProgramSegment>)> {
    match img {
        Some(i) => Some((i.entry, i.segments@)),
        None => None,
    }
}

/// `xmas_elf::ElfFile::new` followed by `ElfFile::program_iter`: the
/// file's entry point and each program header's type, addresses, sizes and
/// write flag, in file order. The parser reads its header structures in
/// place and asserts that they are aligned, so the bytes are first copied
/// to an 8-byte aligned place; with the tables inside the file and aligned
/// relative to its start, no input then makes the parser panic.
#[verifier::external_body]
fn parse_elf(data: &[u8]) -> (r: Option<ElfImage>)
    requires
        elf_tables_fit(data@),
    ensures
        image_view(r) == elf_program(data@),
{
    let mut buf = vec![0u8; data.len() + 8];
    let pad = (8 - buf.as_ptr() as usize % 8) % 8;
    let bytes = &mut buf[pad..pad + data.len()];
    bytes.copy_from_slice(data);
    let elf = ElfFile::new(bytes).ok()?;
    let segments = elf.program_iter().map(|h| ProgramSegment {
        kind: match h.get_type() { Ok(Type::Load) => SegmentKind::Load, Err(_) => SegmentKind::Invalid, _ => SegmentKind::Other },
        virtual_addr: h.virtual_addr(), mem_size: h.mem_size(), file_size: h.file_size(), offset: h.offset(), writable: h.flags().is_write(),
    }).collect();
    Some(ElfImage { entry: elf.header.pt2.entry_point(), segments })
}

/// What the caller does for one loadable segment: map `pages` with
/// `map_flags` (writable, so the bytes can be copied), zero `zero_len`
/// bytes at `dest`, copy `copy_len` bytes from file offset `copy_offset` to
/// `dest`, and finally set `final_flags` on every page.
#[derive(Clone, Copy, Debug)]
pub struct SegmentPlan {
    pub pages: PageRange,
    pub map_flags: u64,
    pub dest: u64,
    pub zero_len: u64,
    pub copy_offset: u64,
    pub copy_len: u64,
    pub final_flags: u64,
}

/// The loading plan of the whole image.
pub struct LoadPlan {
    pub entry: u64,
    pub segments: Vec<SegmentPlan>,
}

/// Why an image cannot be loaded.
#[derive(Clone, Copy, Debug, PartialEq, Eq, Structural)]
pub enum LoadError {
    /// A program-header table runs past the end of the file or is
    /// misaligned, which the parser cannot read.
    MalformedHeaders,
    /// The bytes are not an ELF file the parser accepts.
    NotElf,
    /// A program header has an undefined type.
    InvalidSegmentType,
    /// A loadable segment lies outside the address space or the file, or
    /// holds more file bytes than memory.
    SegmentOutOfRange,
    /// The entry point is not a virtual address.
    BadEntry,
}

/// The flags a segment's pages end up with: present and user accessible;
/// a writable segment is writable and not executable, a read-only one
/// executable and not writable (write xor execute).
pub open spec fn segment_flags(writable: bool) -> u64 {
    if writable { PRESENT | USER_ACCESSIBLE | WRITABLE | NO_EXECUTE } else { PRESENT | USER_ACCESSIBLE }
}

/// The plan for one loadable segment: its pages, from the page of its
/// first byte to the page of its last byte, and its bytes at the virtual
/// address made from its address.
pub open spec fn segment_plan(s: ProgramSegment) -> SegmentPlan {
    let v = sign_extend(s.virtual_addr as int);
    SegmentPlan {
        pages: inclusive_pages(v, v + s.mem_size - 1),
        map_flags: PRESENT | USER_ACCESSIBLE | WRITABLE,
        dest: v as u64,
        zero_len: s.mem_size,
        copy_offset: s.offset,
        copy_len: s.file_size,
        final_flags: segment_flags(s.writable),
    }
}

/// A loadable segment that can be mapped and filled: its address is a
/// virtual address, all its bytes lie in the same canonical half (a lower
/// segment ending at the very top of the half is refused too, since its
/// end address is sign-extended and stepping back one byte from there is
/// not a virtual address), its file bytes lie inside a file of `data_len`
/// bytes and fit in its memory.
pub open spec fn segment_loadable(s: ProgramSegment, data_len: int) -> bool {
    let v = sign_extend(s.virtual_addr as int);
    &&& s.file_size <= s.mem_size
    &&& s.offset + s.file_size <= data_len
    &&& virt_valid(s.virtual_addr as int)
    &&& ({
        ||| (v < LOWER_HALF_END && 1 <= v + s.mem_size < LOWER_HALF_END)
        ||| (v >= UPPER_HALF_START && UPPER_HALF_START < v + s.mem_size <= u64::MAX)
    })
}

/// An image the loader handles without failing: an entry point that is a
/// virtual address, no undefined header types, and only loadable segments
/// of type Load.
pub open spec fn image_loadable(entry: u64, segs: Seq<ProgramSegment>, data_len: int) -> bool {
    &&& virt_valid(entry as int)
    &&& forall|i: int| 0 <= i < segs.len() ==> (#[trigger] segs[i]).kind != SegmentKind::Invalid
    &&& forall|i: int| 0 <= i < segs.len() && (#[trigger] segs[i]).kind == SegmentKind::Load
        ==> segment_loadable(segs[i], data_len)
}

/// A header the loader accepts: of a defined type, and loadable if it is a
/// Load segment.
pub open spec fn header_ok(s: ProgramSegment, data_len: int) -> bool {
    s.kind != SegmentKind::Invalid && (s.kind == SegmentKind::Load ==> segment_loadable(s, data_len))
}

/// The position of the first header the loader refuses, or `segs.len()`.
pub open spec fn first_bad(segs: Seq<ProgramSegment>, data_len: int) -> int
    decreases segs.len(),
{
    if segs.len() == 0 {
        0
    } else if !header_ok(segs[0], data_len) {
        0
    } else {
        1 + first_bad(segs.drop_first(), data_len)
    }
}

/// The error an image is refused with, if any: a bad entry point first,
/// then the first refused header, by its kind.
pub open spec fn image_error(entry: u64, segs: Seq<ProgramSegment>, data_len: int) -> Option<LoadError> {
    if !virt_valid(entry as int) {
        Some(LoadError::BadEntry)
    } else if first_bad(segs, data_len) < segs.len() {
        if segs[first_bad(segs, data_len)].kind == SegmentKind::Invalid {
            Some(LoadError::InvalidSegmentType)
        } else {
            Some(LoadError::SegmentOutOfRange)
        }
    } else {
        None
    }
}

proof fn lemma_first_bad(segs: Seq<ProgramSegment>, data_len: int)
    ensures
        0 <= first_bad(segs, data_len) <= segs.len(),
        first_bad(segs, data_len) < segs.len() ==> !header_ok(segs[first_bad(segs, data_len)], data_len),
        forall|j: int| 0 <= j < first_bad(segs, data_len) ==> header_ok(#[trigger] segs[j], data_len),
    decreases segs.len(),
{
    if segs.len() > 0 && header_ok(segs[0], data_len) {
        lemma_first_bad(segs.drop_first(), data_len);
        assert forall|j: int| 0 <= j < first_bad(segs, data_len) implies header_ok(#[trigger] segs[j], data_len) by {
            if j > 0 {
                assert(segs[j] == segs.drop_first()[j - 1]);
            }
        }
    }
}

/// The plans of the Load segments, in file order.
pub open spec fn load_plans(segs: Seq<ProgramSegment>) -> Seq<SegmentPlan>
    decreases segs.len(),
{
    if segs.len() == 0 {
        Seq::empty()
    } else {
        let rest = load_plans(segs.drop_last());
        if segs.last().kind == SegmentKind::Load { rest.push(segment_plan(segs.last())) } else { rest }
    }
}

/// The plan for one loadable segment.
pub fn plan_segment(s: &ProgramSegment, data_len: u64) -> (p: SegmentPlan)
    requires
        segment_loadable(*s, data_len as int),
    ensures
        p == segment_plan(*s),
{
    let flags: u64 = if s.writable {
        PRESENT | USER_ACCESSIBLE | WRITABLE | NO_EXECUTE
    } else {
        PRESENT | USER_ACCESSIBLE
    };
    let v: u64 = virt_addr(s.virtual_addr);
    let last: u64 = v + s.mem_size - 1;
    SegmentPlan {
        pages: page_range_inclusive(v, last),
        map_flags: PRESENT | USER_ACCESSIBLE | WRITABLE,
        dest: v,
        zero_len: s.mem_size,
        copy_offset: s.offset,
        copy_len: s.file_size,
        final_flags: flags,
    }
}

/// The loading plan of an image the loader handles: its entry point (as a
/// virtual address) and the plans of its Load segments in file order.
pub fn plan_elf_load(image: &ElfImage, data_len: u64) -> (p: LoadPlan)
    requires
        image_loadable(image.entry, image.segments@, data_len as int),
    ensures
        p.entry == sign_extend(image.entry as int),
        p.segments@ == load_plans(image.segments@),
{
    let ghost segs = image.segments@;
    let mut plans: Vec<SegmentPlan> = Vec::new();
    let mut i: usize = 0;
    while i < image.segments.len()
        invariant
            segs == image.segments@,
            image_loadable(image.entry, segs, data_len as int),
            0 <= i <= segs.len(),
            plans@ == load_plans(segs.take(i as int)),
        decreases segs.len() - i,
    {
        let s = &image.segments[i];
        proof {
            assert(segs.take(i + 1).drop_last() =~= segs.take(i as int));
            assert(segs.take(i + 1).last() == segs[i as int]);
        }
        if s.kind == SegmentKind::Load {
            let p = plan_segment(s, data_len);
            plans.push(p);
        }
        i = i + 1;
    }
    proof {
        assert(segs.take(segs.len() as int) =~= segs);
    }
    LoadPlan { entry: virt_addr(image.entry), segments: plans }
}

/// Whether an image is one the loader handles.
pub fn check_image(image: &ElfImage, data_len: u64) -> (r: Result<(), LoadError>)
    ensures
        r is Ok <==> image_loadable(image.entry, image.segments@, data_len as int),
        r matches Err(e) ==> Some(e) == image_error(image.entry, image.segments@, data_len as int),
        r is Ok ==> image_error(image.entry, image.segments@, data_len as int).is_none(),
{
    if !(image.entry < SIGN_EXTENDABLE_END || image.entry >= UPPER_HALF_START) {
        return Err(LoadError::BadEntry);
    }
    let ghost segs = image.segments@;
    proof {
        lemma_first_bad(segs, data_len as int);
    }
    let mut i: usize = 0;
    while i < image.segments.len()
        invariant
            segs == image.segments@,
            virt_valid(image.entry as int),
            0 <= first_bad(segs, data_len as int) <= segs.len(),
            first_bad(segs, data_len as int) < segs.len() ==> !header_ok(segs[first_bad(segs, data_len as int)], data_len as int),
            forall|j: int| 0 <= j < first_bad(segs, data_len as int) ==> header_ok(#[trigger] segs[j], data_len as int),
            0 <= i <= segs.len(),
            forall|j: int| 0 <= j < i ==> (#[trigger] segs[j]).kind != SegmentKind::Invalid,
            forall|j: int| 0 <= j < i && (#[trigger] segs[j]).kind == SegmentKind::Load
                ==> segment_loadable(segs[j], data_len as int),
        decreases segs.len() - i,
    {
        let s = &image.segments[i];
        if s.kind == SegmentKind::Invalid {
            assert(first_bad(segs, data_len as int) == i);
            return Err(LoadError::InvalidSegmentType);
        }
        if s.kind == SegmentKind::Load {
            let ok_file = s.file_size <= s.mem_size && s.file_size <= data_len && s.offset <= data_len - s.file_size;
            let ok_addr = if s.virtual_addr < SIGN_EXTENDABLE_END || s.virtual_addr >= UPPER_HALF_START {
                let v: u64 = virt_addr(s.virtual_addr);
                let ok_low = v < LOWER_HALF_END && s.mem_size < LOWER_HALF_END - v && (v > 0 || s.mem_size > 0);
                let ok_high = v >= UPPER_HALF_START && s.mem_size <= u64::MAX - v
                    && (v > UPPER_HALF_START || s.mem_size > 0);
                ok_low || ok_high
            } else {
                false
            };
            if !(ok_file && ok_addr) {
                assert(!header_ok(segs[i as int], data_len as int));
                assert(first_bad(segs, data_len as int) == i);
                return Err(LoadError::SegmentOutOfRange);
            }
        }
        assert(header_ok(segs[i as int], data_len as int));
        i = i + 1;
    }
    Ok(())
}

/// Parses an ELF image and plans its loading. Fails when the program
/// header tables do not fit the file (`MalformedHeaders`), when the parser
/// refuses the bytes (`NotElf`) or when the image is not one the loader
/// handles (the first offending header, in file order, decides between
/// `InvalidSegmentType` and `SegmentOutOfRange`; a bad entry point is
/// reported first).
pub fn load_elf(data: &[u8]) -> (r: Result<LoadPlan, LoadError>)
    ensures
        !elf_tables_fit(data@) <==> r == Err::<LoadPlan, LoadError>(LoadError::MalformedHeaders),
        elf_tables_fit(data@) ==> (elf_program(data@).is_none() <==> r == Err::<LoadPlan, LoadError>(LoadError::NotElf)),
        elf_tables_fit(data@) ==> (elf_program(data@) matches Some((entry, segs)) ==> {
            &&& (r is Ok <==> image_loadable(entry, segs, data@.len() as int))
            &&& (r matches Ok(p) ==> p.entry == sign_extend(entry as int) && p.segments@ == load_plans(segs))
            &&& (r matches Err(e) ==> Some(e) == image_error(entry, segs, data@.len() as int))
        }),
{
    if !headers_in_bounds(data) {
        return Err(LoadError::MalformedHeaders);
    }
    let image = match parse_elf(data) {
        Some(img) => img,
        None => return Err(LoadError::NotElf),
    };
    let data_len: u64 = data.len() as u64;
    match check_image(&image, data_len) {
        Ok(()) => Ok(plan_elf_load(&image, data_len)),
        Err(e) => Err(e),
    }
}

/// Permissions of loaded segments: pages are mapped present, user
/// accessible and writable while the bytes are copied in; in the end every
/// page of a segment is present and user accessible, writable exactly when
/// the segment is, and never both writable and executable.
pub proof fn lemma_segment_final_permissions(s: ProgramSegment)
    ensures
        segment_plan(s).map_flags & WRITABLE != 0,
        segment_plan(s).map_flags & PRESENT != 0,
        segment_plan(s).map_flags & USER_ACCESSIBLE != 0,
        segment_plan(s).final_flags & PRESENT != 0,
        segment_plan(s).final_flags & USER_ACCESSIBLE != 0,
        (segment_plan(s).final_flags & WRITABLE != 0) == s.writable,
        segment_plan(s).final_flags & WRITABLE != 0 ==> segment_plan(s).final_flags & NO_EXECUTE != 0,
        !s.writable ==> segment_plan(s).final_flags & NO_EXECUTE == 0,
{
    assert(((1u64 | 4u64) | 2u64) == 7u64) by (bit_vector);
    assert(7u64 & 1u64 != 0 && 7u64 & 2u64 != 0 && 7u64 & 4u64 != 0) by (bit_vector);
    assert((((1u64 | 4u64) | 2u64) | 0x8000_0000_0000_0000u64) == 0x8000_0000_0000_0007u64) by (bit_vector);
    assert(0x8000_0000_0000_0007u64 & 1u64 != 0 && 0x8000_0000_0000_0007u64 & 2u64 != 0
        && 0x8000_0000_0000_0007u64 & 4u64 != 0
        && 0x8000_0000_0000_0007u64 & 0x8000_0000_0000_0000u64 != 0) by (bit_vector);
    assert((1u64 | 4u64) & 1u64 != 0 && (1u64 | 4u64) & 2u64 == 0 && (1u64 | 4u64) & 4u64 != 0
        && (1u64 | 4u64) & 0x8000_0000_0000_0000u64 == 0) by (bit_vector);
}

} // verus!
