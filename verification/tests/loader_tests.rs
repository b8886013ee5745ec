use kernel::loader::{load_elf, plan_segment, LoadError, ProgramSegment, SegmentKind};

fn put(buf: &mut Vec<u8>, at: usize, value: u64, width: usize) {
    for i in 0..width {
        buf[at + i] = ((value >> (8 * i)) & 0xff) as u8;
    }
}

struct Phdr {
    kind: u32,
    flags: u32,
    offset: u64,
    vaddr: u64,
    filesz: u64,
    memsz: u64,
}

fn elf64(entry: u64, phdrs: &[Phdr]) -> Vec<u8> {
    let len = 64 + 56 * phdrs.len();
    let mut b = vec![0u8; len];
    b[0..4].copy_from_slice(&[0x7f, b'E', b'L', b'F']);
    b[4] = 2; // 64-bit
    b[5] = 1; // little endian
    b[6] = 1; // version
    put(&mut b, 16, 2, 2); // executable
    put(&mut b, 18, 0x3e, 2); // x86_64
    put(&mut b, 20, 1, 4);
    put(&mut b, 24, entry, 8);
    put(&mut b, 32, 64, 8); // program headers right after the header
    put(&mut b, 52, 64, 2);
    put(&mut b, 54, 56, 2);
    put(&mut b, 56, phdrs.len() as u64, 2);
    for (i, p) in phdrs.iter().enumerate() {
        let at = 64 + 56 * i;
        put(&mut b, at, p.kind as u64, 4);
        put(&mut b, at + 4, p.flags as u64, 4);
        put(&mut b, at + 8, p.offset, 8);
        put(&mut b, at + 16, p.vaddr, 8);
        put(&mut b, at + 24, p.vaddr, 8);
        put(&mut b, at + 32, p.filesz, 8);
        put(&mut b, at + 40, p.memsz, 8);
        put(&mut b, at + 48, 0x1000, 8);
    }
    b
}

/// Runs `f` on a copy of `bytes` that starts on an 8-byte boundary, as the
/// parser expects of the structures it reads in place.
fn with_aligned<R>(bytes: &[u8], f: impl FnOnce(&[u8]) -> R) -> R {
    let mut store = vec![0u8; bytes.len() + 8];
    let off = (8 - (store.as_ptr() as usize % 8)) % 8;
    store[off..off + bytes.len()].copy_from_slice(bytes);
    f(&store[off..off + bytes.len()])
}

fn sample() -> Vec<u8> {
    elf64(
        0x2000_0010,
        &[
            Phdr { kind: 1, flags: 5, offset: 0, vaddr: 0x2000_0000, filesz: 0xb0, memsz: 0x1000 },
            Phdr { kind: 4, flags: 4, offset: 0, vaddr: 0, filesz: 0, memsz: 0 },
            Phdr { kind: 1, flags: 6, offset: 0x10, vaddr: 0x2000_1800, filesz: 0x20, memsz: 0x1000 },
        ],
    )
}

#[test]
fn plans_the_load_segments_of_an_elf_image() {
    let data = sample();
    let plan = with_aligned(&data, |d| load_elf(d)).unwrap();
    assert_eq!(plan.entry, 0x2000_0010);
    assert_eq!(plan.segments.len(), 2);
    let code = plan.segments[0];
    assert_eq!((code.pages.first, code.pages.count), (0x2000_0000, 1));
    assert_eq!(code.map_flags, 0b111);
    assert_eq!(code.final_flags, 0b101);
    assert_eq!((code.dest, code.zero_len, code.copy_offset, code.copy_len), (0x2000_0000, 0x1000, 0, 0xb0));
    let data_seg = plan.segments[1];
    assert_eq!((data_seg.pages.first, data_seg.pages.count), (0x2000_1000, 2));
    assert_eq!(data_seg.map_flags, 0b111);
    assert_eq!(data_seg.final_flags, 0x8000_0000_0000_0007);
    assert_eq!((data_seg.dest, data_seg.zero_len, data_seg.copy_offset, data_seg.copy_len), (0x2000_1800, 0x1000, 0x10, 0x20));
}

#[test]
fn refuses_bytes_that_are_not_elf() {
    let data = vec![0u8; 200];
    assert_eq!(with_aligned(&data, |d| load_elf(d).err()), Some(LoadError::NotElf));
    let short = vec![0x7fu8, b'E'];
    assert_eq!(with_aligned(&short, |d| load_elf(d).err()), Some(LoadError::NotElf));
}

#[test]
fn refuses_an_undefined_segment_type() {
    let data = elf64(0x2000_0000, &[Phdr { kind: 8, flags: 4, offset: 0, vaddr: 0x2000_0000, filesz: 0, memsz: 0x10 }]);
    assert_eq!(with_aligned(&data, |d| load_elf(d).err()), Some(LoadError::InvalidSegmentType));
}

#[test]
fn refuses_a_segment_with_more_file_than_memory() {
    let data = elf64(0x2000_0000, &[Phdr { kind: 1, flags: 4, offset: 0, vaddr: 0x2000_0000, filesz: 0x20, memsz: 0x10 }]);
    assert_eq!(with_aligned(&data, |d| load_elf(d).err()), Some(LoadError::SegmentOutOfRange));
}

#[test]
fn refuses_a_segment_past_the_file() {
    let data = elf64(0x2000_0000, &[Phdr { kind: 1, flags: 4, offset: 0x100, vaddr: 0x2000_0000, filesz: 0x100, memsz: 0x1000 }]);
    assert_eq!(with_aligned(&data, |d| load_elf(d).err()), Some(LoadError::SegmentOutOfRange));
}

#[test]
fn refuses_a_non_canonical_entry_point() {
    let data = elf64(0x8000_0000_0000_0000, &[]);
    assert_eq!(with_aligned(&data, |d| load_elf(d).err()), Some(LoadError::BadEntry));
}

#[test]
fn sign_extends_an_entry_point_with_bit_47_set() {
    let data = elf64(0x0000_8000_1234_0000, &[]);
    let plan = with_aligned(&data, |d| load_elf(d)).unwrap();
    assert_eq!(plan.entry, 0xffff_8000_1234_0000);
    assert_eq!(plan.segments.len(), 0);
}

#[test]
fn refuses_an_entry_point_with_data_in_the_top_bits() {
    let data = elf64(0x0001_0000_0000_0000, &[]);
    assert_eq!(with_aligned(&data, |d| load_elf(d).err()), Some(LoadError::BadEntry));
}

#[test]
fn loads_a_segment_in_the_last_lower_half_page() {
    let data = elf64(0x7fff_ffff_f000, &[Phdr { kind: 1, flags: 6, offset: 0, vaddr: 0x7fff_ffff_f000, filesz: 0, memsz: 0xfff }]);
    let plan = with_aligned(&data, |d| load_elf(d)).unwrap();
    let seg = plan.segments[0];
    assert_eq!((seg.pages.first, seg.pages.count), (0x7fff_ffff_f000, 1));
    assert_eq!((seg.dest, seg.zero_len), (0x7fff_ffff_f000, 0xfff));
}

#[test]
fn refuses_a_segment_reaching_the_end_of_the_lower_half() {
    let data = elf64(0x7fff_ffff_f000, &[Phdr { kind: 1, flags: 6, offset: 0, vaddr: 0x7fff_ffff_f000, filesz: 0, memsz: 0x1000 }]);
    assert_eq!(with_aligned(&data, |d| load_elf(d).err()), Some(LoadError::SegmentOutOfRange));
}

#[test]
fn loads_an_upper_half_segment() {
    let data = elf64(0xffff_8000_0000_0000, &[Phdr { kind: 1, flags: 5, offset: 0, vaddr: 0xffff_8000_0000_0000, filesz: 0x40, memsz: 0x1001 }]);
    let plan = with_aligned(&data, |d| load_elf(d)).unwrap();
    let seg = plan.segments[0];
    assert_eq!((seg.pages.first, seg.pages.count), (0xffff_8000_0000_0000, 2));
    assert_eq!(seg.final_flags, 5);
}

#[test]
fn parses_an_image_at_an_odd_address() {
    let data = sample();
    let mut store = vec![0u8; data.len() + 1];
    store[1..].copy_from_slice(&data);
    let plan = load_elf(&store[1..]).unwrap();
    assert_eq!(plan.entry, 0x2000_0010);
    assert_eq!(plan.segments.len(), 2);
}

fn elf64_with_entry_size(entry_size: u16) -> Vec<u8> {
    let mut data = elf64(0x2000_0000, &[Phdr { kind: 1, flags: 5, offset: 0, vaddr: 0x2000_0000, filesz: 0, memsz: 0x10 }]);
    put(&mut data, 54, entry_size as u64, 2);
    data.resize(64 + entry_size as usize, 0);
    data
}

#[test]
fn a_single_header_may_have_an_odd_entry_size() {
    let data = elf64_with_entry_size(60);
    let plan = with_aligned(&data, |d| load_elf(d)).unwrap();
    assert_eq!(plan.segments.len(), 1);
    assert_eq!(plan.segments[0].dest, 0x2000_0000);
}

#[test]
fn two_headers_with_an_odd_entry_size_are_refused() {
    let mut data = elf64(0x2000_0000, &[
        Phdr { kind: 1, flags: 5, offset: 0, vaddr: 0x2000_0000, filesz: 0, memsz: 0x10 },
        Phdr { kind: 4, flags: 4, offset: 0, vaddr: 0, filesz: 0, memsz: 0 },
    ]);
    put(&mut data, 54, 60, 2);
    data.resize(64 + 120, 0);
    assert_eq!(with_aligned(&data, |d| load_elf(d).err()), Some(LoadError::MalformedHeaders));
}

#[test]
fn read_only_segments_lose_write_permission() {
    let s = ProgramSegment { kind: SegmentKind::Load, virtual_addr: 0x40_0000, mem_size: 0x2001, file_size: 0, offset: 0, writable: false };
    let p = plan_segment(&s, 0);
    assert_eq!((p.pages.first, p.pages.count), (0x40_0000, 3));
    assert_eq!(p.map_flags, 7);
    assert_eq!(p.final_flags, 5);
    let w = ProgramSegment { writable: true, ..s };
    let p = plan_segment(&w, 0);
    assert_eq!(p.final_flags, 0x8000_0000_0000_0007);
    assert_eq!(p.final_flags & 2 != 0 && p.final_flags >> 63 == 1, true);
    assert_eq!(p.map_flags, 7);
}

#[test]
fn empty_segment_on_a_page_boundary_maps_nothing() {
    let s = ProgramSegment { kind: SegmentKind::Load, virtual_addr: 0x40_0000, mem_size: 0, file_size: 0, offset: 0, writable: true };
    let p = plan_segment(&s, 0);
    assert_eq!(p.pages.count, 0);
}

#[test]
fn refuses_a_header_table_past_the_end_of_the_file() {
    let mut data = sample();
    // Claim one more program header than the file holds.
    put(&mut data, 56, 4, 2);
    assert!(!kernel::loader::headers_in_bounds(&data));
    assert_eq!(with_aligned(&data, |d| load_elf(d).err()), Some(LoadError::MalformedHeaders));
}

#[test]
fn refuses_a_misaligned_header_table() {
    let mut data = sample();
    data.extend_from_slice(&[0u8; 8]);
    put(&mut data, 32, 68, 8);
    assert!(!kernel::loader::headers_in_bounds(&data));
    assert_eq!(with_aligned(&data, |d| load_elf(d).err()), Some(LoadError::MalformedHeaders));
}

#[test]
fn accepts_well_placed_header_tables() {
    assert!(kernel::loader::headers_in_bounds(&sample()));
    assert!(kernel::loader::headers_in_bounds(&[0u8; 10]));
}
