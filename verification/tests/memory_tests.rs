use kernel::mem::{BootInfoFrameAllocator, MemoryRegion, MemoryRegionKind};
use kernel::paging::{page_range_inclusive, user_stack_flags, user_stack_layout};
use kernel::allocator::{heap_page_flags, heap_pages, HEAP_SIZE, HEAP_START};

fn region(start: u64, end: u64, kind: MemoryRegionKind) -> MemoryRegion {
    MemoryRegion { start, end, kind }
}

#[test]
fn allocator_walks_usable_frames_in_order() {
    let regions = vec![
        region(0, 0x1000, MemoryRegionKind::Bootloader),
        region(0x1000, 0x3000, MemoryRegionKind::Usable),
        region(0x3000, 0x5000, MemoryRegionKind::UnknownBios(2)),
        region(0x8000, 0x9000, MemoryRegionKind::Usable),
    ];
    let mut a = BootInfoFrameAllocator::init(regions);
    assert_eq!(a.allocate_frame(), Some(0x1000));
    assert_eq!(a.allocate_frame(), Some(0x2000));
    assert_eq!(a.allocate_frame(), Some(0x8000));
    assert_eq!(a.allocate_frame(), None);
    assert_eq!(a.allocate_frame(), None);
}

#[test]
fn allocator_rounds_unaligned_regions_down() {
    let regions = vec![region(0x1800, 0x3001, MemoryRegionKind::Usable)];
    let mut a = BootInfoFrameAllocator::init(regions);
    // The stepped addresses are 0x1800 and 0x2800 (0x3800 is past the end).
    assert_eq!(a.allocate_frame(), Some(0x1000));
    assert_eq!(a.allocate_frame(), Some(0x2000));
    assert_eq!(a.allocate_frame(), None);
}

#[test]
fn allocator_with_no_usable_memory() {
    let regions = vec![region(0, 0x10000, MemoryRegionKind::UnknownUefi(7))];
    let mut a = BootInfoFrameAllocator::init(regions);
    assert_eq!(a.allocate_frame(), None);
}

#[test]
fn allocated_frames_are_distinct_and_aligned() {
    let regions = vec![
        region(0x0, 0x2000, MemoryRegionKind::Usable),
        region(0x2000, 0x4000, MemoryRegionKind::Bootloader),
        region(0x10000, 0x14000, MemoryRegionKind::Usable),
    ];
    let mut a = BootInfoFrameAllocator::init(regions);
    let mut seen = Vec::new();
    while let Some(f) = a.allocate_frame() {
        assert_eq!(f % 4096, 0);
        assert!(!seen.contains(&f));
        seen.push(f);
    }
    assert_eq!(seen, vec![0x0, 0x1000, 0x10000, 0x11000, 0x12000, 0x13000]);
}

#[test]
fn inclusive_page_ranges() {
    let r = page_range_inclusive(0x2000_0000, 0x2000_0fff);
    assert_eq!((r.first, r.count), (0x2000_0000, 1));
    let r = page_range_inclusive(0x2000_0ff0, 0x2000_1010);
    assert_eq!((r.first, r.count), (0x2000_0000, 2));
    let r = page_range_inclusive(0x2000_1000, 0x2000_0fff);
    assert_eq!((r.first, r.count), (0x2000_1000, 0));
}

#[test]
fn heap_pages_cover_the_heap_exactly() {
    let r = heap_pages();
    assert_eq!(HEAP_START, 0x4444_4444_0000);
    assert_eq!(HEAP_SIZE, 100 * 1024);
    assert_eq!(r.first, HEAP_START);
    assert_eq!(r.count, 25);
    assert_eq!(r.count * 4096, HEAP_SIZE);
}

#[test]
fn user_stack_layouts() {
    let (pages, top) = user_stack_layout(0x3000_0000, 8);
    let expected: Vec<u64> = (0..8u64).map(|i| 0x3000_0000 + i * 4096).collect();
    assert_eq!(pages, expected);
    assert_eq!(top, 0x3000_8000);
    let (pages, top) = user_stack_layout(0x4000_0000, 8);
    assert_eq!(pages.len(), 8);
    assert_eq!(pages[0], 0x4000_0000);
    assert_eq!(pages[7], 0x4000_7000);
    assert_eq!(top, 0x4000_8000);
}

#[test]
fn user_stacks_may_lie_in_the_upper_half() {
    let (pages, top) = user_stack_layout(0xffff_9000_0000_0000, 2);
    assert_eq!(pages, vec![0xffff_9000_0000_0000, 0xffff_9000_0000_1000]);
    assert_eq!(top, 0xffff_9000_0000_2000);
}

#[test]
fn user_stack_bases_with_bit_47_set_are_sign_extended() {
    let (pages, top) = user_stack_layout(0x0000_9000_0000_0000, 1);
    assert_eq!(pages, vec![0xffff_9000_0000_0000]);
    assert_eq!(top, 0xffff_9000_0000_1000);
}

#[test]
fn a_user_stack_may_end_at_the_top_of_the_lower_half() {
    let (pages, top) = user_stack_layout(0x7fff_ffff_e000, 2);
    assert_eq!(pages, vec![0x7fff_ffff_e000, 0x7fff_ffff_f000]);
    assert_eq!(top, 0xffff_8000_0000_0000);
}

#[test]
fn only_frames_reached_must_lie_below_the_physical_limit() {
    let mut a = BootInfoFrameAllocator::init(vec![
        region(0x1000, 0x3000, MemoryRegionKind::Usable),
        region(0xf_ffff_ffff_f000, 0x10_0000_0000_2000, MemoryRegionKind::Usable),
    ]);
    assert!(a.next_frame_valid());
    assert_eq!(a.allocate_frame(), Some(0x1000));
    assert!(a.next_frame_valid());
    assert_eq!(a.allocate_frame(), Some(0x2000));
    assert!(a.next_frame_valid());
    assert_eq!(a.allocate_frame(), Some(0xf_ffff_ffff_f000));
    assert!(!a.next_frame_valid());
    let reserved = BootInfoFrameAllocator::init(vec![region(0, 0x20_0000_0000_0000, MemoryRegionKind::Bootloader)]);
    assert!(reserved.next_frame_valid());
}

#[test]
fn unsorted_disjoint_regions_give_distinct_frames() {
    let mut a = BootInfoFrameAllocator::init(vec![
        region(0x9000, 0xb000, MemoryRegionKind::Usable),
        region(0x1000, 0x9000, MemoryRegionKind::Bootloader),
        region(0x2000, 0x4000, MemoryRegionKind::Usable),
    ]);
    let mut got = Vec::new();
    while let Some(f) = a.allocate_frame() {
        got.push(f);
    }
    assert_eq!(got, vec![0x9000, 0xa000, 0x2000, 0x3000]);
}

#[test]
fn heap_pages_are_kernel_only() {
    assert_eq!(heap_page_flags(), 0b011);
}

#[test]
fn user_stack_pages_are_user_writable() {
    assert_eq!(user_stack_flags(), 0b111);
}
