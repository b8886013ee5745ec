//! The boot-time physical frame allocator: hands out, one after the other,
//! the 4 KiB frames of the memory regions the bootloader reported usable.
use vstd::prelude::*;

verus! {

/// Size of a page and of a physical frame.
pub const PAGE_SIZE: u64 = 4096;

/// Physical addresses must stay below 2^52.
pub const PHYS_ADDR_LIMIT: u64 = 0x10_0000_0000_0000;

/// The memory types the bootloader reports.
#[derive(Clone, Copy, Debug, PartialEq, Eq, Structural)]
pub enum MemoryRegionKind {
    /// Free conventional memory.
    Usable,
    /// Used by the bootloader (page tables, boot information).
    Bootloader,
    /// Unknown memory reported by UEFI, with its type tag.
    UnknownUefi(u32),
    /// Unknown memory reported by the BIOS, with its E820 type.
    UnknownBios(u32),
}

/// A physical memory region `[start, end)` as the bootloader reports it.
#[derive(Clone, Copy, Debug)]
pub struct MemoryRegion {
    pub start: u64,
    pub end: u64,
    pub kind: MemoryRegionKind,
}

/// The start of the 4 KiB frame containing `addr`.
pub open spec fn frame_of(addr: int) -> int {
    addr - addr % (PAGE_SIZE as int)
}

/// The frames a region yields: one for every address `start + k * 4096`
/// below `end`, each rounded down to its frame; none for a region that is
/// not usable.
pub open spec fn region_frames(r: MemoryRegion) -> Seq<u64> {
    if r.kind == MemoryRegionKind::Usable && r.start < r.end {
        Seq::new(
            ((r.end - r.start + 4095) / 4096) as nat,
            |k: int| frame_of(r.start + k * 4096) as u64,
        )
    } else {
        Seq::empty()
    }
}

/// The frames of regions `i..`, region by region.
pub open spec fn frames_from(regions: Seq<MemoryRegion>, i: int) -> Seq<u64>
    decreases regions.len() - i,
{
    if i < 0 || i >= regions.len() {
        Seq::empty()
    } else {
        region_frames(regions[i]) + frames_from(regions, i + 1)
    }
}

/// All usable frames in the order the allocator hands them out.
pub open spec fn usable_frames(regions: Seq<MemoryRegion>) -> Seq<u64> {
    frames_from(regions, 0)
}

/// The usable frames handed out by the first `n + 1` allocations (those
/// that exist) lie below the physical address limit. Each allocation walks
/// the frames from the first one up to the one it returns and makes each a
/// physical address, which must stay below 2^52; since the limit is a
/// frame boundary, a frame lies below it exactly when every address in it
/// does.
pub open spec fn frames_below_limit(regions: Seq<MemoryRegion>, n: int) -> bool {
    forall|j: int| 0 <= j <= n && j < usable_frames(regions).len()
        ==> #[trigger] usable_frames(regions)[j] < PHYS_ADDR_LIMIT
}

/// A bump allocator over the usable frames: `next` counts the frames
/// already handed out.
pub struct BootInfoFrameAllocator {
    memory_regions: Vec<MemoryRegion>,
    next: usize,
}

impl BootInfoFrameAllocator {
    /// The regions the allocator draws from.
    pub closed spec fn regions(&self) -> Seq<MemoryRegion> {
        self.memory_regions@
    }

    /// How many frames have been handed out (or asked for past the end).
    pub closed spec fn allocated(&self) -> nat {
        self.next as nat
    }

    /// Whether the next allocation stays below the physical address limit:
    /// the frames up to and including the one it returns do.
    pub fn next_frame_valid(&self) -> (r: bool)
        ensures
            r == frames_below_limit(self.regions(), self.allocated() as int),
    {
        let n: usize = self.next;
        let mut j: usize = 0;
        loop
            invariant
                j <= n,
                n == self.allocated(),
                forall|jj: int| 0 <= jj < j && jj < usable_frames(self.regions()).len()
                    ==> #[trigger] usable_frames(self.regions())[jj] < PHYS_ADDR_LIMIT,
            decreases n - j,
        {
            match self.nth_usable_frame(j) {
                Some(f) => {
                    if f >= PHYS_ADDR_LIMIT {
                        assert(usable_frames(self.regions())[j as int] >= PHYS_ADDR_LIMIT);
                        return false;
                    }
                },
                None => {
                    return true;
                },
            }
            if j == n {
                return true;
            }
            j = j + 1;
        }
    }

    /// An allocator that has handed out nothing yet.
    pub fn init(memory_regions: Vec<MemoryRegion>) -> (a: BootInfoFrameAllocator)
        ensures
            a.regions() == memory_regions@,
            a.allocated() == 0,
    {
        BootInfoFrameAllocator { memory_regions, next: 0 }
    }

    /// Hands out the next usable frame (its start address), or `None` once
    /// all usable frames are gone. Every call advances the count (which
    /// wraps, as unchecked release arithmetic does).
    pub fn allocate_frame(&mut self) -> (r: Option<u64>)
        requires
            frames_below_limit(old(self).regions(), old(self).allocated() as int),
        ensures
            final(self).regions() == old(self).regions(),
            final(self).allocated() == (if old(self).allocated() == usize::MAX { 0 } else {
                old(self).allocated() + 1
            }),
            r == (if old(self).allocated() < usable_frames(old(self).regions()).len() {
                Some(usable_frames(old(self).regions())[old(self).allocated() as int])
            } else {
                None::<u64>
            }),
    {
        let r = self.nth_usable_frame(self.next);
        self.next = self.next.wrapping_add(1);
        r
    }

    /// The `n`-th usable frame, counting from 0.
    fn nth_usable_frame(&self, n: usize) -> (r: Option<u64>)
        ensures
            r == (if n < usable_frames(self.regions()).len() {
                Some(usable_frames(self.regions())[n as int])
            } else {
                None::<u64>
            }),
    {
        let ghost rs = self.memory_regions@;
        let mut i: usize = 0;
        let mut rem: u64 = n as u64;
        let ghost mut prefix: Seq<u64> = Seq::empty();
        while i < self.memory_regions.len()
            invariant
                rs == self.memory_regions@,
                0 <= i <= rs.len(),
                usable_frames(rs) =~= prefix + frames_from(rs, i as int),
                prefix.len() + rem == n,
            decreases rs.len() - i,
        {
            let r = self.memory_regions[i];
            proof {
                assert(frames_from(rs, i as int) == region_frames(rs[i as int]) + frames_from(rs, i + 1));
            }
            if r.kind == MemoryRegionKind::Usable && r.start < r.end {
                let d: u64 = r.end - r.start;
                let count: u64 = d / 4096 + if d % 4096 == 0 { 0 } else { 1 };
                assert(count == (r.end - r.start + 4095) / 4096) by {
                    assert(d == 4096 * (d / 4096) + d % 4096 && 0 <= d % 4096 < 4096);
                    assert((d + 4095) / 4096 == d / 4096 + if d % 4096 == 0 { 0int } else { 1int }) by (nonlinear_arith)
                        requires
                            d == 4096 * (d / 4096) + d % 4096,
                            0 <= d % 4096 < 4096;
                }
                if rem < count {
                    assert(rem * 4096 < d) by (nonlinear_arith)
                        requires
                            rem < count,
                            count == d / 4096 + if d % 4096 == 0 { 0int } else { 1int },
                            d == 4096 * (d / 4096) + d % 4096,
                            0 <= d % 4096 < 4096;
                    let addr: u64 = r.start + rem * 4096;
                    let frame: u64 = addr - addr % PAGE_SIZE;
                    proof {
                        let rf = region_frames(rs[i as int]);
                        assert(rf[rem as int] == frame);
                        assert((prefix + (rf + frames_from(rs, i + 1)))[n as int] == rf[rem as int]);
                    }
                    return Some(frame);
                }
                rem = rem - count;
            }
            proof {
                let rf = region_frames(rs[i as int]);
                assert((prefix + rf) + frames_from(rs, i + 1) =~= prefix + (rf + frames_from(rs, i + 1)));
                prefix = prefix + rf;
            }
            i = i + 1;
        }
        proof {
            assert(frames_from(rs, i as int) == Seq::<u64>::empty());
        }
        None
    }
}

/// Every frame the allocator can hand out is 4 KiB aligned and overlaps a
/// usable region: it is the frame of an address inside one.
pub proof fn lemma_usable_frames_lie_in_usable_regions(regions: Seq<MemoryRegion>, i: int)
    requires
        0 <= i,
    ensures
        forall|j: int| 0 <= j < frames_from(regions, i).len() ==> {
            let f = #[trigger] frames_from(regions, i)[j];
            &&& f % PAGE_SIZE == 0
            &&& exists|r: int, a: int| #![trigger regions[r], frame_of(a)] i <= r < regions.len() && {
                &&& regions[r].kind == MemoryRegionKind::Usable
                &&& regions[r].start <= a < regions[r].end
                &&& f == frame_of(a)
            }
        },
    decreases regions.len() - i,
{
    if i < regions.len() {
        lemma_usable_frames_lie_in_usable_regions(regions, i + 1);
        let rf = region_frames(regions[i]);
        let rest = frames_from(regions, i + 1);
        assert(frames_from(regions, i) == rf + rest);
        assert forall|j: int| 0 <= j < frames_from(regions, i).len() implies {
            let f = #[trigger] frames_from(regions, i)[j];
            &&& f % PAGE_SIZE == 0
            &&& exists|r: int, a: int| #![trigger regions[r], frame_of(a)] i <= r < regions.len() && {
                &&& regions[r].kind == MemoryRegionKind::Usable
                &&& regions[r].start <= a < regions[r].end
                &&& f == frame_of(a)
            }
        } by {
            if j < rf.len() {
                let r = regions[i];
                let a: int = r.start + j * 4096;
                assert(j * 4096 < r.end - r.start) by (nonlinear_arith)
                    requires
                        0 <= j < (r.end - r.start + 4095) / 4096,
                        r.start < r.end;
                assert(rf[j] == frame_of(a) as u64);
                assert(0 <= a);
                assert(frame_of(a) % 4096 == 0 && frame_of(a) >= 0) by {
                    vstd::arithmetic::div_mod::lemma_mod_bound(a, 4096);
                    vstd::arithmetic::div_mod::lemma_fundamental_div_mod(a, 4096);
                    vstd::arithmetic::div_mod::lemma_mod_multiples_basic(a / 4096, 4096);
                }
                assert(regions[i].kind == MemoryRegionKind::Usable);
                assert(regions[i].start <= a < regions[i].end);
            } else {
                assert(frames_from(regions, i)[j] == rest[j - rf.len()]);
            }
        }
    }
}

/// Usable regions that start on a frame boundary and do not overlap one
/// another, in any order; other regions may lie anywhere.
pub open spec fn usable_regions_disjoint(regions: Seq<MemoryRegion>) -> bool {
    &&& forall|i: int| 0 <= i < regions.len() && (#[trigger] regions[i]).kind == MemoryRegionKind::Usable
        ==> regions[i].start % PAGE_SIZE == 0
    &&& forall|i: int, j: int| 0 <= i < regions.len() && 0 <= j < regions.len() && i != j
        && (#[trigger] regions[i]).kind == MemoryRegionKind::Usable
        && (#[trigger] regions[j]).kind == MemoryRegionKind::Usable
        ==> regions[i].end <= regions[j].start || regions[j].end <= regions[i].start
}

/// Address `f` lies inside usable region `r`.
pub open spec fn in_usable_region(regions: Seq<MemoryRegion>, r: int, f: int) -> bool {
    &&& 0 <= r < regions.len()
    &&& regions[r].kind == MemoryRegionKind::Usable
    &&& regions[r].start <= f < regions[r].end
}

/// Address `f` lies inside some usable region among regions `i..`.
pub open spec fn in_usable_region_from(regions: Seq<MemoryRegion>, i: int, f: int) -> bool {
    exists|r: int| i <= r && #[trigger] in_usable_region(regions, r, f)
}

proof fn lemma_frames_from_disjoint(regions: Seq<MemoryRegion>, i: int)
    requires
        0 <= i,
        usable_regions_disjoint(regions),
    ensures
        forall|a: int| 0 <= a < frames_from(regions, i).len()
            ==> in_usable_region_from(regions, i, #[trigger] frames_from(regions, i)[a] as int),
        forall|a: int, b: int| 0 <= a < b < frames_from(regions, i).len()
            ==> #[trigger] frames_from(regions, i)[a] != #[trigger] frames_from(regions, i)[b],
    decreases regions.len() - i,
{
    if i < regions.len() {
        lemma_frames_from_disjoint(regions, i + 1);
        let r = regions[i];
        let rf = region_frames(r);
        let rest = frames_from(regions, i + 1);
        let all = frames_from(regions, i);
        assert(all == rf + rest);
        assert forall|k: int| 0 <= k < rf.len() implies #[trigger] rf[k] == r.start + k * 4096
            && in_usable_region(regions, i, rf[k] as int) by {
            assert(k * 4096 < r.end - r.start) by (nonlinear_arith)
                requires
                    0 <= k < (r.end - r.start + 4095) / 4096,
                    r.start < r.end;
            let a: int = r.start + k * 4096;
            assert(a % 4096 == 0) by {
                vstd::arithmetic::div_mod::lemma_mod_multiples_vanish(k, r.start as int, 4096);
            }
        }
        assert forall|a: int| 0 <= a < all.len() implies in_usable_region_from(regions, i, #[trigger] all[a] as int) by {
            if a < rf.len() {
                assert(in_usable_region(regions, i, all[a] as int));
            } else {
                assert(all[a] == rest[a - rf.len()]);
                assert(in_usable_region_from(regions, i + 1, rest[a - rf.len()] as int));
                let q = choose|q: int| i + 1 <= q && #[trigger] in_usable_region(regions, q, rest[a - rf.len()] as int);
                assert(in_usable_region(regions, q, all[a] as int));
            }
        }
        assert forall|a: int, b: int| 0 <= a < b < all.len() implies #[trigger] all[a] != #[trigger] all[b] by {
            if b < rf.len() {
                assert(rf[a] == r.start + a * 4096);
                assert(rf[b] == r.start + b * 4096);
            } else if a < rf.len() {
                assert(all[b] == rest[b - rf.len()]);
                assert(in_usable_region_from(regions, i + 1, rest[b - rf.len()] as int));
                let q = choose|q: int| i + 1 <= q && #[trigger] in_usable_region(regions, q, rest[b - rf.len()] as int);
                assert(in_usable_region(regions, i, all[a] as int));
                assert(regions[i].end <= regions[q].start || regions[q].end <= regions[i].start);
            } else {
                assert(all[a] == rest[a - rf.len()]);
                assert(all[b] == rest[b - rf.len()]);
            }
        }
    }
}

/// The frame allocator never hands out a frame twice, and never one
/// outside usable memory: when the usable regions start on frame
/// boundaries and do not overlap (in whatever order the map lists them),
/// the usable frames are pairwise different and each lies inside a usable
/// region.
pub proof fn lemma_usable_frames_distinct(regions: Seq<MemoryRegion>)
    requires
        usable_regions_disjoint(regions),
    ensures
        forall|a: int, b: int| 0 <= a < b < usable_frames(regions).len()
            ==> #[trigger] usable_frames(regions)[a] != #[trigger] usable_frames(regions)[b],
        forall|a: int| 0 <= a < usable_frames(regions).len()
            ==> in_usable_region_from(regions, 0, #[trigger] usable_frames(regions)[a] as int),
{
    lemma_frames_from_disjoint(regions, 0);
}

} // verus!
