//! Page-granular address arithmetic shared by the heap, user-stack and
//! ELF-segment mappings: which 4 KiB pages cover a range of addresses, and
//! the page-table flag bits the kernel sets.
use vstd::prelude::*;

verus! {

/// Size of a page.
pub const PAGE: u64 = 4096;

/// Page-table entry flag: the mapping is present.
pub const PRESENT: u64 = 1;
/// Page-table entry flag: the page may be written.
pub const WRITABLE: u64 = 2;
/// Page-table entry flag: Ring 3 may access the page.
pub const USER_ACCESSIBLE: u64 = 4;
/// Page-table entry flag: instructions may not be fetched from the page.
pub const NO_EXECUTE: u64 = 0x8000_0000_0000_0000;

/// First address above the lower canonical half.
pub const LOWER_HALF_END: u64 = 0x8000_0000_0000;

/// First address of the upper canonical half.
pub const UPPER_HALF_START: u64 = 0xffff_8000_0000_0000;

/// Addresses below this one with bit 47 set are sign-extended into the
/// upper half when made into a virtual address.
pub const SIGN_EXTENDABLE_END: u64 = 0x1_0000_0000_0000;

/// Whether `addr` can be made into a virtual address: it is canonical, or
/// its bits 48..64 are all clear (then bit 47 is copied into them).
pub open spec fn virt_valid(addr: int) -> bool {
    (0 <= addr < SIGN_EXTENDABLE_END) || (UPPER_HALF_START <= addr <= u64::MAX)
}

/// The virtual address made from `addr`: bit 47 copied into bits 48..64.
pub open spec fn sign_extend(addr: int) -> int {
    if LOWER_HALF_END <= addr < SIGN_EXTENDABLE_END {
        addr + 0xffff_0000_0000_0000
    } else {
        addr
    }
}

/// Makes `addr` a virtual address as `VirtAddr::new` does: canonical
/// addresses stay, addresses with bit 47 set and bits 48..64 clear are
/// sign-extended.
pub fn virt_addr(addr: u64) -> (r: u64)
    requires
        virt_valid(addr as int),
    ensures
        r == sign_extend(addr as int),
{
    if LOWER_HALF_END <= addr && addr < SIGN_EXTENDABLE_END {
        addr + 0xffff_0000_0000_0000
    } else {
        addr
    }
}

/// The start of the page containing `addr`.
pub open spec fn page_of(addr: int) -> int {
    addr - addr % (PAGE as int)
}

/// A run of consecutive pages: `count` pages starting at page `first`.
#[derive(Clone, Copy, Debug)]
pub struct PageRange {
    pub first: u64,
    pub count: u64,
}

/// The page range from the page containing `start` to the page containing
/// `end`, both included; empty when `end`'s page lies before `start`'s.
pub open spec fn inclusive_pages(start: int, end: int) -> PageRange {
    PageRange {
        first: page_of(start) as u64,
        count: (if page_of(end) >= page_of(start) {
            (page_of(end) - page_of(start)) / (PAGE as int) + 1
        } else {
            0
        }) as u64,
    }
}

/// The page range from the page containing `start` to the page containing
/// `end`, both included.
pub fn page_range_inclusive(start: u64, end: u64) -> (r: PageRange)
    ensures
        r == inclusive_pages(start as int, end as int),
{
    let first: u64 = start - start % PAGE;
    let last: u64 = end - end % PAGE;
    let count: u64 = if last >= first { (last - first) / PAGE + 1 } else { 0 };
    PageRange { first, count }
}

/// Pages are page aligned, and each one of an inclusive range is the page
/// of an address between the two ends: the range covers `[start, end]` and
/// nothing beyond the pages of its ends.
pub proof fn lemma_inclusive_pages_cover(start: int, end: int, a: int)
    requires
        0 <= start <= a <= end <= u64::MAX,
    ensures
        page_of(start) % (PAGE as int) == 0,
        page_of(a) % (PAGE as int) == 0,
        page_of(start) <= page_of(a) <= page_of(end),
        (page_of(a) - page_of(start)) / (PAGE as int) < inclusive_pages(start, end).count,
        page_of(a) == page_of(start) + ((page_of(a) - page_of(start)) / (PAGE as int)) * (PAGE as int),
{
    let p = PAGE as int;
    vstd::arithmetic::div_mod::lemma_fundamental_div_mod(start, p);
    vstd::arithmetic::div_mod::lemma_fundamental_div_mod(a, p);
    vstd::arithmetic::div_mod::lemma_fundamental_div_mod(end, p);
    vstd::arithmetic::div_mod::lemma_mod_multiples_basic(start / p, p);
    vstd::arithmetic::div_mod::lemma_mod_multiples_basic(a / p, p);
    vstd::arithmetic::div_mod::lemma_mod_multiples_basic(end / p, p);
    vstd::arithmetic::div_mod::lemma_div_is_ordered(start, a, p);
    vstd::arithmetic::div_mod::lemma_div_is_ordered(a, end, p);
    assert(page_of(start) == (start / p) * p);
    assert(page_of(a) == (a / p) * p);
    assert(page_of(end) == (end / p) * p);
    vstd::arithmetic::mul::lemma_mul_inequality(start / p, a / p, p);
    vstd::arithmetic::mul::lemma_mul_inequality(a / p, end / p, p);
    let d = a / p - start / p;
    assert(page_of(a) - page_of(start) == d * p) by {
        vstd::arithmetic::mul::lemma_mul_is_distributive_sub_other_way(p, a / p, start / p);
    }
    vstd::arithmetic::div_mod::lemma_div_multiples_vanish(d, p);
    let e = end / p - start / p;
    assert(page_of(end) - page_of(start) == e * p) by {
        vstd::arithmetic::mul::lemma_mul_is_distributive_sub_other_way(p, end / p, start / p);
    }
    vstd::arithmetic::div_mod::lemma_div_multiples_vanish(e, p);
    assert(d <= e);
    assert(end / p < 0x10_0000_0000_0000) by (nonlinear_arith)
        requires
            0 <= end <= u64::MAX,
            p == 4096;
    assert(start / p >= 0);
}


/// Whether a stack of `pages` pages at `base` can be laid out: `base` is a
/// virtual address, and every address `base + i * 4096` up to the stack top
/// is one too (without leaving the 64-bit range).
pub open spec fn stack_fits(base: int, pages: int) -> bool {
    let b = sign_extend(base);
    &&& virt_valid(base)
    &&& b + pages * (PAGE as int) <= u64::MAX
    &&& b < LOWER_HALF_END ==> b + pages * (PAGE as int) < SIGN_EXTENDABLE_END
}

/// The stack of a user process: for `i < pages` the page holding the
/// virtual address `base + i * 4096`, and the stack top (the virtual
/// address `base + pages * 4096`, where the stack starts growing down).
pub fn user_stack_layout(base: u64, pages: u64) -> (r: (Vec<u64>, u64))
    requires
        stack_fits(base as int, pages as int),
    ensures
        r.0@.len() == pages,
        forall|i: int| 0 <= i < pages ==> #[trigger] r.0@[i] == page_of(
            sign_extend(sign_extend(base as int) + i * (PAGE as int)),
        ),
        r.1 == sign_extend(sign_extend(base as int) + pages * (PAGE as int)),
{
    let b: u64 = virt_addr(base);
    let mut out: Vec<u64> = Vec::new();
    let mut i: u64 = 0;
    while i < pages
        invariant
            stack_fits(base as int, pages as int),
            b == sign_extend(base as int),
            i <= pages,
            out@.len() == i,
            forall|j: int| 0 <= j < i ==> #[trigger] out@[j] == page_of(
                sign_extend(b + j * (PAGE as int)),
            ),
        decreases pages - i,
    {
        assert(i * 4096 <= pages * 4096) by (nonlinear_arith)
            requires
                i <= pages;
        let a: u64 = virt_addr(b + i * PAGE);
        out.push(a - a % PAGE);
        i = i + 1;
    }
    let top: u64 = virt_addr(b + pages * PAGE);
    (out, top)
}

/// The flags of a user stack's pages: present, writable and accessible
/// from Ring 3.
pub fn user_stack_flags() -> (f: u64)
    ensures
        f == PRESENT | WRITABLE | USER_ACCESSIBLE,
        f & PRESENT != 0,
        f & WRITABLE != 0,
        f & USER_ACCESSIBLE != 0,
{
    assert((1u64 | 2u64) | 4u64 == 7u64 && 7u64 & 1u64 != 0 && 7u64 & 2u64 != 0 && 7u64 & 4u64 != 0) by (bit_vector);
    PRESENT | WRITABLE | USER_ACCESSIBLE
}

} // verus!
