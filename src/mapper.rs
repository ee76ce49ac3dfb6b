//! The arithmetic of mapping a virtual range onto a physical one: which
//! pages it covers, which frame backs each, and where each page's entries
//! sit in the four-level table hierarchy.
use vstd::prelude::*;
use crate::bits::{align_down, align_up, is_pow2, round_down, round_up, lemma_round_facts, lemma_pow2_positive};
use vstd::arithmetic::div_mod::lemma_fundamental_div_mod;
use crate::paging::{PRESENT, WRITABLE, NO_EXECUTE};

verus! {

/// Virtual base of the direct map of physical memory.
pub const HIGH_HALF_DIRECT_MAP: u64 = 0xFFFF800000000000;

/// Virtual base of the kernel heap.
pub const HEAP_START: u64 = 0x444444440000;

/// Size in bytes of the kernel heap.
pub const HEAP_SIZE: u64 = 1024 * 1024;

/// The end of the pages that cover `[va, va + size)`: `va + size` rounded up
/// to a page, or the page that holds `va` where the range is empty.
pub open spec fn plan_end(va: int, size: int, page_size: int) -> int {
    if size == 0 {
        round_down(va, page_size)
    } else {
        round_up(va + size, page_size)
    }
}

/// Number of pages of `page_size` bytes that cover `[va, va + size)`.
pub open spec fn page_count(va: int, size: int, page_size: int) -> int {
    (plan_end(va, size, page_size) - round_down(va, page_size)) / page_size
}

/// Page `i` of the range and the frame that backs it: the page at `i`
/// pages past the one that holds `va`, the frame that holds `pa` moved by
/// the same amount.
pub open spec fn planned(va: int, pa: int, page_size: int, i: int) -> (u64, u64) {
    (
        (round_down(va, page_size) + i * page_size) as u64,
        round_down(pa + i * page_size, page_size) as u64,
    )
}

/// The pages of `page_size` bytes that mapping `size` bytes at `va` onto
/// `pa` installs: every page that covers `[va, va + size)`, in address
/// order, each with the frame at the same offset from `pa`. The last page
/// and the last frame must fit in 64 bits.
pub fn map_plan(va: u64, pa: u64, size: u64, page_size: u64) -> (r: Vec<(u64, u64)>)
    requires
        is_pow2(page_size as int),
        va + size <= u64::MAX,
        plan_end(va as int, size as int, page_size as int) <= u64::MAX,
        size > 0 ==> pa + plan_end(va as int, size as int, page_size as int) - round_down(
            va as int,
            page_size as int,
        ) - page_size <= u64::MAX,
    ensures
        r@.len() == page_count(va as int, size as int, page_size as int),
        forall|i: int| 0 <= i < r@.len() ==> #[trigger] r@[i] == planned(
            va as int,
            pa as int,
            page_size as int,
            i,
        ),
{
    let ghost d = page_size as int;
    proof {
        lemma_pow2_positive(d);
        lemma_round_facts(va as int, d);
        lemma_round_facts(va + size, d);
    }
    let start_page = align_down(va, page_size);
    let end_page = if size == 0 {
        start_page
    } else {
        align_up(va + size, page_size)
    };
    let ghost count = page_count(va as int, size as int, d);
    proof {
        lemma_page_count(va as int, size as int, d);
    }
    let mut plan: Vec<(u64, u64)> = Vec::new();
    let mut page = start_page;
    let ghost mut i: int = 0;
    while page < end_page
        invariant
            0 < d == page_size,
            is_pow2(d),
            start_page == round_down(va as int, d),
            end_page == plan_end(va as int, size as int, d),
            start_page <= end_page,
            (end_page - start_page) == count * d,
            count > 0 ==> pa + end_page - start_page - d <= u64::MAX,
            0 <= i <= count,
            page == start_page + i * d,
            plan@.len() == i,
            forall|j: int| 0 <= j < i ==> #[trigger] plan@[j] == planned(
                va as int,
                pa as int,
                d,
                j,
            ),
        decreases end_page - page,
    {
        proof {
            lemma_step(i, count, d);
        }
        let offset = page - start_page;
        let frame = align_down(pa + offset, page_size);
        plan.push((page, frame));
        proof {
            vstd::arithmetic::mul::lemma_mul_is_distributive_add_other_way(d, i, 1);
        }
        page = page + page_size;
        proof {
            i = i + 1;
        }
    }
    proof {
        if i < count {
            lemma_step(i, count, d);
        }
    }
    plan
}

proof fn lemma_page_count(va: int, size: int, d: int)
    requires
        0 <= va,
        0 <= size,
        0 < d,
    ensures
        round_down(va, d) <= plan_end(va, size, d),
        plan_end(va, size, d) - round_down(va, d) == page_count(va, size, d) * d,
        page_count(va, size, d) >= 0,
        size == 0 ==> page_count(va, size, d) == 0,
{
    lemma_round_facts(va, d);
    lemma_round_facts(va + size, d);
    let a = va / d;
    if size == 0 {
        vstd::arithmetic::div_mod::lemma_div_multiples_vanish(0, d);
    } else {
        let e = round_up(va + size, d);
        assert(e % d == 0);
        lemma_fundamental_div_mod(e, d);
        let b = e / d;
        assert(round_down(va, d) <= e);
        assert(e == d * b);
        vstd::arithmetic::mul::lemma_mul_is_distributive_sub(d, b, a);
        assert(e - round_down(va, d) == d * (b - a));
        vstd::arithmetic::mul::lemma_mul_is_commutative(d, b - a);
        if b - a < 0 {
            vstd::arithmetic::mul::lemma_mul_strict_inequality(b - a, 0, d);
        }
        vstd::arithmetic::div_mod::lemma_div_multiples_vanish(b - a, d);
    }
}

proof fn lemma_step(i: int, count: int, d: int)
    requires
        0 <= i,
        0 < d,
    ensures
        i < count ==> (i + 1) * d <= count * d,
        i >= count ==> i * d >= count * d,
        i * d + d == (i + 1) * d,
        0 <= i * d,
{
    vstd::arithmetic::mul::lemma_mul_is_distributive_add_other_way(d, i, 1);
    if i < count {
        vstd::arithmetic::mul::lemma_mul_inequality(i + 1, count, d);
    } else {
        vstd::arithmetic::mul::lemma_mul_inequality(count, i, d);
    }
    vstd::arithmetic::mul::lemma_mul_nonnegative(i, d);
}

pub const SIZE_4KIB: u64 = 0x1000;
pub const SIZE_2MIB: u64 = 0x20_0000;
pub const SIZE_1GIB: u64 = 0x4000_0000;

/// Size of the direct map of physical memory.
pub const DIRECT_MAP_SIZE: u64 = 0x1_0000_0000;

/// Physical memory below this address is mapped one to one.
pub const PHYS_STOP: u64 = 0xE000000;

/// Devices are mapped from this physical address up.
pub const DEVICE_START: u64 = 0xFE000000;

/// Where the kernel image and physical memory lie.
#[derive(Clone, Copy, Debug, PartialEq, Eq, Structural)]
pub struct PhysicalMemoryLayout {
    pub kernel_start: u64,
    pub data_start: u64,
    pub kernel_end: u64,
    pub phys_stop: u64,
    pub device_start: u64,
}

/// One request to map `size` bytes at `va` onto `pa` with pages of
/// `page_size` bytes and entry flags `flags`.
#[derive(Clone, Copy, Debug, PartialEq, Eq, Structural)]
pub struct Mapping {
    pub va: u64,
    pub pa: u64,
    pub size: u64,
    pub page_size: u64,
    pub flags: u64,
}

impl PhysicalMemoryLayout {
    /// The layout of an image whose text starts at `kernel_start`, whose
    /// data starts at `data_start` and which ends at `kernel_end`.
    pub fn new(kernel_start: u64, data_start: u64, kernel_end: u64) -> (r: PhysicalMemoryLayout)
        ensures
            r.kernel_start == kernel_start,
            r.data_start == data_start,
            r.kernel_end == kernel_end,
            r.phys_stop == PHYS_STOP,
            r.device_start == DEVICE_START,
    {
        PhysicalMemoryLayout {
            kernel_start,
            data_start,
            kernel_end,
            phys_stop: PHYS_STOP,
            device_start: DEVICE_START,
        }
    }

    /// The span of the kernel image.
    pub fn kernel_region(&self) -> (r: crate::memory::PhysRegion)
        requires
            self.kernel_start <= self.kernel_end,
            self.kernel_end - self.kernel_start <= usize::MAX,
        ensures
            r.start_address == self.kernel_start,
            r.size == self.kernel_end - self.kernel_start,
    {
        crate::memory::PhysRegion {
            start_address: self.kernel_start,
            size: (self.kernel_end - self.kernel_start) as usize,
        }
    }

    /// The mappings of the kernel's own page table, in the order they are
    /// made: the first 4 GiB of physical memory at the high-half base in
    /// 1 GiB pages, writable and not executable; the text one to one,
    /// present only, so read-only and executable; data and bss one to one up
    /// to the next 2 MiB boundary, writable and not executable; the rest of
    /// physical memory below `phys_stop` one to one in 2 MiB pages, writable
    /// and not executable.
    pub fn kernel_mappings(&self) -> (r: Vec<Mapping>)
        requires
            self.kernel_start <= self.data_start <= self.kernel_end,
            round_up(self.kernel_end as int, SIZE_2MIB as int) <= self.phys_stop,
        ensures
            r@ == seq![
                Mapping {
                    va: HIGH_HALF_DIRECT_MAP,
                    pa: 0,
                    size: DIRECT_MAP_SIZE,
                    page_size: SIZE_1GIB,
                    flags: PRESENT | NO_EXECUTE | WRITABLE,
                },
                Mapping {
                    va: self.kernel_start,
                    pa: self.kernel_start,
                    size: (self.data_start - self.kernel_start) as u64,
                    page_size: SIZE_4KIB,
                    flags: PRESENT,
                },
                Mapping {
                    va: self.data_start,
                    pa: self.data_start,
                    size: (round_up(self.kernel_end as int, SIZE_2MIB as int) - self.data_start) as u64,
                    page_size: SIZE_4KIB,
                    flags: PRESENT | NO_EXECUTE | WRITABLE,
                },
                Mapping {
                    va: round_up(self.kernel_end as int, SIZE_2MIB as int) as u64,
                    pa: round_up(self.kernel_end as int, SIZE_2MIB as int) as u64,
                    size: (self.phys_stop - round_up(self.kernel_end as int, SIZE_2MIB as int)) as u64,
                    page_size: SIZE_2MIB,
                    flags: PRESENT | NO_EXECUTE | WRITABLE,
                },
            ],
    {
        proof {
            crate::bits::lemma_page_sizes_pow2();
            lemma_round_facts(self.kernel_end as int, SIZE_2MIB as int);
        }
        let data_rw = PRESENT | NO_EXECUTE | WRITABLE;
        let kernel_top = align_up(self.kernel_end, SIZE_2MIB);
        let mut r: Vec<Mapping> = Vec::new();
        r.push(
            Mapping {
                va: HIGH_HALF_DIRECT_MAP,
                pa: 0,
                size: DIRECT_MAP_SIZE,
                page_size: SIZE_1GIB,
                flags: data_rw,
            },
        );
        r.push(
            Mapping {
                va: self.kernel_start,
                pa: self.kernel_start,
                size: self.data_start - self.kernel_start,
                page_size: SIZE_4KIB,
                flags: PRESENT,
            },
        );
        r.push(
            Mapping {
                va: self.data_start,
                pa: self.data_start,
                size: kernel_top - self.data_start,
                page_size: SIZE_4KIB,
                flags: data_rw,
            },
        );
        r.push(
            Mapping {
                va: kernel_top,
                pa: kernel_top,
                size: self.phys_stop - kernel_top,
                page_size: SIZE_2MIB,
                flags: data_rw,
            },
        );
        assert(r@ =~= seq![
            Mapping {
                va: HIGH_HALF_DIRECT_MAP,
                pa: 0,
                size: DIRECT_MAP_SIZE,
                page_size: SIZE_1GIB,
                flags: PRESENT | NO_EXECUTE | WRITABLE,
            },
            Mapping {
                va: self.kernel_start,
                pa: self.kernel_start,
                size: (self.data_start - self.kernel_start) as u64,
                page_size: SIZE_4KIB,
                flags: PRESENT,
            },
            Mapping {
                va: self.data_start,
                pa: self.data_start,
                size: (round_up(self.kernel_end as int, SIZE_2MIB as int) - self.data_start) as u64,
                page_size: SIZE_4KIB,
                flags: PRESENT | NO_EXECUTE | WRITABLE,
            },
            Mapping {
                va: round_up(self.kernel_end as int, SIZE_2MIB as int) as u64,
                pa: round_up(self.kernel_end as int, SIZE_2MIB as int) as u64,
                size: (self.phys_stop - round_up(self.kernel_end as int, SIZE_2MIB as int)) as u64,
                page_size: SIZE_2MIB,
                flags: PRESENT | NO_EXECUTE | WRITABLE,
            },
        ]);
        r
    }
}

/// The mapping of the kernel heap onto `region`, which must hold at least
/// `HEAP_SIZE` bytes: at the heap's virtual base, writable and not
/// executable, in 4 KiB pages.
pub fn heap_mapping(region: crate::memory::PhysRegion) -> (r: Mapping)
    requires
        region.size >= HEAP_SIZE,
    ensures
        r == (Mapping {
            va: HEAP_START,
            pa: region.start_address,
            size: region.size as u64,
            page_size: SIZE_4KIB,
            flags: PRESENT | WRITABLE | NO_EXECUTE,
        }),
{
    Mapping {
        va: HEAP_START,
        pa: region.start_address,
        size: region.size as u64,
        page_size: SIZE_4KIB,
        flags: PRESENT | WRITABLE | NO_EXECUTE,
    }
}

/// Index of the entry for `va` in the table of level `level`, 1 for the
/// last level up to 4 for the root.
pub open spec fn table_index(va: u64, level: u64) -> u64 {
    (va >> (12 + 9 * (level - 1)) as u64) & 511
}

/// The index of the entry for `va` in the table of level `level`, 1 to 4.
pub fn page_table_index(va: u64, level: u64) -> (r: usize)
    requires
        1 <= level <= 4,
    ensures
        r == table_index(va, level),
        r < 512,
{
    let shift = 12 + 9 * (level - 1);
    let v = (va >> shift) & 511;
    assert(v < 512) by (bit_vector)
        requires
            v == (va >> shift) & 511,
    ;
    v as usize
}

} // verus!
