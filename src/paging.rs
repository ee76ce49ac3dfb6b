//! Page frames, page-table entries and page tables.
use vstd::prelude::*;
use crate::bits::{align_down, round_down};

verus! {

/// Size of a page and of a frame in bytes.
pub const PAGESIZE: usize = 4096;

/// Number of entries in a page table.
pub const ENTRY_COUNT: usize = 512;

pub const PRESENT: u64 = 1u64 << 0u64;
pub const WRITABLE: u64 = 1u64 << 1u64;
pub const USER_ACCESSIBLE: u64 = 1u64 << 2u64;
pub const WRITE_THROUGH: u64 = 1u64 << 3u64;
pub const NO_CACHE: u64 = 1u64 << 4u64;
pub const ACCESSED: u64 = 1u64 << 5u64;
pub const DIRTY: u64 = 1u64 << 6u64;
pub const HUGE_PAGE: u64 = 1u64 << 7u64;
pub const GLOBAL: u64 = 1u64 << 8u64;
pub const NO_EXECUTE: u64 = 1u64 << 63u64;

/// Every flag an entry can carry.
pub const ALL_FLAGS: u64 = PRESENT | WRITABLE | USER_ACCESSIBLE | WRITE_THROUGH | NO_CACHE
    | ACCESSED | DIRTY | HUGE_PAGE | GLOBAL | NO_EXECUTE;

/// Bits of an entry that hold the physical address it points to.
pub const ADDRESS_MASK: u64 = 0x000f_ffff_ffff_f000;

/// A page of memory set aside in the kernel image.
#[derive(Clone, Copy, Debug)]
pub struct KernelPage(pub [u8; 4096]);

impl KernelPage {
    /// A page of zero bytes.
    pub fn empty() -> (r: KernelPage)
        ensures
            forall|i: int| 0 <= i < 4096 ==> r.0[i] == 0,
    {
        KernelPage([0u8; 4096])
    }
}

/// A 4 KiB physical frame, named by its first address.
#[derive(Clone, Copy, Debug, PartialEq, Eq, Structural)]
pub struct Frame {
    start_address: u64,
}

impl Frame {
    pub closed spec fn spec_start_address(&self) -> u64 {
        self.start_address
    }

    pub closed spec fn wf(&self) -> bool {
        self.start_address % 4096 == 0
    }

    /// A well-formed frame starts on a 4 KiB boundary.
    pub proof fn lemma_wf_aligned(&self)
        requires
            self.wf(),
        ensures
            self.spec_start_address() % 4096 == 0,
    {
    }

    /// The frame that holds `address`.
    pub fn containing_address(address: u64) -> (r: Frame)
        ensures
            r.wf(),
            r.spec_start_address() % 4096 == 0,
            r.spec_start_address() == round_down(address as int, 4096),
    {
        proof {
            crate::bits::lemma_page_sizes_pow2();
            crate::bits::lemma_round_facts(address as int, 4096);
        }
        Frame { start_address: align_down(address, 4096) }
    }

    pub fn start_address(&self) -> (r: u64)
        ensures
            r == self.spec_start_address(),
    {
        self.start_address
    }

    pub fn size(&self) -> (r: u64)
        ensures
            r == PAGESIZE,
    {
        4096
    }

    /// The frame that follows this one in memory. There must be one.
    pub fn next_frame(&self) -> (r: Frame)
        requires
            self.wf(),
            self.spec_start_address() + 4096 <= u64::MAX,
        ensures
            r.wf(),
            r.spec_start_address() % 4096 == 0,
            r.spec_start_address() == self.spec_start_address() + 4096,
    {
        proof {
            crate::bits::lemma_page_sizes_pow2();
            crate::bits::lemma_round_facts(self.start_address + 4096, 4096);
        }
        Frame { start_address: align_down(self.start_address + 4096, 4096) }
    }
}

/// The address an entry's word points to.
pub open spec fn entry_addr(entry: u64) -> u64 {
    entry & ADDRESS_MASK
}

/// The flags an entry's word carries.
pub open spec fn entry_flags(entry: u64) -> u64 {
    entry & ALL_FLAGS
}

/// One entry of a page table: a physical address and flags in one word.
#[derive(Clone, Copy, Debug, PartialEq, Eq, Structural)]
pub struct PageTableEntry {
    entry: u64,
}

impl PageTableEntry {
    /// The raw word.
    pub closed spec fn spec_entry(&self) -> u64 {
        self.entry
    }

    /// An unused entry.
    pub fn new() -> (r: PageTableEntry)
        ensures
            r.spec_entry() == 0,
    {
        PageTableEntry { entry: 0 }
    }

    pub fn is_unused(&self) -> (r: bool)
        ensures
            r == (self.spec_entry() == 0),
    {
        self.entry == 0
    }

    pub fn set_unused(&mut self)
        ensures
            final(self).spec_entry() == 0,
    {
        self.entry = 0;
    }

    /// The entry's flags, address bits and unknown bits dropped.
    pub fn flags(&self) -> (r: u64)
        ensures
            r == entry_flags(self.spec_entry()),
    {
        self.entry & ALL_FLAGS
    }

    /// The physical address the entry points to.
    pub fn addr(&self) -> (r: u64)
        ensures
            r == entry_addr(self.spec_entry()),
    {
        self.entry & ADDRESS_MASK
    }

    /// Points the entry at `frame` with `flags`, which must not mark a huge
    /// page: a huge page maps memory directly instead of a frame.
    pub fn set_frame(&mut self, frame: Frame, flags: u64)
        requires
            frame.wf(),
            flags & HUGE_PAGE == 0,
        ensures
            final(self).spec_entry() == frame.spec_start_address() | flags,
            frame.spec_start_address() < 1u64 << 52u64 && flags & ALL_FLAGS == flags ==> {
                &&& entry_addr(final(self).spec_entry()) == frame.spec_start_address()
                &&& entry_flags(final(self).spec_entry()) == flags
            },
    {
        self.set_addr(frame.start_address(), flags);
    }

    /// Points the entry at the frame-aligned address `addr` with `flags`.
    pub fn set_addr(&mut self, addr: u64, flags: u64)
        requires
            addr % 4096 == 0,
        ensures
            final(self).spec_entry() == addr | flags,
            addr < 1u64 << 52u64 && flags & ALL_FLAGS == flags ==> {
                &&& entry_addr(final(self).spec_entry()) == addr
                &&& entry_flags(final(self).spec_entry()) == flags
            },
    {
        proof {
            assert(ALL_FLAGS == 0x8000_0000_0000_01FFu64) by (bit_vector);
            assert(addr % 4096 == 0 && addr < 1u64 << 52u64 && flags & 0x8000_0000_0000_01FFu64
                == flags ==> ((addr | flags) & 0x000f_ffff_ffff_f000u64 == addr && (addr | flags)
                & 0x8000_0000_0000_01FFu64 == flags)) by (bit_vector);
        }
        self.entry = addr | flags;
    }
}

/// A page table: 512 entries.
#[derive(Clone, Copy, Debug)]
pub struct PageTable {
    entries: [PageTableEntry; 512],
}

impl PageTable {
    pub closed spec fn spec_entries(&self) -> Seq<PageTableEntry> {
        self.entries@
    }

    /// A table whose entries are all unused.
    pub fn new() -> (r: PageTable)
        ensures
            r.spec_entries().len() == ENTRY_COUNT,
            forall|i: int| 0 <= i < ENTRY_COUNT ==> (#[trigger] r.spec_entries()[i]).spec_entry() == 0,
    {
        PageTable { entries: [PageTableEntry { entry: 0 }; 512] }
    }

    /// The entry at `index`.
    pub fn index(&self, index: usize) -> (r: PageTableEntry)
        requires
            index < ENTRY_COUNT,
        ensures
            r == self.spec_entries()[index as int],
    {
        self.entries[index]
    }

    /// Replaces the entry at `index`.
    pub fn index_mut(&mut self, index: usize, entry: PageTableEntry)
        requires
            index < ENTRY_COUNT,
        ensures
            final(self).spec_entries() == old(self).spec_entries().update(index as int, entry),
    {
        self.entries[index] = entry;
    }
}

} // verus!
