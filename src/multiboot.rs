//! The memory map a multiboot loader hands over: entries of a size word,
//! a base address, a length and a type, packed little-endian.
use vstd::prelude::*;
use crate::bits::{align_up, align_down, round_up, round_down};

verus! {

/// Bit of the information flags that says a memory map is present.
pub const INFO_MEM_MAP: u32 = 1 << 6;

/// Bytes of one entry after its size word, as this loader writes them.
pub const AREA_BYTES: usize = 24;

/// The kind of a memory area.
#[derive(Clone, Copy, Debug, PartialEq, Eq, Structural)]
pub enum MemoryAreaType {
    Invalid,
    Available,
    Reserved,
    AcpiReclaimable,
    ReservedHibernate,
    Defective,
}

impl MemoryAreaType {
    pub open spec fn spec_from_u32(v: u32) -> MemoryAreaType {
        if v == 1 {
            MemoryAreaType::Available
        } else if v == 2 {
            MemoryAreaType::Reserved
        } else if v == 3 {
            MemoryAreaType::AcpiReclaimable
        } else if v == 4 {
            MemoryAreaType::ReservedHibernate
        } else if v == 5 {
            MemoryAreaType::Defective
        } else {
            MemoryAreaType::Invalid
        }
    }

    /// The kind a type word names; an unknown word is invalid.
    pub fn from_u32(v: u32) -> (r: MemoryAreaType)
        ensures
            r == Self::spec_from_u32(v),
    {
        if v == 1 {
            MemoryAreaType::Available
        } else if v == 2 {
            MemoryAreaType::Reserved
        } else if v == 3 {
            MemoryAreaType::AcpiReclaimable
        } else if v == 4 {
            MemoryAreaType::ReservedHibernate
        } else if v == 5 {
            MemoryAreaType::Defective
        } else {
            MemoryAreaType::Invalid
        }
    }

    /// The name the boot log prints for the kind.
    pub fn name(&self) -> (r: &'static str)
        ensures
            *self == MemoryAreaType::Invalid ==> r == "INVALID",
            *self == MemoryAreaType::Available ==> r == "AVAILABLE",
            *self == MemoryAreaType::Reserved ==> r == "RESERVED",
            *self == MemoryAreaType::AcpiReclaimable ==> r == "ACPI_RECLAIMABLE",
            *self == MemoryAreaType::ReservedHibernate ==> r == "RESERVED_HIBERNATE",
            *self == MemoryAreaType::Defective ==> r == "DEFECTIVE",
    {
        match *self {
            MemoryAreaType::Invalid => "INVALID",
            MemoryAreaType::Available => "AVAILABLE",
            MemoryAreaType::Reserved => "RESERVED",
            MemoryAreaType::AcpiReclaimable => "ACPI_RECLAIMABLE",
            MemoryAreaType::ReservedHibernate => "RESERVED_HIBERNATE",
            MemoryAreaType::Defective => "DEFECTIVE",
        }
    }
}

/// One entry of the memory map.
#[derive(Clone, Copy, Debug, PartialEq, Eq, Structural)]
pub struct MemoryArea {
    pub size: u32,
    pub addr: u64,
    pub len: u64,
    pub area_type: MemoryAreaType,
}

impl MemoryArea {
    /// The first page boundary at or after the area's base.
    pub fn start_address(&self) -> (r: u64)
        requires
            round_up(self.addr as int, 4096) <= u64::MAX,
        ensures
            r == round_up(self.addr as int, 4096),
    {
        proof {
            crate::bits::lemma_page_sizes_pow2();
        }
        align_up(self.addr, 4096)
    }

    /// The last page boundary at or before the area's end.
    pub fn end_address(&self) -> (r: u64)
        requires
            self.addr + self.len <= u64::MAX,
        ensures
            r == round_down(self.addr + self.len, 4096),
    {
        proof {
            crate::bits::lemma_page_sizes_pow2();
        }
        align_down(self.addr + self.len, 4096)
    }

    /// The length of the area in bytes.
    pub fn size(&self) -> (r: u64)
        ensures
            r == self.len,
    {
        self.len
    }

    pub fn area_type(&self) -> (r: MemoryAreaType)
        ensures
            r == self.area_type,
    {
        self.area_type
    }
}

/// The little-endian 32-bit word at `i` of `b`.
pub open spec fn le_u32(b: Seq<u8>, i: int) -> u32 {
    (b[i] as int + b[i + 1] as int * 0x100 + b[i + 2] as int * 0x10000 + b[i + 3] as int
        * 0x1000000) as u32
}

/// The little-endian 64-bit word at `i` of `b`.
pub open spec fn le_u64(b: Seq<u8>, i: int) -> u64 {
    (le_u32(b, i) as int + le_u32(b, i + 4) as int * 0x1_0000_0000) as u64
}

fn read_u32(b: &[u8], i: usize) -> (r: u32)
    requires
        i + 4 <= b@.len(),
    ensures
        r == le_u32(b@, i as int),
{
    (b[i] as u32) + (b[i + 1] as u32) * 0x100 + (b[i + 2] as u32) * 0x10000 + (b[i + 3] as u32)
        * 0x1000000
}

fn read_u64(b: &[u8], i: usize) -> (r: u64)
    requires
        i + 8 <= b@.len(),
    ensures
        r == le_u64(b@, i as int),
{
    let n = b.len();
    assert(i + 4 <= n);
    (read_u32(b, i) as u64) + (read_u32(b, i + 4) as u64) * 0x1_0000_0000
}

/// The entry whose size word sits at `i` of `b`.
pub open spec fn area_at(b: Seq<u8>, i: int) -> MemoryArea {
    MemoryArea {
        size: le_u32(b, i),
        addr: le_u64(b, i + 4),
        len: le_u64(b, i + 12),
        area_type: MemoryAreaType::spec_from_u32(le_u32(b, i + 20)),
    }
}

/// A walk over the memory map: the offset of the next entry and the map's
/// length.
#[derive(Clone, Copy, Debug)]
pub struct MemoryAreaIter {
    pub current_area: usize,
    pub last_area: usize,
}

/// The loader's information block, as far as memory is concerned.
#[derive(Clone, Copy, Debug)]
pub struct MultibootInformation {
    pub flags: u32,
    pub mem_lower: u32,
    pub mem_upper: u32,
    pub mmap_length: u32,
    pub mmap_addr: u32,
    pub boot_loader_name: u32,
}

impl MultibootInformation {
    /// Whether the loader supplied a memory map.
    pub fn has_memory_map(&self) -> (r: bool)
        ensures
            r == (self.flags & INFO_MEM_MAP != 0),
    {
        self.flags & INFO_MEM_MAP != 0
    }

    /// A walk over the memory map from its first entry.
    pub fn memory_areas(&self) -> (r: MemoryAreaIter)
        ensures
            r.current_area == 0,
            r.last_area == self.mmap_length,
    {
        MemoryAreaIter { current_area: 0, last_area: self.mmap_length as usize }
    }
}

impl MemoryAreaIter {
    /// The next entry of `map`, the bytes of the memory map, and the walk
    /// moved past it. The walk ends at the map's end, at an entry that does
    /// not fit in `map`, and at an entry of an invalid kind.
    pub fn next(&mut self, map: &[u8]) -> (r: Option<MemoryArea>)
        requires
            old(self).last_area <= map@.len(),
        ensures
            final(self).last_area == old(self).last_area,
            old(self).current_area >= old(self).last_area || old(self).current_area + AREA_BYTES
                > old(self).last_area ==> r is None && *final(self) == *old(self),
            old(self).current_area < old(self).last_area && old(self).current_area + AREA_BYTES
                <= old(self).last_area ==> {
                let a = area_at(map@, old(self).current_area as int);
                &&& old(self).current_area + a.size + 4 <= old(self).last_area
                    ==> final(self).current_area == old(self).current_area + a.size + 4
                &&& old(self).current_area + a.size + 4 > old(self).last_area
                    ==> final(self).current_area == old(self).last_area
                &&& r == if a.area_type == MemoryAreaType::Invalid {
                    None
                } else {
                    Some(a)
                }
            },
    {
        if self.current_area >= self.last_area || AREA_BYTES > self.last_area - self.current_area {
            return None;
        }
        let i = self.current_area;
        let size = read_u32(map, i);
        let addr = read_u64(map, i + 4);
        let len = read_u64(map, i + 12);
        let kind = MemoryAreaType::from_u32(read_u32(map, i + 20));
        let step = size as u64 + 4;
        if step <= (self.last_area - i) as u64 {
            self.current_area = i + step as usize;
        } else {
            self.current_area = self.last_area;
        }
        let area = MemoryArea { size, addr, len, area_type: kind };
        if matches!(kind, MemoryAreaType::Invalid) {
            None
        } else {
            Some(area)
        }
    }
}

} // verus!
