//! Segment descriptors, selectors, the global descriptor table and the task
//! state segment of x86-64 long mode.
use vstd::prelude::*;

verus! {

/// Number of 64-bit slots in a global descriptor table.
pub const GDT_CAPACITY: usize = 8;

/// Size in bytes of a task state segment as the processor reads it.
pub const TSS_SIZE: u64 = 104;

pub const ACCESSED: u64 = 1u64 << 40u64;
pub const WRITABLE: u64 = 1u64 << 41u64;
pub const CONFORMING: u64 = 1u64 << 42u64;
pub const EXECUTABLE: u64 = 1u64 << 43u64;
pub const USER_SEGMENT: u64 = 1u64 << 44u64;
pub const DPL_RING_3: u64 = 3u64 << 45u64;
pub const PRESENT: u64 = 1u64 << 47u64;
pub const AVAILABLE: u64 = 1u64 << 52u64;
pub const LONG_MODE: u64 = 1u64 << 53u64;
pub const DEFAULT_SIZE: u64 = 1u64 << 54u64;
pub const GRANULARITY: u64 = 1u64 << 55u64;
pub const LIMIT_0_15: u64 = 0xFFFF;
pub const LIMIT_16_19: u64 = 0xFu64 << 48u64;

/// Flags shared by the four flat code and data segments.
pub const COMMON: u64 = USER_SEGMENT | PRESENT | WRITABLE | ACCESSED | LIMIT_0_15 | LIMIT_16_19
    | GRANULARITY;
pub const KERNEL_DATA: u64 = COMMON | DEFAULT_SIZE;
pub const KERNEL_CODE64: u64 = COMMON | EXECUTABLE | LONG_MODE;
pub const USER_DATA: u64 = KERNEL_DATA | DPL_RING_3;
pub const USER_CODE64: u64 = KERNEL_CODE64 | DPL_RING_3;

/// Type field of an available 64-bit task state segment.
pub const TSS_AVAILABLE_TYPE: u64 = 0b1001;

/// The task state segment: stacks the processor switches to on privilege
/// changes and on interrupts that name an interrupt stack.
#[derive(Clone, Copy, Debug)]
pub struct TaskStateSegment {
    pub privilege_stack_table: [u64; 3],
    pub interrupt_stack_table: [u64; 7],
    pub iomap_base: u16,
}

impl TaskStateSegment {
    /// A segment with every stack pointer zero and no I/O permission map.
    pub fn new() -> (r: TaskStateSegment)
        ensures
            forall|i: int| 0 <= i < 3 ==> r.privilege_stack_table[i] == 0,
            forall|i: int| 0 <= i < 7 ==> r.interrupt_stack_table[i] == 0,
            r.iomap_base == TSS_SIZE,
    {
        TaskStateSegment {
            privilege_stack_table: [0u64; 3],
            interrupt_stack_table: [0u64; 7],
            iomap_base: 104,
        }
    }
}

/// The operand of the `lgdt` instruction.
#[derive(Clone, Copy, Debug)]
pub struct DescriptorTablePointer {
    pub size: u16,
    pub base: u64,
}

/// A segment selector: descriptor index in bits 3..16, requested privilege
/// level in bits 0..2.
#[derive(Clone, Copy, Debug, PartialEq, Eq, Structural)]
pub struct SegmentSelector(pub u16);

impl SegmentSelector {
    pub open spec fn spec_index(self) -> u16 {
        self.0 / 8
    }

    pub open spec fn spec_rpl(self) -> u16 {
        self.0 % 4
    }

    /// The selector of descriptor `index` with requested privilege `rpl`.
    pub fn new(index: u16, rpl: u16) -> (r: SegmentSelector)
        requires
            index < 8192,
            rpl < 4,
        ensures
            r.0 == index * 8 + rpl,
            r.spec_index() == index,
            r.spec_rpl() == rpl,
    {
        assert((index << 3u16) | rpl == index * 8 + rpl) by (bit_vector)
            requires
                index < 8192,
                rpl < 4,
        ;
        SegmentSelector((index << 3u16) | rpl)
    }

    pub fn index(self) -> (r: u16)
        ensures
            r == self.spec_index(),
    {
        let v = self.0;
        assert(v >> 3u16 == v / 8) by (bit_vector);
        v >> 3u16
    }

    pub fn rpl(self) -> (r: u16)
        ensures
            r == self.spec_rpl(),
    {
        let v = self.0;
        assert(v & 3u16 == v % 4) by (bit_vector);
        v & 3u16
    }

    /// Replaces the requested privilege level, keeping the index.
    pub fn set_rpl(&mut self, rpl: u16)
        requires
            rpl < 4,
        ensures
            final(self).0 == (old(self).0 & !3u16) | rpl,
            final(self).spec_index() == old(self).spec_index(),
            final(self).spec_rpl() == rpl,
    {
        let v = self.0;
        let w = (v & !3u16) | rpl;
        assert(((v & !3u16) | rpl) / 8 == v / 8 && ((v & !3u16) | rpl) % 4 == rpl) by (bit_vector)
            requires
                rpl < 4,
        ;
        self.0 = w;
    }
}

/// Descriptor privilege level held in bits 45..47 of a descriptor's low word.
pub open spec fn dpl_of(low: u64) -> u16 {
    ((low >> 45u64) & 3u64) as u16
}

/// Low word of the descriptor of a task state segment at `base`.
pub open spec fn tss_low(base: u64) -> u64 {
    PRESENT | ((base & 0xFF_FFFFu64) << 16u64) | (((base >> 24u64) & 0xFFu64) << 56u64) | (
    TSS_SIZE - 1) as u64 | (TSS_AVAILABLE_TYPE << 40u64)
}

/// High word of the descriptor of a task state segment at `base`.
pub open spec fn tss_high(base: u64) -> u64 {
    base >> 32u64
}

/// The base address a system descriptor gives, from its two words.
pub open spec fn system_base(low: u64, high: u64) -> u64 {
    ((low >> 16u64) & 0xFF_FFFFu64) | (((low >> 56u64) & 0xFFu64) << 24u64) | (high << 32u64)
}

/// The 16-bit limit a descriptor gives, from its low word.
pub open spec fn limit_low(low: u64) -> u64 {
    low & 0xFFFFu64
}

/// A segment descriptor: one word for code and data segments, two for system
/// segments such as a task state segment.
#[derive(Clone, Copy, Debug, PartialEq, Eq, Structural)]
pub enum SegmentDescriptor {
    UserSegment(u64),
    SystemSegment(u64, u64),
}

impl SegmentDescriptor {
    /// The word that holds the privilege level.
    pub open spec fn low_word(self) -> u64 {
        match self {
            SegmentDescriptor::UserSegment(v) => v,
            SegmentDescriptor::SystemSegment(v, _) => v,
        }
    }

    /// The words the descriptor occupies in a table, in order.
    pub open spec fn words(self) -> Seq<u64> {
        match self {
            SegmentDescriptor::UserSegment(v) => seq![v],
            SegmentDescriptor::SystemSegment(lo, hi) => seq![lo, hi],
        }
    }

    pub open spec fn spec_dpl(self) -> u16 {
        dpl_of(self.low_word())
    }

    /// The descriptor privilege level, 0 to 3.
    pub fn dpl(self) -> (r: u16)
        ensures
            r == self.spec_dpl(),
            r < 4,
    {
        let value_low = match self {
            SegmentDescriptor::UserSegment(v) => v,
            SegmentDescriptor::SystemSegment(v, _) => v,
        };
        assert((value_low & DPL_RING_3) >> 45u64 == (value_low >> 45u64) & 3u64) by (bit_vector);
        assert((value_low >> 45u64) & 3u64 < 4) by (bit_vector);
        ((value_low & DPL_RING_3) >> 45u64) as u16
    }

    pub fn kernel_code_segment() -> (r: SegmentDescriptor)
        ensures
            r == SegmentDescriptor::UserSegment(KERNEL_CODE64),
    {
        SegmentDescriptor::UserSegment(KERNEL_CODE64)
    }

    pub fn kernel_data_segment() -> (r: SegmentDescriptor)
        ensures
            r == SegmentDescriptor::UserSegment(KERNEL_DATA),
    {
        SegmentDescriptor::UserSegment(KERNEL_DATA)
    }

    pub fn user_data_segment() -> (r: SegmentDescriptor)
        ensures
            r == SegmentDescriptor::UserSegment(USER_DATA),
    {
        SegmentDescriptor::UserSegment(USER_DATA)
    }

    pub fn user_code_segment() -> (r: SegmentDescriptor)
        ensures
            r == SegmentDescriptor::UserSegment(USER_CODE64),
    {
        SegmentDescriptor::UserSegment(USER_CODE64)
    }

    /// The descriptor of an available 64-bit task state segment that starts
    /// at address `base`.
    pub fn tss_segment(base: u64) -> (r: SegmentDescriptor)
        ensures
            r == SegmentDescriptor::SystemSegment(tss_low(base), tss_high(base)),
            system_base(tss_low(base), tss_high(base)) == base,
            limit_low(tss_low(base)) == TSS_SIZE - 1,
            r.spec_dpl() == 0,
    {
        let low = PRESENT | ((base & 0xFF_FFFFu64) << 16u64) | (((base >> 24u64) & 0xFFu64) << 56u64)
            | (TSS_SIZE - 1) | (TSS_AVAILABLE_TYPE << 40u64);
        let high = base >> 32u64;
        proof {
            lemma_tss_fields(base);
        }
        SegmentDescriptor::SystemSegment(low, high)
    }
}

impl SegmentDescriptor {
    /// Number of table slots the descriptor occupies.
    pub open spec fn spec_slots(self) -> nat {
        self.words().len()
    }

    pub fn slots(&self) -> (r: usize)
        ensures
            r == self.spec_slots(),
    {
        match self {
            SegmentDescriptor::UserSegment(_) => 1,
            SegmentDescriptor::SystemSegment(_, _) => 2,
        }
    }
}

/// A global descriptor table of `GDT_CAPACITY` slots. Slot 0 holds the null
/// descriptor; descriptors are appended after it.
#[derive(Clone, Copy, Debug)]
pub struct GlobalDescriptorTable {
    table: [u64; 8],
    len: usize,
}

impl GlobalDescriptorTable {
    /// The words written so far, the null descriptor first.
    pub closed spec fn entries(&self) -> Seq<u64> {
        self.table@.take(self.len as int)
    }

    pub closed spec fn wf(&self) -> bool {
        &&& 1 <= self.len <= GDT_CAPACITY
        &&& self.table@[0] == 0
    }

    /// A table that holds only the null descriptor.
    pub fn new() -> (r: GlobalDescriptorTable)
        ensures
            r.wf(),
            r.entries() == seq![0u64],
    {
        let r = GlobalDescriptorTable { table: [0u64; 8], len: 1 };
        assert(r.entries() =~= seq![0u64]);
        r
    }

    /// Number of slots in use, the null descriptor included.
    pub fn len(&self) -> (r: usize)
        requires
            self.wf(),
        ensures
            r == self.entries().len(),
    {
        self.len
    }

    /// The word in slot `index`.
    pub fn entry(&self, index: usize) -> (r: u64)
        requires
            self.wf(),
            index < self.entries().len(),
        ensures
            r == self.entries()[index as int],
    {
        self.table[index]
    }

    fn push(&mut self, value: u64) -> (index: usize)
        requires
            old(self).wf(),
            old(self).len < GDT_CAPACITY,
        ensures
            final(self).wf(),
            index == old(self).len,
            final(self).len == old(self).len + 1,
            final(self).entries() == old(self).entries().push(value),
    {
        let index = self.len;
        self.table[index] = value;
        self.len = self.len + 1;
        assert(self.entries() =~= old(self).entries().push(value));
        index
    }

    /// Appends `entry` and returns the selector that names it, at the
    /// entry's own privilege level. The table must have room for it: a
    /// system segment takes two slots, any other one.
    pub fn add_entry(&mut self, entry: SegmentDescriptor) -> (r: SegmentSelector)
        requires
            old(self).wf(),
            old(self).entries().len() + entry.spec_slots() <= GDT_CAPACITY,
        ensures
            final(self).wf(),
            final(self).entries() == old(self).entries() + entry.words(),
            r.0 == old(self).entries().len() * 8 + entry.spec_dpl(),
            r.spec_index() == old(self).entries().len(),
            r.spec_rpl() == entry.spec_dpl(),
    {
        let index = match entry {
            SegmentDescriptor::UserSegment(value) => self.push(value),
            SegmentDescriptor::SystemSegment(value_low, value_high) => {
                let index = self.push(value_low);
                self.push(value_high);
                index
            },
        };
        assert(self.entries() =~= old(self).entries() + entry.words());
        let dpl = entry.dpl();
        SegmentSelector::new(index as u16, dpl)
    }

    /// What `try_add_entry` leaves: the entry appended and its selector
    /// where the table has room for it, the table as it was and `None` where
    /// not.
    pub open spec fn try_add_entry_result(
        before: GlobalDescriptorTable,
        entry: SegmentDescriptor,
        r: Option<SegmentSelector>,
        after: GlobalDescriptorTable,
    ) -> bool {
        &&& after.wf()
        &&& before.entries().len() + entry.spec_slots() <= GDT_CAPACITY ==> {
            &&& r is Some
            &&& after.entries() == before.entries() + entry.words()
            &&& r == Some(SegmentSelector((before.entries().len() * 8 + entry.spec_dpl()) as u16))
            &&& r->0.spec_index() == before.entries().len()
            &&& r->0.spec_rpl() == entry.spec_dpl()
        }
        &&& before.entries().len() + entry.spec_slots() > GDT_CAPACITY ==> {
            &&& r is None
            &&& after == before
        }
    }

    /// Appends `entry` where the table has room for it and returns its
    /// selector; leaves the table as it is and returns `None` where not.
    pub fn try_add_entry(&mut self, entry: SegmentDescriptor) -> (r: Option<SegmentSelector>)
        requires
            old(self).wf(),
        ensures
            Self::try_add_entry_result(*old(self), entry, r, *final(self)),
    {
        if self.len + entry.slots() > GDT_CAPACITY {
            None
        } else {
            Some(self.add_entry(entry))
        }
    }

    /// The operand that loads this table, given the address it lives at.
    pub fn pointer(&self, base: u64) -> (r: DescriptorTablePointer)
        requires
            self.wf(),
        ensures
            r.size == self.entries().len() * 8 - 1,
            r.base == base,
    {
        DescriptorTablePointer { size: (self.len * 8 - 1) as u16, base }
    }
}

/// A table with fewer than two free slots refuses a system segment and stays
/// as it was; it never keeps half of one.
pub proof fn lemma_gdt_refuses_system_segment_when_full(
    before: GlobalDescriptorTable,
    after: GlobalDescriptorTable,
    low: u64,
    high: u64,
    r: Option<SegmentSelector>,
)
    requires
        before.wf(),
        GDT_CAPACITY - before.entries().len() < 2,
        GlobalDescriptorTable::try_add_entry_result(
            before,
            SegmentDescriptor::SystemSegment(low, high),
            r,
            after,
        ),
    ensures
        r is None,
        after == before,
{
}

proof fn lemma_tss_fields(base: u64)
    ensures
        system_base(tss_low(base), tss_high(base)) == base,
        limit_low(tss_low(base)) == TSS_SIZE - 1,
        dpl_of(tss_low(base)) == 0,
{
    assert(((((1u64 << 47u64) | ((base & 0xFF_FFFFu64) << 16u64) | (((base >> 24u64) & 0xFFu64)
        << 56u64) | 103u64 | (9u64 << 40u64)) >> 16u64) & 0xFF_FFFFu64) | ((((((1u64 << 47u64) | ((
    base & 0xFF_FFFFu64) << 16u64) | (((base >> 24u64) & 0xFFu64) << 56u64) | 103u64 | (9u64
        << 40u64)) >> 56u64) & 0xFFu64) << 24u64)) | ((base >> 32u64) << 32u64) == base)
        by (bit_vector);
    assert((((1u64 << 47u64) | ((base & 0xFF_FFFFu64) << 16u64) | (((base >> 24u64) & 0xFFu64)
        << 56u64) | 103u64 | (9u64 << 40u64)) & 0xFFFFu64) == 103u64) by (bit_vector);
    assert((((((1u64 << 47u64) | ((base & 0xFF_FFFFu64) << 16u64) | (((base >> 24u64) & 0xFFu64)
        << 56u64) | 103u64 | (9u64 << 40u64)) >> 45u64) & 3u64) as u16) == 0u16) by (bit_vector);
}

/// The four flat segments carry the ring they are built for: 0 for the
/// kernel's code and data, 3 for the user's.
pub proof fn lemma_flat_segment_rings()
    ensures
        SegmentDescriptor::UserSegment(KERNEL_CODE64).spec_dpl() == 0,
        SegmentDescriptor::UserSegment(KERNEL_DATA).spec_dpl() == 0,
        SegmentDescriptor::UserSegment(USER_CODE64).spec_dpl() == 3,
        SegmentDescriptor::UserSegment(USER_DATA).spec_dpl() == 3,
{
    assert(((((1u64 << 44u64) | (1u64 << 47u64) | (1u64 << 41u64) | (1u64 << 40u64) | 0xFFFFu64
        | (0xFu64 << 48u64) | (1u64 << 55u64) | (1u64 << 43u64) | (1u64 << 53u64)) >> 45u64) & 3u64)
        as u16 == 0u16) by (bit_vector);
    assert(((((1u64 << 44u64) | (1u64 << 47u64) | (1u64 << 41u64) | (1u64 << 40u64) | 0xFFFFu64
        | (0xFu64 << 48u64) | (1u64 << 55u64) | (1u64 << 54u64)) >> 45u64) & 3u64) as u16 == 0u16)
        by (bit_vector);
    assert(((((1u64 << 44u64) | (1u64 << 47u64) | (1u64 << 41u64) | (1u64 << 40u64) | 0xFFFFu64
        | (0xFu64 << 48u64) | (1u64 << 55u64) | (1u64 << 43u64) | (1u64 << 53u64) | (3u64
        << 45u64)) >> 45u64) & 3u64) as u16 == 3u16) by (bit_vector);
    assert(((((1u64 << 44u64) | (1u64 << 47u64) | (1u64 << 41u64) | (1u64 << 40u64) | 0xFFFFu64
        | (0xFu64 << 48u64) | (1u64 << 55u64) | (1u64 << 54u64) | (3u64 << 45u64)) >> 45u64)
        & 3u64) as u16 == 3u16) by (bit_vector);
}

} // verus!
