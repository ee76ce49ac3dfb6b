//! Per-core state: identity, clock calibration, descriptor tables and the
//! nesting counter of interrupt-off scopes.
use vstd::prelude::*;
use crate::segmentation::{
    GlobalDescriptorTable, SegmentDescriptor, SegmentSelector, TaskStateSegment, KERNEL_CODE64,
    KERNEL_DATA, USER_CODE64, USER_DATA, tss_low, tss_high, lemma_flat_segment_rings,
};

verus! {

/// Frequency assumed for the timestamp counter when none could be measured.
pub const DEFAULT_TSC_HZ: u64 = 2_000_000_000;

/// Mask of the legacy interrupt controller with every line masked.
pub const IRQ_MASK_ALL: u16 = 0xFFFF;

/// Where the timestamp counter's frequency came from.
#[derive(Clone, Copy, Debug, PartialEq, Eq, Structural)]
pub enum CpuFrequency {
    /// Measured by the processor's timestamp-counter information leaf.
    CpuIdTscInfo { hz: u64 },
    /// No measurement was available.
    Invalid,
}

impl CpuFrequency {
    pub open spec fn spec_frequency(&self) -> u64 {
        match *self {
            CpuFrequency::CpuIdTscInfo { hz } => hz,
            CpuFrequency::Invalid => DEFAULT_TSC_HZ,
        }
    }

    /// The frequency in hertz, the default guess where none was measured.
    pub fn frequency(&self) -> (r: u64)
        ensures
            r == self.spec_frequency(),
    {
        match *self {
            CpuFrequency::CpuIdTscInfo { hz } => hz,
            CpuFrequency::Invalid => DEFAULT_TSC_HZ,
        }
    }

    /// The frequency a measurement gives: its value where there was one.
    pub fn from_measurement(hz: Option<u64>) -> (r: CpuFrequency)
        ensures
            hz matches Some(v) ==> r == (CpuFrequency::CpuIdTscInfo { hz: v }),
            hz is None ==> r == CpuFrequency::Invalid,
    {
        match hz {
            Some(v) => CpuFrequency::CpuIdTscInfo { hz: v },
            None => CpuFrequency::Invalid,
        }
    }
}

/// Interrupt-off bookkeeping after a push: depth, whether interrupts were
/// on before the outermost push, and whether they are on now.
pub open spec fn push_step(noff: int, intena: bool, enabled: bool) -> (int, bool, bool) {
    (noff + 1, if noff == 0 { enabled } else { intena }, false)
}

/// Interrupt-off bookkeeping after a pop: interrupts come back on only when
/// the outermost scope closes and they were on before it opened.
pub open spec fn pop_step(noff: int, intena: bool) -> (int, bool, bool) {
    (noff - 1, intena, noff - 1 == 0 && intena)
}

/// The per-core structure.
#[derive(Clone, Copy, Debug)]
pub struct Cpu {
    id: u32,
    freq: CpuFrequency,
    noff: u32,
    intena: bool,
    tss: TaskStateSegment,
    gdt: GlobalDescriptorTable,
    irq_mask: u16,
}

/// Selectors of the segments `init` installs, to load into the segment
/// registers and the task register.
#[derive(Clone, Copy, Debug)]
pub struct CpuSelectors {
    pub code: SegmentSelector,
    pub data: SegmentSelector,
    pub task: SegmentSelector,
}

impl Cpu {
    pub closed spec fn spec_id(&self) -> u32 {
        self.id
    }

    pub closed spec fn spec_freq(&self) -> CpuFrequency {
        self.freq
    }

    pub closed spec fn spec_tss(&self) -> TaskStateSegment {
        self.tss
    }

    pub closed spec fn spec_gdt(&self) -> GlobalDescriptorTable {
        self.gdt
    }

    /// Mask of the legacy interrupt controller's lines: a set bit masks
    /// its line.
    pub closed spec fn spec_irq_mask(&self) -> u16 {
        self.irq_mask
    }

    /// Depth of interrupt-off nesting.
    pub closed spec fn spec_noff(&self) -> u32 {
        self.noff
    }

    /// Whether interrupts were on before the outermost interrupt-off scope.
    pub closed spec fn spec_intena(&self) -> bool {
        self.intena
    }

    /// Core 0 before initialisation: no frequency, empty tables, every
    /// interrupt line masked.
    pub fn new() -> (r: Cpu)
        ensures
            r.spec_id() == 0,
            r.spec_freq() == CpuFrequency::Invalid,
            r.spec_noff() == 0,
            !r.spec_intena(),
            r.spec_gdt().wf(),
            r.spec_gdt().entries() == seq![0u64],
            r.spec_irq_mask() == IRQ_MASK_ALL,
    {
        Cpu {
            id: 0,
            freq: CpuFrequency::Invalid,
            noff: 0,
            intena: false,
            tss: TaskStateSegment::new(),
            gdt: GlobalDescriptorTable::new(),
            irq_mask: IRQ_MASK_ALL,
        }
    }

    /// The state of core `id`: a task state segment whose first interrupt
    /// stack is `fault_stack_top`, and a descriptor table holding the null,
    /// kernel code, kernel data, user code, user data and task state
    /// segments, the last for a task state segment at `tss_addr`.
    pub fn init(id: u32, fault_stack_top: u64, tss_addr: u64, freq: CpuFrequency) -> (r: (
        Cpu,
        CpuSelectors,
    ))
        ensures
            r.0.spec_id() == id,
            r.0.spec_freq() == freq,
            r.0.spec_noff() == 0,
            !r.0.spec_intena(),
            r.0.spec_irq_mask() == IRQ_MASK_ALL,
            r.0.spec_tss().interrupt_stack_table[0] == fault_stack_top,
            r.0.spec_gdt().wf(),
            r.0.spec_gdt().entries() == seq![
                0u64,
                KERNEL_CODE64,
                KERNEL_DATA,
                USER_CODE64,
                USER_DATA,
                tss_low(tss_addr),
                tss_high(tss_addr),
            ],
            r.1.code == SegmentSelector(8),
            r.1.data == SegmentSelector(16),
            r.1.task == SegmentSelector(40),
    {
        let mut tss = TaskStateSegment::new();
        tss.interrupt_stack_table[0] = fault_stack_top;
        let mut gdt = GlobalDescriptorTable::new();
        proof {
            lemma_flat_segment_rings();
        }
        let code = gdt.add_entry(SegmentDescriptor::kernel_code_segment());
        let data = gdt.add_entry(SegmentDescriptor::kernel_data_segment());
        gdt.add_entry(SegmentDescriptor::user_code_segment());
        gdt.add_entry(SegmentDescriptor::user_data_segment());
        let task = gdt.add_entry(SegmentDescriptor::tss_segment(tss_addr));
        assert(gdt.entries() =~= seq![
            0u64,
            KERNEL_CODE64,
            KERNEL_DATA,
            USER_CODE64,
            USER_DATA,
            tss_low(tss_addr),
            tss_high(tss_addr),
        ]);
        let cpu = Cpu { id, freq, noff: 0, intena: false, tss, gdt, irq_mask: IRQ_MASK_ALL };
        (cpu, CpuSelectors { code, data, task })
    }

    pub fn tss(&self) -> (r: TaskStateSegment)
        ensures
            r == self.spec_tss(),
    {
        self.tss
    }

    pub fn gdt(&self) -> (r: GlobalDescriptorTable)
        ensures
            r == self.spec_gdt(),
    {
        self.gdt
    }

    pub fn irq_mask(&self) -> (r: u16)
        ensures
            r == self.spec_irq_mask(),
    {
        self.irq_mask
    }

    /// Records the mask last written to the interrupt controller.
    pub fn set_irq_mask(&mut self, mask: u16)
        ensures
            final(self).spec_irq_mask() == mask,
            final(self).spec_id() == old(self).spec_id(),
            final(self).spec_freq() == old(self).spec_freq(),
            final(self).spec_noff() == old(self).spec_noff(),
            final(self).spec_intena() == old(self).spec_intena(),
            final(self).spec_tss() == old(self).spec_tss(),
            final(self).spec_gdt() == old(self).spec_gdt(),
    {
        self.irq_mask = mask;
    }

    /// The timestamp counter's frequency in hertz.
    pub fn get_frequency(&self) -> (r: u64)
        ensures
            r == self.spec_freq().spec_frequency(),
    {
        self.freq.frequency()
    }

    /// Depth of interrupt-off nesting.
    pub fn noff(&self) -> (r: u32)
        ensures
            r == self.spec_noff(),
    {
        self.noff
    }

    /// Whether interrupts were on before the outermost interrupt-off scope.
    pub fn intena(&self) -> (r: bool)
        ensures
            r == self.spec_intena(),
    {
        self.intena
    }

    /// Opens an interrupt-off scope. `enabled` is whether interrupts were
    /// on when it was called; the caller disables them.
    pub fn push_interrupt_off(&mut self, enabled: bool)
        requires
            old(self).spec_noff() < u32::MAX,
        ensures
            (final(self).spec_noff() as int, final(self).spec_intena(), false) == push_step(
                old(self).spec_noff() as int,
                old(self).spec_intena(),
                enabled,
            ),
            final(self).spec_id() == old(self).spec_id(),
            final(self).spec_freq() == old(self).spec_freq(),
            final(self).spec_tss() == old(self).spec_tss(),
            final(self).spec_gdt() == old(self).spec_gdt(),
            final(self).spec_irq_mask() == old(self).spec_irq_mask(),
    {
        if self.noff == 0 {
            self.intena = enabled;
        }
        self.noff = self.noff + 1;
    }

    /// Closes an interrupt-off scope, which must be open, with interrupts
    /// off. Returns whether the caller should turn interrupts back on.
    pub fn pop_interrupt_off(&mut self, enabled: bool) -> (r: bool)
        requires
            !enabled,
            old(self).spec_noff() > 0,
        ensures
            (final(self).spec_noff() as int, final(self).spec_intena(), r) == pop_step(
                old(self).spec_noff() as int,
                old(self).spec_intena(),
            ),
            final(self).spec_id() == old(self).spec_id(),
            final(self).spec_freq() == old(self).spec_freq(),
            final(self).spec_tss() == old(self).spec_tss(),
            final(self).spec_gdt() == old(self).spec_gdt(),
            final(self).spec_irq_mask() == old(self).spec_irq_mask(),
    {
        self.noff = self.noff - 1;
        self.noff == 0 && self.intena
    }
}

/// The logical identifier of `cpu`.
pub fn id(cpu: &Cpu) -> (r: u32)
    ensures
        r == cpu.spec_id(),
{
    cpu.id
}

/// Interrupt-off bookkeeping `(noff, intena, enabled)` after `ops`, where
/// `true` is a push and `false` a pop.
pub open spec fn run_scopes(start: (int, bool, bool), ops: Seq<bool>) -> (int, bool, bool)
    decreases ops.len(),
{
    if ops.len() == 0 {
        start
    } else {
        let s = run_scopes(start, ops.drop_last());
        if ops.last() {
            push_step(s.0, s.1, s.2)
        } else {
            pop_step(s.0, s.1)
        }
    }
}

/// Pushes minus pops in `ops`.
pub open spec fn depth(ops: Seq<bool>) -> int
    decreases ops.len(),
{
    if ops.len() == 0 {
        0
    } else {
        depth(ops.drop_last()) + if ops.last() {
            1int
        } else {
            -1int
        }
    }
}

/// No prefix of `ops` pops more scopes than it pushed.
pub open spec fn never_unbalanced(ops: Seq<bool>) -> bool {
    forall|i: int| 0 <= i <= ops.len() ==> depth(#[trigger] ops.take(i)) >= 0
}

proof fn lemma_scopes_invariant(start: (int, bool, bool), ops: Seq<bool>)
    requires
        start.0 == 0,
        never_unbalanced(ops),
    ensures
        run_scopes(start, ops).0 == depth(ops),
        depth(ops) == 0 ==> run_scopes(start, ops).2 == start.2,
        depth(ops) > 0 ==> !run_scopes(start, ops).2 && run_scopes(start, ops).1 == start.2,
    decreases ops.len(),
{
    if ops.len() > 0 {
        let prev = ops.drop_last();
        assert(never_unbalanced(prev)) by {
            assert forall|i: int| 0 <= i <= prev.len() implies depth(#[trigger] prev.take(i)) >= 0 by {
                assert(prev.take(i) =~= ops.take(i));
            }
        }
        lemma_scopes_invariant(start, prev);
        assert(ops.take(ops.len() as int) =~= ops);
    }
}

/// Any sequence of interrupt-off scopes that never closes more than it
/// opened and ends with all closed leaves interrupts as they were before the
/// outermost one opened.
pub proof fn lemma_nesting_balance(enabled: bool, intena: bool, ops: Seq<bool>)
    requires
        never_unbalanced(ops),
        depth(ops) == 0,
    ensures
        run_scopes((0, intena, enabled), ops).0 == 0,
        run_scopes((0, intena, enabled), ops).2 == enabled,
{
    lemma_scopes_invariant((0, intena, enabled), ops);
}

} // verus!
