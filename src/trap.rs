//! Decisions of the trap pipeline: what a vector means, which controller to
//! acknowledge, the interrupt masks, the words that program the legacy
//! interrupt controller, and the order of bring-up.
use vstd::prelude::*;
use crate::cpu::Cpu;

verus! {

pub const IO_PIC1_COMMAND: u16 = 0x20;
pub const IO_PIC1_DATA: u16 = 0x21;
pub const IO_PIC2_COMMAND: u16 = 0xA0;
pub const IO_PIC2_DATA: u16 = 0xA1;

/// Vector of the first hardware interrupt line.
pub const TRAP_IRQ0: u8 = 0x20;
/// Line of the master controller that the slave is wired to.
pub const IRQ_SLAVE: u8 = 2;
/// Line of the first serial port.
pub const IRQ_COM1: u8 = 4;

pub const CMD_END_OF_INTERRUPT: u8 = 0x20;

/// Vector of the general-protection fault.
pub const VECTOR_GENERAL_PROTECTION: u8 = 13;
/// Vector of the page fault.
pub const VECTOR_PAGE_FAULT: u8 = 14;

/// First command word: a fourth word follows.
pub const ICW1_ICW4: u8 = 0x01;
/// First command word: start initialisation.
pub const ICW1_INIT: u8 = 0x10;
/// Fourth command word: 8086 mode.
pub const ICW4_MODE_8086: u8 = 0x01;

/// What the trap entry does with a vector.
#[derive(Clone, Copy, Debug, PartialEq, Eq, Structural)]
pub enum TrapAction {
    /// Fatal: a general-protection fault.
    GeneralProtection,
    /// Fatal: a page fault.
    PageFault,
    /// Run the handler of this hardware line, then acknowledge it.
    Irq(u8),
    /// Fatal: a vector nothing handles.
    Unknown(u8),
}

pub open spec fn spec_kerneltrap(vector: u8) -> TrapAction {
    if vector == VECTOR_GENERAL_PROTECTION {
        TrapAction::GeneralProtection
    } else if vector == VECTOR_PAGE_FAULT {
        TrapAction::PageFault
    } else if TRAP_IRQ0 <= vector < TRAP_IRQ0 + 16 {
        TrapAction::Irq((vector - TRAP_IRQ0) as u8)
    } else {
        TrapAction::Unknown(vector)
    }
}

/// Decodes the vector of a trap taken in kernel space.
pub fn kerneltrap(vector: u8) -> (r: TrapAction)
    ensures
        r == spec_kerneltrap(vector),
{
    if vector == VECTOR_GENERAL_PROTECTION {
        TrapAction::GeneralProtection
    } else if vector == VECTOR_PAGE_FAULT {
        TrapAction::PageFault
    } else if TRAP_IRQ0 <= vector && vector < TRAP_IRQ0 + 16 {
        TrapAction::Irq(vector - TRAP_IRQ0)
    } else {
        TrapAction::Unknown(vector)
    }
}

impl TrapAction {
    /// Whether the kernel halts on this trap.
    pub fn is_fatal(&self) -> (r: bool)
        ensures
            r == !(*self is Irq),
    {
        !matches!(*self, TrapAction::Irq(_))
    }
}

/// The command port to acknowledge vector `v` on: the master controller's
/// for its eight lines, the slave's for the next eight, none otherwise.
pub fn end_of_interrupt(v: u8) -> (r: Option<u16>)
    ensures
        TRAP_IRQ0 <= v < TRAP_IRQ0 + 8 ==> r == Some(IO_PIC1_COMMAND),
        TRAP_IRQ0 + 8 <= v < TRAP_IRQ0 + 16 ==> r == Some(IO_PIC2_COMMAND),
        !(TRAP_IRQ0 <= v < TRAP_IRQ0 + 16) ==> r is None,
{
    if TRAP_IRQ0 <= v && v < TRAP_IRQ0 + 8 {
        Some(IO_PIC1_COMMAND)
    } else if TRAP_IRQ0 + 8 <= v && v < TRAP_IRQ0 + 16 {
        Some(IO_PIC2_COMMAND)
    } else {
        None
    }
}

/// The bytes to write to the master's and the slave's data ports for
/// `mask`: its low and its high half.
pub fn set_irq_mask(cpu: &mut Cpu, mask: u16) -> (r: (u8, u8))
    ensures
        r.0 == mask % 256,
        r.1 == mask / 256,
        final(cpu).spec_irq_mask() == mask,
        final(cpu).spec_id() == old(cpu).spec_id(),
        final(cpu).spec_noff() == old(cpu).spec_noff(),
        final(cpu).spec_intena() == old(cpu).spec_intena(),
{
    cpu.set_irq_mask(mask);
    assert((mask & 0xff) as u8 == mask % 256 && (mask >> 8u16) as u8 == mask / 256) by (bit_vector);
    ((mask & 0xff) as u8, (mask >> 8u16) as u8)
}

/// `mask` with line `irq` unmasked.
pub open spec fn unmask(mask: u16, irq: u8) -> u16 {
    mask & !((1u16 << irq) as u16)
}

/// Unmasks line `irq`, below 16, and returns the bytes for the data ports.
pub fn enable_irq(cpu: &mut Cpu, irq: u8) -> (r: (u8, u8))
    requires
        irq < 16,
    ensures
        final(cpu).spec_irq_mask() == unmask(old(cpu).spec_irq_mask(), irq),
        r.0 == final(cpu).spec_irq_mask() % 256,
        r.1 == final(cpu).spec_irq_mask() / 256,
        final(cpu).spec_id() == old(cpu).spec_id(),
        final(cpu).spec_noff() == old(cpu).spec_noff(),
        final(cpu).spec_intena() == old(cpu).spec_intena(),
{
    let mask = cpu.irq_mask() & !(1u16 << irq);
    set_irq_mask(cpu, mask)
}

/// The port writes that program both controllers, in order: mask all lines,
/// the four command words of the master and of the slave, then the mask
/// that leaves the cascade line and the serial line open. Records that mask
/// on `cpu`.
pub fn enable_pic8259a(cpu: &mut Cpu) -> (r: Vec<(u16, u8)>)
    ensures
        final(cpu).spec_irq_mask() == 0xFFEB,
        final(cpu).spec_id() == old(cpu).spec_id(),
        final(cpu).spec_noff() == old(cpu).spec_noff(),
        final(cpu).spec_intena() == old(cpu).spec_intena(),
        r@ == seq![
            (IO_PIC1_DATA, 0xFFu8),
            (IO_PIC2_DATA, 0xFFu8),
            (IO_PIC1_COMMAND, ICW1_ICW4 | ICW1_INIT),
            (IO_PIC1_DATA, TRAP_IRQ0),
            (IO_PIC1_DATA, 4u8),
            (IO_PIC1_DATA, ICW4_MODE_8086),
            (IO_PIC2_COMMAND, ICW1_ICW4 | ICW1_INIT),
            (IO_PIC2_DATA, (TRAP_IRQ0 + 8) as u8),
            (IO_PIC2_DATA, IRQ_SLAVE),
            (IO_PIC2_DATA, ICW4_MODE_8086),
            (IO_PIC1_DATA, 0xEBu8),
            (IO_PIC2_DATA, 0xFFu8),
        ],
{
    let mut writes: Vec<(u16, u8)> = Vec::new();
    cpu.set_irq_mask(!(1u16 << IRQ_SLAVE));
    writes.push((IO_PIC1_DATA, 0xFFu8));
    writes.push((IO_PIC2_DATA, 0xFFu8));
    writes.push((IO_PIC1_COMMAND, ICW1_ICW4 | ICW1_INIT));
    writes.push((IO_PIC1_DATA, TRAP_IRQ0));
    writes.push((IO_PIC1_DATA, 1u8 << IRQ_SLAVE));
    writes.push((IO_PIC1_DATA, ICW4_MODE_8086));
    writes.push((IO_PIC2_COMMAND, ICW1_ICW4 | ICW1_INIT));
    writes.push((IO_PIC2_DATA, TRAP_IRQ0 + 8u8));
    writes.push((IO_PIC2_DATA, IRQ_SLAVE));
    writes.push((IO_PIC2_DATA, ICW4_MODE_8086));
    assert((!(1u16 << 2u8)) & !(1u16 << 4u8) == 0xFFEBu16) by (bit_vector);
    let (lo, hi) = enable_irq(cpu, IRQ_COM1);
    assert(cpu.spec_irq_mask() == 0xFFEBu16);
    assert(lo == 0xEBu8 && hi == 0xFFu8);
    writes.push((IO_PIC1_DATA, lo));
    writes.push((IO_PIC2_DATA, hi));
    assert(1u8 << 2u8 == 4u8) by (bit_vector);
    assert(writes@ =~= seq![
        (IO_PIC1_DATA, 0xFFu8),
        (IO_PIC2_DATA, 0xFFu8),
        (IO_PIC1_COMMAND, ICW1_ICW4 | ICW1_INIT),
        (IO_PIC1_DATA, TRAP_IRQ0),
        (IO_PIC1_DATA, 4u8),
        (IO_PIC1_DATA, ICW4_MODE_8086),
        (IO_PIC2_COMMAND, ICW1_ICW4 | ICW1_INIT),
        (IO_PIC2_DATA, (TRAP_IRQ0 + 8) as u8),
        (IO_PIC2_DATA, IRQ_SLAVE),
        (IO_PIC2_DATA, ICW4_MODE_8086),
        (IO_PIC1_DATA, 0xEBu8),
        (IO_PIC2_DATA, 0xFFu8),
    ]);
    writes
}

/// The vector of hardware line `irq`.
pub fn irq_offset_handler(irq: u8) -> (r: usize)
    requires
        irq < 256 - TRAP_IRQ0,
    ensures
        r == TRAP_IRQ0 + irq,
{
    (TRAP_IRQ0 + irq) as usize
}

/// Stages of trap bring-up, in the only order they may come.
#[derive(Clone, Copy, Debug, PartialEq, Eq, Structural)]
pub enum TrapStage {
    Uninitialized,
    IdtLoaded,
    ControllerProgrammed,
    InterruptsEnabled,
}

/// Steps of trap bring-up.
#[derive(Clone, Copy, Debug, PartialEq, Eq, Structural)]
pub enum TrapEvent {
    LoadIdt,
    ProgramController,
    EnableInterrupts,
    /// Unmask one line of the controller.
    UnmaskLine,
}

pub open spec fn spec_next_stage(stage: TrapStage, event: TrapEvent) -> Option<TrapStage> {
    match (stage, event) {
        (TrapStage::Uninitialized, TrapEvent::LoadIdt) => Some(TrapStage::IdtLoaded),
        (TrapStage::IdtLoaded, TrapEvent::ProgramController) => Some(
            TrapStage::ControllerProgrammed,
        ),
        (TrapStage::ControllerProgrammed, TrapEvent::EnableInterrupts) => Some(
            TrapStage::InterruptsEnabled,
        ),
        (TrapStage::ControllerProgrammed, TrapEvent::UnmaskLine) => Some(stage),
        (TrapStage::InterruptsEnabled, TrapEvent::UnmaskLine) => Some(stage),
        _ => None,
    }
}

/// The stage after `event`, or `None` where `event` is out of order: the
/// table of vectors first, then the controller, then interrupts on; lines
/// are unmasked only once the controller is programmed.
pub fn next_stage(stage: TrapStage, event: TrapEvent) -> (r: Option<TrapStage>)
    ensures
        r == spec_next_stage(stage, event),
{
    match (stage, event) {
        (TrapStage::Uninitialized, TrapEvent::LoadIdt) => Some(TrapStage::IdtLoaded),
        (TrapStage::IdtLoaded, TrapEvent::ProgramController) => Some(
            TrapStage::ControllerProgrammed,
        ),
        (TrapStage::ControllerProgrammed, TrapEvent::EnableInterrupts) => Some(
            TrapStage::InterruptsEnabled,
        ),
        (TrapStage::ControllerProgrammed, TrapEvent::UnmaskLine) => Some(stage),
        (TrapStage::InterruptsEnabled, TrapEvent::UnmaskLine) => Some(stage),
        _ => None,
    }
}

} // verus!
