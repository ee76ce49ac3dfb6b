use lithium::cpu::Cpu;
use lithium::spinlock::{SpinMutex, Spinlock};
use lithium::trap::{
    enable_irq, enable_pic8259a, end_of_interrupt, irq_offset_handler, kerneltrap, next_stage,
    set_irq_mask, TrapAction, TrapEvent, TrapStage,
};

#[test]
fn traps_decode_by_vector() {
    assert_eq!(kerneltrap(13), TrapAction::GeneralProtection);
    assert_eq!(kerneltrap(14), TrapAction::PageFault);
    assert_eq!(kerneltrap(0x24), TrapAction::Irq(4));
    assert_eq!(kerneltrap(0x20), TrapAction::Irq(0));
    assert_eq!(kerneltrap(0x2F), TrapAction::Irq(15));
    assert_eq!(kerneltrap(0x30), TrapAction::Unknown(0x30));
    assert_eq!(kerneltrap(3), TrapAction::Unknown(3));
    assert!(kerneltrap(13).is_fatal());
    assert!(kerneltrap(14).is_fatal());
    assert!(kerneltrap(0xFF).is_fatal());
    assert!(!kerneltrap(0x21).is_fatal());
}

#[test]
fn end_of_interrupt_picks_controller() {
    assert_eq!(end_of_interrupt(0x20), Some(0x20));
    assert_eq!(end_of_interrupt(0x27), Some(0x20));
    assert_eq!(end_of_interrupt(0x28), Some(0xA0));
    assert_eq!(end_of_interrupt(0x2F), Some(0xA0));
    assert_eq!(end_of_interrupt(0x30), None);
    assert_eq!(end_of_interrupt(14), None);
}

#[test]
fn irq_masks() {
    let mut cpu = Cpu::new();
    assert_eq!(set_irq_mask(&mut cpu, 0xABCD), (0xCD, 0xAB));
    assert_eq!(cpu.irq_mask(), 0xABCD);
    let mut cpu = Cpu::new();
    assert_eq!(enable_irq(&mut cpu, 4), (0xEF, 0xFF));
    assert_eq!(enable_irq(&mut cpu, 9), (0xEF, 0xFD));
    assert_eq!(cpu.irq_mask(), 0xFDEF);
    assert_eq!(irq_offset_handler(4), 0x24);
}

#[test]
fn pic_programming_sequence() {
    let mut cpu = Cpu::new();
    let writes = enable_pic8259a(&mut cpu);
    assert_eq!(
        writes,
        vec![
            (0x21, 0xFF),
            (0xA1, 0xFF),
            (0x20, 0x11),
            (0x21, 0x20),
            (0x21, 0x04),
            (0x21, 0x01),
            (0xA0, 0x11),
            (0xA1, 0x28),
            (0xA1, 0x02),
            (0xA1, 0x01),
            (0x21, 0xEB),
            (0xA1, 0xFF),
        ]
    );
    assert_eq!(cpu.irq_mask(), 0xFFEB);
}

#[test]
fn trap_bring_up_order() {
    let s = next_stage(TrapStage::Uninitialized, TrapEvent::LoadIdt).unwrap();
    assert_eq!(next_stage(s, TrapEvent::UnmaskLine), None);
    assert_eq!(next_stage(s, TrapEvent::EnableInterrupts), None);
    let s = next_stage(s, TrapEvent::ProgramController).unwrap();
    assert_eq!(next_stage(s, TrapEvent::UnmaskLine), Some(TrapStage::ControllerProgrammed));
    let s = next_stage(s, TrapEvent::EnableInterrupts).unwrap();
    assert_eq!(s, TrapStage::InterruptsEnabled);
    assert_eq!(next_stage(s, TrapEvent::LoadIdt), None);
    assert_eq!(next_stage(TrapStage::Uninitialized, TrapEvent::ProgramController), None);
}

#[test]
fn spinlock_holds_interrupts_off() {
    let mut cpu = Cpu::new();
    let mut lock = Spinlock::new("frames");
    assert_eq!(lock.name(), "frames");
    assert!(!lock.holding(&cpu));
    lock.acquire(&mut cpu, true);
    assert!(lock.holding(&cpu));
    assert_eq!(cpu.noff(), 1);
    assert!(lock.release(&mut cpu, false));
    assert!(!lock.holding(&cpu));
    assert_eq!(cpu.noff(), 0);
}

#[test]
fn nested_locks_reenable_once() {
    let mut cpu = Cpu::new();
    let mut a = SpinMutex::new("a", 7u32);
    let mut b = SpinMutex::new("b", 9u32);
    a.acquire(&mut cpu, true);
    b.acquire(&mut cpu, false);
    assert_eq!(*a.get(&cpu), 7);
    assert!(b.holding(&cpu));
    assert_eq!(b.replace(&cpu, 11), 9);
    assert_eq!(*b.get(&cpu), 11);
    assert!(!b.release(&mut cpu, false));
    assert!(a.release(&mut cpu, false));
    assert!(!a.holding(&cpu));
    assert!(!a.lock_ref().holding(&cpu));
}
