use lithium::cpu::{id, Cpu, CpuFrequency, DEFAULT_TSC_HZ};
use lithium::segmentation::{
    GlobalDescriptorTable, SegmentDescriptor, SegmentSelector, TaskStateSegment, KERNEL_CODE64,
    KERNEL_DATA, USER_CODE64, USER_DATA,
};

#[test]
fn flat_segment_constants() {
    assert_eq!(KERNEL_CODE64, 0x00AF_9B00_0000_FFFF);
    assert_eq!(KERNEL_DATA, 0x00CF_9300_0000_FFFF);
    assert_eq!(USER_CODE64, 0x00AF_FB00_0000_FFFF);
    assert_eq!(USER_DATA, 0x00CF_F300_0000_FFFF);
}

#[test]
fn descriptors_carry_their_ring() {
    assert_eq!(SegmentDescriptor::kernel_code_segment().dpl(), 0);
    assert_eq!(SegmentDescriptor::kernel_data_segment().dpl(), 0);
    assert_eq!(SegmentDescriptor::user_code_segment().dpl(), 3);
    assert_eq!(SegmentDescriptor::user_data_segment().dpl(), 3);
    assert_eq!(SegmentDescriptor::tss_segment(0xdead_beef_1234_5678).dpl(), 0);
}

#[test]
fn tss_descriptor_encodes_base_and_limit() {
    let base: u64 = 0xFFFF_8000_0012_3450;
    match SegmentDescriptor::tss_segment(base) {
        SegmentDescriptor::SystemSegment(low, high) => {
            let decoded = ((low >> 16) & 0xFF_FFFF) | (((low >> 56) & 0xFF) << 24) | (high << 32);
            assert_eq!(decoded, base);
            assert_eq!(low & 0xFFFF, 103);
            assert_eq!((low >> 40) & 0xF, 0b1001);
            assert_ne!(low & (1 << 47), 0);
            assert_eq!(high, 0xFFFF_8000);
        }
        SegmentDescriptor::UserSegment(_) => panic!("a task state segment takes two slots"),
    }
}

#[test]
fn tss_after_two_segments() {
    let mut gdt = GlobalDescriptorTable::new();
    let cs = gdt.add_entry(SegmentDescriptor::kernel_code_segment());
    let ds = gdt.add_entry(SegmentDescriptor::kernel_data_segment());
    let ts = gdt.add_entry(SegmentDescriptor::tss_segment(0x1000));
    assert_eq!(cs, SegmentSelector(8));
    assert_eq!(ds, SegmentSelector(16));
    assert_eq!(ts.index(), 3);
    assert_eq!(ts.rpl(), 0);
    assert_eq!(gdt.len(), 5);
    assert_eq!(gdt.entry(0), 0);
    assert_eq!(gdt.entry(1), KERNEL_CODE64);
    assert_eq!(gdt.entry(2), KERNEL_DATA);
}

#[test]
fn user_segment_selectors_request_ring_three() {
    let mut gdt = GlobalDescriptorTable::new();
    let uc = gdt.add_entry(SegmentDescriptor::user_code_segment());
    assert_eq!(uc, SegmentSelector(8 | 3));
    assert_eq!(uc.index(), 1);
    assert_eq!(uc.rpl(), 3);
}

#[test]
fn full_table_refuses_system_segments() {
    let mut gdt = GlobalDescriptorTable::new();
    assert!(gdt.try_add_entry(SegmentDescriptor::tss_segment(0x1000)).is_some());
    assert!(gdt.try_add_entry(SegmentDescriptor::tss_segment(0x2000)).is_some());
    assert!(gdt.try_add_entry(SegmentDescriptor::tss_segment(0x3000)).is_some());
    assert_eq!(gdt.len(), 7);
    assert_eq!(gdt.try_add_entry(SegmentDescriptor::tss_segment(0x4000)), None);
    assert_eq!(gdt.len(), 7);
    let last = gdt.try_add_entry(SegmentDescriptor::kernel_data_segment()).unwrap();
    assert_eq!(last.index(), 7);
    assert_eq!(gdt.try_add_entry(SegmentDescriptor::kernel_data_segment()), None);
    assert_eq!(gdt.len(), 8);
}

#[test]
fn table_pointer_limit() {
    let mut gdt = GlobalDescriptorTable::new();
    gdt.add_entry(SegmentDescriptor::kernel_code_segment());
    let p = gdt.pointer(0xABC000);
    assert_eq!({ p.size }, 15);
    assert_eq!({ p.base }, 0xABC000);
}

#[test]
fn selector_fields() {
    let mut s = SegmentSelector::new(5, 0);
    assert_eq!(s.0, 40);
    s.set_rpl(3);
    assert_eq!(s.0, 43);
    assert_eq!(s.index(), 5);
    assert_eq!(s.rpl(), 3);
    s.set_rpl(1);
    assert_eq!(s.0, 41);
    let mut local = SegmentSelector(0b1_0100);
    local.set_rpl(3);
    assert_eq!(local.0, 0b1_0111);
}

#[test]
fn new_tss_is_zeroed() {
    let tss = TaskStateSegment::new();
    assert_eq!(tss.interrupt_stack_table, [0u64; 7]);
    assert_eq!(tss.privilege_stack_table, [0u64; 3]);
    assert_eq!(tss.iomap_base, 104);
}

#[test]
fn cpu_init_builds_six_segments() {
    let (cpu, sel) = Cpu::init(2, 0x9000, 0x8000, CpuFrequency::Invalid);
    assert_eq!(id(&cpu), 2);
    assert_eq!(sel.code, SegmentSelector(8));
    assert_eq!(sel.data, SegmentSelector(16));
    assert_eq!(sel.task, SegmentSelector(40));
    let gdt = cpu.gdt();
    assert_eq!(gdt.len(), 7);
    assert_eq!(gdt.entry(3), USER_CODE64);
    assert_eq!(gdt.entry(4), USER_DATA);
    assert_eq!(cpu.tss().interrupt_stack_table[0], 0x9000);
    assert_eq!(cpu.irq_mask(), 0xFFFF);
    assert_eq!(cpu.noff(), 0);
}

#[test]
fn cpu_frequency_defaults() {
    assert_eq!(CpuFrequency::Invalid.frequency(), DEFAULT_TSC_HZ);
    assert_eq!(CpuFrequency::CpuIdTscInfo { hz: 3_000_000_000 }.frequency(), 3_000_000_000);
    assert_eq!(CpuFrequency::from_measurement(None), CpuFrequency::Invalid);
    assert_eq!(
        CpuFrequency::from_measurement(Some(1_000)),
        CpuFrequency::CpuIdTscInfo { hz: 1_000 }
    );
    let cpu = Cpu::new();
    assert_eq!(cpu.get_frequency(), 2_000_000_000);
}

#[test]
fn two_pushes_one_pop() {
    let mut cpu = Cpu::new();
    cpu.push_interrupt_off(true);
    cpu.push_interrupt_off(false);
    let reenable = cpu.pop_interrupt_off(false);
    assert!(!reenable);
    assert_eq!(cpu.noff(), 1);
    assert!(cpu.pop_interrupt_off(false));
    assert_eq!(cpu.noff(), 0);
}

#[test]
fn nesting_restores_disabled_state() {
    let mut cpu = Cpu::new();
    cpu.push_interrupt_off(false);
    cpu.push_interrupt_off(false);
    assert!(!cpu.pop_interrupt_off(false));
    assert!(!cpu.pop_interrupt_off(false));
    assert_eq!(cpu.noff(), 0);
}

#[test]
fn nesting_balance_over_sequences() {
    for &enabled in &[true, false] {
        let mut cpu = Cpu::new();
        let mut on = enabled;
        // push push pop push pop pop, then push pop
        let ops = [true, true, false, true, false, false, true, false];
        for &push in &ops {
            if push {
                cpu.push_interrupt_off(on);
                on = false;
            } else {
                on = cpu.pop_interrupt_off(on);
            }
        }
        assert_eq!(on, enabled);
        assert_eq!(cpu.noff(), 0);
    }
}

#[test]
fn outer_state_is_kept_by_inner_scope() {
    let mut cpu = Cpu::new();
    cpu.push_interrupt_off(true);
    assert!(cpu.intena());
    cpu.push_interrupt_off(false);
    assert!(cpu.intena());
}
