use lithium::console::{
    ConsoleInputBuffer, ctrl, disable_echo, enable_echo, is_echo_enabled, keypress, translate_input, Color, Console,
    Style, Uart, COM1,
};
use lithium::mapper::{
    heap_mapping, map_plan, page_table_index, Mapping, PhysicalMemoryLayout, HEAP_SIZE, HEAP_START,
};
use lithium::memory::PhysRegion;
use lithium::multiboot::{MemoryAreaType, MultibootInformation};
use lithium::paging::{Frame, KernelPage, PageTable, PageTableEntry, NO_EXECUTE, PRESENT, WRITABLE};
use lithium::pci::{config_address, find_device, DeviceConfig};

#[test]
fn control_characters() {
    assert_eq!(ctrl(b'H'), 0x08);
    assert_eq!(ctrl(b'U'), 0x15);
    assert_eq!(ctrl(b'@'), 0);
}

#[test]
fn uart_ports_and_bring_up() {
    let u = Uart::new(COM1);
    assert_eq!(u.port_data(), 0x3F8);
    assert_eq!(u.port_line_status(), 0x3FD);
    assert_eq!(
        u.init(),
        vec![
            (0x3F9, 0x00),
            (0x3FB, 0x80),
            (0x3F8, 0x03),
            (0x3F9, 0x00),
            (0x3FB, 0x03),
            (0x3FA, 0xC7),
            (0x3FC, 0x0B),
            (0x3F9, 0x01),
        ]
    );
    assert_eq!(u.send(0x7F), vec![0x08, b' ', 0x08]);
    assert_eq!(u.send(0x08), vec![0x08, b' ', 0x08]);
    assert_eq!(u.send(b'a'), vec![b'a']);
    assert!(u.can_send(0x20));
    assert!(!u.can_send(0x01));
    assert!(u.can_receive(0x61));
}

#[test]
fn serial_input_translation() {
    assert_eq!(translate_input(0xFF), None);
    assert_eq!(translate_input(b'\r'), Some('\n'));
    assert_eq!(translate_input(0x7F), Some('\x08'));
    assert_eq!(translate_input(b'x'), Some('x'));
}

#[test]
fn keypress_echo_and_backspace() {
    let mut c = Console::new();
    assert!(is_echo_enabled(&c));
    assert_eq!(keypress(&mut c, 'a'), vec!['a']);
    assert_eq!(keypress(&mut c, '\x03'), vec!['^', 'C']);
    assert_eq!(keypress(&mut c, 'é'), vec!['é']);
    assert_eq!(c.stdin(), vec!['a', '\x03', 'é']);
    assert_eq!(keypress(&mut c, '\x08'), vec!['\x08', '\x08']);
    assert_eq!(keypress(&mut c, '\x08'), vec!['\x08', '\x08']);
    assert_eq!(keypress(&mut c, '\x08'), vec!['\x08']);
    assert_eq!(keypress(&mut c, '\x08'), Vec::<char>::new());
    disable_echo(&mut c);
    assert!(!is_echo_enabled(&c));
    assert_eq!(keypress(&mut c, 'b'), Vec::<char>::new());
    assert_eq!(c.stdin(), vec!['b']);
    enable_echo(&mut c);
    assert_eq!(keypress(&mut c, '\x1b'), vec!['^', '[']);
}

#[test]
fn style_escapes() {
    let s: String = Style::new().foreground(Color::Green).escape().into_iter().collect();
    assert_eq!(s, "\x1b[32m");
    let s: String = Style::new()
        .foreground(Color::Yellow)
        .background(Color::White)
        .escape()
        .into_iter()
        .collect();
    assert_eq!(s, "\x1b[93;107m");
    let s: String = Style::reset().escape().into_iter().collect();
    assert_eq!(s, "\x1b[0m");
    let s: String = Style::new().background(Color::Black).escape().into_iter().collect();
    assert_eq!(s, "\x1b[40m");
}

#[test]
fn frames_and_entries() {
    let f = Frame::containing_address(0x12345);
    assert_eq!(f.start_address(), 0x12000);
    assert_eq!(f.size(), 4096);
    assert_eq!(f.next_frame().start_address(), 0x13000);
    let mut e = PageTableEntry::new();
    assert!(e.is_unused());
    e.set_frame(f, PRESENT | WRITABLE | NO_EXECUTE);
    assert_eq!(e.addr(), 0x12000);
    assert_eq!(e.flags(), PRESENT | WRITABLE | NO_EXECUTE);
    e.set_unused();
    assert!(e.is_unused());
    let mut t = PageTable::new();
    assert!(t.index(511).is_unused());
    let mut used = PageTableEntry::new();
    used.set_addr(0x20_0000, PRESENT);
    t.index_mut(3, used);
    assert_eq!(t.index(3).addr(), 0x20_0000);
    assert!(t.index(2).is_unused());
    assert_eq!(KernelPage::empty().0[4095], 0);
}

#[test]
fn mapping_plan_pairs_pages_with_frames() {
    let plan = map_plan(0x40_0000, 0x10_0000, 0x3000, 0x1000);
    assert_eq!(plan, vec![(0x40_0000, 0x10_0000), (0x40_1000, 0x10_1000), (0x40_2000, 0x10_2000)]);
    // A partial last page is covered too.
    let plan = map_plan(0x40_0800, 0x10_0000, 0x1000, 0x1000);
    assert_eq!(plan, vec![(0x40_0000, 0x10_0000), (0x40_1000, 0x10_1000)]);
    assert_eq!(map_plan(0, 0, 1, 4096), vec![(0, 0)]);
    assert_eq!(map_plan(0x1000, 0x5000, 0x1001, 0x1000), vec![(0x1000, 0x5000), (0x2000, 0x6000)]);
    assert_eq!(map_plan(0x1000, 0x1000, 0, 0x1000), vec![]);
    assert_eq!(map_plan(0x1800, 0x1000, 0, 0x1000), vec![]);
    let huge = map_plan(0, 0x4000_0000, 0x40_0000, 0x20_0000);
    assert_eq!(huge, vec![(0, 0x4000_0000), (0x20_0000, 0x4020_0000)]);
}

#[test]
fn table_indices() {
    let va: u64 = 0xFFFF_8000_4020_3000;
    assert_eq!(page_table_index(va, 4), 256);
    assert_eq!(page_table_index(va, 3), 1);
    assert_eq!(page_table_index(va, 2), 1);
    assert_eq!(page_table_index(va, 1), 3);
}

#[test]
fn kernel_layout_mappings() {
    let layout = PhysicalMemoryLayout::new(0x10_0000, 0x14_0000, 0x18_0000);
    let m = layout.kernel_mappings();
    assert_eq!(m.len(), 4);
    assert_eq!(
        m[0],
        Mapping {
            va: 0xFFFF_8000_0000_0000,
            pa: 0,
            size: 0x1_0000_0000,
            page_size: 0x4000_0000,
            flags: PRESENT | NO_EXECUTE | WRITABLE,
        }
    );
    assert_eq!(
        m[1],
        Mapping { va: 0x10_0000, pa: 0x10_0000, size: 0x4_0000, page_size: 0x1000, flags: PRESENT }
    );
    assert_eq!(
        m[2],
        Mapping {
            va: 0x14_0000,
            pa: 0x14_0000,
            size: 0x20_0000 - 0x14_0000,
            page_size: 0x1000,
            flags: PRESENT | NO_EXECUTE | WRITABLE,
        }
    );
    assert_eq!(
        m[3],
        Mapping {
            va: 0x20_0000,
            pa: 0x20_0000,
            size: 0xE00_0000 - 0x20_0000,
            page_size: 0x20_0000,
            flags: PRESENT | NO_EXECUTE | WRITABLE,
        }
    );
    let k = layout.kernel_region();
    assert_eq!(k.start_address, 0x10_0000);
    assert_eq!(k.size, 0x8_0000);
}

fn entry(size: u32, addr: u64, len: u64, kind: u32) -> Vec<u8> {
    let mut v = Vec::new();
    v.extend_from_slice(&size.to_le_bytes());
    v.extend_from_slice(&addr.to_le_bytes());
    v.extend_from_slice(&len.to_le_bytes());
    v.extend_from_slice(&kind.to_le_bytes());
    v
}

#[test]
fn memory_map_walk() {
    let mut map = entry(20, 0, 0x9_FC00, 1);
    map.extend(entry(20, 0x10_0000, 0x7EE_0000, 1));
    map.extend(entry(20, 0xFFFC_0000, 0x4_0000, 2));
    let info = MultibootInformation {
        flags: 1 << 6,
        mem_lower: 639,
        mem_upper: 130048,
        mmap_length: map.len() as u32,
        mmap_addr: 0x9000,
        boot_loader_name: 0,
    };
    assert!(info.has_memory_map());
    let mut it = info.memory_areas();
    let a = it.next(&map).unwrap();
    assert_eq!(a.addr, 0);
    assert_eq!(a.size(), 0x9_FC00);
    assert_eq!(a.end_address(), 0x9_F000);
    assert_eq!(a.area_type(), MemoryAreaType::Available);
    let b = it.next(&map).unwrap();
    assert_eq!(b.start_address(), 0x10_0000);
    let c = it.next(&map).unwrap();
    assert_eq!(c.area_type(), MemoryAreaType::Reserved);
    assert_eq!(c.area_type().name(), "RESERVED");
    assert_eq!(it.next(&map), None);
}

#[test]
fn memory_map_stops_at_invalid_entry() {
    let mut map = entry(20, 0x1000, 0x1000, 0);
    map.extend(entry(20, 0x2000, 0x1000, 1));
    let info = MultibootInformation {
        flags: 0,
        mem_lower: 0,
        mem_upper: 0,
        mmap_length: map.len() as u32,
        mmap_addr: 0,
        boot_loader_name: 0,
    };
    assert!(!info.has_memory_map());
    let mut it = info.memory_areas();
    assert_eq!(it.next(&map), None);
    assert_eq!(MemoryAreaType::from_u32(9), MemoryAreaType::Invalid);
    assert_eq!(MemoryAreaType::from_u32(3), MemoryAreaType::AcpiReclaimable);
}

#[test]
fn pci_addresses_and_headers() {
    assert_eq!(config_address(0, 3, 0, 0x10), 0x8000_1810);
    assert_eq!(config_address(1, 0, 2, 0x3F), 0x8001_023C);
    let d = DeviceConfig::new(
        0,
        3,
        0,
        0x1000_1AF4,
        0x0010_0007,
        0x0200_0001,
        0x0080_0000,
        0x0000_010B,
        [0xC001, 0, 0, 0, 0xFEBF_0000, 0],
    );
    assert_eq!(d.vendor_id, 0x1AF4);
    assert_eq!(d.device_id, 0x1000);
    assert_eq!(d.command, 0x0007);
    assert_eq!(d.status, 0x0010);
    assert_eq!(d.revision, 1);
    assert_eq!(d.class, 2);
    assert_eq!(d.subclass, 0);
    assert_eq!(d.header_type, 0x80);
    assert_eq!(d.interrupt_line, 0x0B);
    assert_eq!(d.interrupt_pin, 0x01);
    assert!(d.is_present());
    assert!(d.is_multifunction());
    assert_eq!(d.config_address(0x04), 0x8000_1804);
    assert_eq!(DeviceConfig::enable_bus_mastering(0x0003), 0x0007);
    let mut caps = d.capabilities(0x0000_0098).unwrap();
    assert_eq!(caps.next_capability_offset, Some(0x98));
    let c = caps.next(0x1003_8409).unwrap();
    assert_eq!((c.offset, c.id, c.private_header), (0x98, 0x09, 0x1003));
    assert_eq!(caps.next_capability_offset, Some(0x84));
    let c = caps.next(0x0000_0011).unwrap();
    assert_eq!(c.offset, 0x84);
    assert_eq!(caps.next(0), None);
    let absent = DeviceConfig::new(0, 4, 0, 0xFFFF_FFFF, 0, 0, 0, 0, [0; 6]);
    assert!(!absent.is_present());
    assert!(absent.capabilities(0x40).is_none());
    let found = find_device(&vec![absent, d], 0x1AF4, 0x1000).unwrap();
    assert_eq!(found.device, 3);
    assert!(find_device(&vec![absent], 0x1AF4, 0x1000).is_none());
}

#[test]
fn input_line_discipline() {
    let mut b = ConsoleInputBuffer::new(true);
    assert_eq!(b.interrupt(b'h'), vec!['h']);
    assert_eq!(b.interrupt(b'i'), vec!['i']);
    assert_eq!(b.committed(), Vec::<char>::new());
    assert_eq!(b.read(), None);
    assert_eq!(b.interrupt(b'\r'), vec!['\n']);
    assert_eq!(b.committed(), vec!['h', 'i', '\n']);
    assert_eq!(b.interrupt(b'x'), vec!['x']);
    assert_eq!(b.interrupt(b'y'), vec!['y']);
    assert_eq!(b.interrupt(0x15), vec!['\x08', '\x08']);
    assert_eq!(b.interrupt(0), Vec::<char>::new());
    assert_eq!(b.interrupt(0x04), vec!['\x04']);
    assert_eq!(b.committed(), vec!['h', 'i', '\n', '\x04']);
    assert_eq!(b.read(), Some('h'));
    b.set_echo(false);
    assert_eq!(b.interrupt(b'z'), Vec::<char>::new());
}

#[test]
fn input_buffer_fills_then_refuses() {
    let mut b = ConsoleInputBuffer::new(false);
    for _ in 0..255 {
        b.interrupt(b'a');
    }
    assert_eq!(b.committed().len(), 0);
    b.interrupt(b'a');
    assert_eq!(b.committed().len(), 256);
    b.interrupt(b'b');
    assert_eq!(b.committed().len(), 256);
    assert_eq!(b.read(), Some('a'));
    b.interrupt(b'c');
    assert_eq!(b.committed().len(), 256);
    assert_eq!(b.committed()[255], 'c');
}

#[test]
fn heap_is_mapped_writable_not_executable() {
    let m = heap_mapping(PhysRegion::new(0x80_0000, HEAP_SIZE as usize));
    assert_eq!(
        m,
        Mapping {
            va: HEAP_START,
            pa: 0x80_0000,
            size: HEAP_SIZE,
            page_size: 4096,
            flags: PRESENT | WRITABLE | NO_EXECUTE,
        }
    );
}
