use lithium::pci::CapabilityInfo;
use lithium::virtio::{VirtioCapabilities, VirtioPciCapability};

fn cap(offset: u8, id: u8, len: u8, kind: u8) -> CapabilityInfo {
    CapabilityInfo { offset, id, private_header: (kind as u16) << 8 | len as u16 }
}

#[test]
fn first_capability_of_each_kind_wins() {
    let mut c = VirtioCapabilities::new();
    c.add(cap(0x40, 0x09, 16, 1), 0x0000_0004, 0x1000, 0x38, 0);
    c.add(cap(0x50, 0x09, 16, 1), 0x0000_0002, 0x9000, 0x38, 0);
    c.add(cap(0x60, 0x09, 20, 2), 0x0000_0104, 0x3000, 0x1000, 4);
    c.add(cap(0x70, 0x09, 16, 3), 0x04, 0x2000, 0x1000, 0);
    c.add(cap(0x80, 0x09, 16, 4), 0x04, 0x4000, 0x1000, 0);
    assert_eq!(c.common_cfg, Some(VirtioPciCapability { bar: 4, offset: 0x1000, length: 0x38 }));
    assert_eq!(c.notify_cfg, Some(VirtioPciCapability { bar: 4, offset: 0x3000, length: 0x1000 }));
    assert_eq!(c.notify_off_multiplier, 4);
    assert_eq!(c.isr_cfg, Some(VirtioPciCapability { bar: 4, offset: 0x2000, length: 0x1000 }));
    assert_eq!(c.device_cfg, Some(VirtioPciCapability { bar: 4, offset: 0x4000, length: 0x1000 }));
}

#[test]
fn other_capabilities_are_ignored() {
    let mut c = VirtioCapabilities::new();
    c.add(cap(0x40, 0x11, 16, 1), 4, 0x1000, 0x38, 0);
    c.add(cap(0x50, 0x09, 15, 1), 4, 0x1000, 0x38, 0);
    c.add(cap(0x60, 0x09, 16, 5), 4, 0x1000, 0x38, 0);
    assert_eq!(c, VirtioCapabilities::new());
}
