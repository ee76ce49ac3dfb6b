//! Finding a virtio device's configuration structures among its PCI
//! capabilities.
use vstd::prelude::*;
use crate::pci::{CapabilityInfo, PCI_CAP_ID_VNDR};

verus! {

pub const VIRTIO_VENDOR_ID: u16 = 0x1AF4;
pub const VIRTIO_NET_DEVICE_ID: u16 = 0x1000;

/// Offset of the `bar` field within a virtio capability.
pub const VIRTIO_PCI_CAP_BAR_OFFSET: u8 = 4;
/// Offset of the `offset` field within a virtio capability.
pub const VIRTIO_PCI_CAP_OFFSET_OFFSET: u8 = 8;
/// Offset of the `length` field within a virtio capability.
pub const VIRTIO_PCI_CAP_LENGTH_OFFSET: u8 = 12;
/// Offset of `notify_off_multiplier` within a notification capability.
pub const VIRTIO_PCI_CAP_NOTIFY_OFF_MULTIPLIER_OFFSET: u8 = 16;

/// Common configuration.
pub const VIRTIO_PCI_CAP_COMMON_CFG: u8 = 1;
/// Notifications.
pub const VIRTIO_PCI_CAP_NOTIFY_CFG: u8 = 2;
/// Interrupt status.
pub const VIRTIO_PCI_CAP_ISR_CFG: u8 = 3;
/// Device-specific configuration.
pub const VIRTIO_PCI_CAP_DEVICE_CFG: u8 = 4;

/// Where one configuration structure lives: a base address register, an
/// offset into it and a length.
#[derive(Clone, Copy, Debug, PartialEq, Eq, Structural)]
pub struct VirtioPciCapability {
    pub bar: u8,
    pub offset: u32,
    pub length: u32,
}

/// The configuration structures found so far; the first capability of
/// each kind wins.
#[derive(Clone, Copy, Debug, PartialEq, Eq, Structural)]
pub struct VirtioCapabilities {
    pub common_cfg: Option<VirtioPciCapability>,
    pub notify_cfg: Option<VirtioPciCapability>,
    pub notify_off_multiplier: u32,
    pub isr_cfg: Option<VirtioPciCapability>,
    pub device_cfg: Option<VirtioPciCapability>,
}

/// Keeps `current` where a structure of its kind was found already.
pub open spec fn first_of(current: Option<VirtioPciCapability>, found: VirtioPciCapability) -> Option<
    VirtioPciCapability,
> {
    if current is Some {
        current
    } else {
        Some(found)
    }
}

/// What `add` leaves after seeing capability `cap`, with the words read at
/// its offsets 4, 8, 12 and 16.
pub open spec fn spec_add(
    caps: VirtioCapabilities,
    cap: CapabilityInfo,
    bar_word: u32,
    offset_word: u32,
    length_word: u32,
    notify_word: u32,
) -> VirtioCapabilities {
    let cap_len = cap.private_header % 0x100;
    let cfg_type = cap.private_header / 0x100;
    let info = VirtioPciCapability { bar: (bar_word % 0x100) as u8, offset: offset_word, length: length_word };
    if cap.id != PCI_CAP_ID_VNDR || cap_len < 16 {
        caps
    } else if cfg_type == VIRTIO_PCI_CAP_COMMON_CFG {
        VirtioCapabilities { common_cfg: first_of(caps.common_cfg, info), ..caps }
    } else if cfg_type == VIRTIO_PCI_CAP_NOTIFY_CFG {
        VirtioCapabilities {
            notify_cfg: first_of(caps.notify_cfg, info),
            notify_off_multiplier: notify_word,
            ..caps
        }
    } else if cfg_type == VIRTIO_PCI_CAP_ISR_CFG {
        VirtioCapabilities { isr_cfg: first_of(caps.isr_cfg, info), ..caps }
    } else if cfg_type == VIRTIO_PCI_CAP_DEVICE_CFG {
        VirtioCapabilities { device_cfg: first_of(caps.device_cfg, info), ..caps }
    } else {
        caps
    }
}

impl VirtioCapabilities {
    /// Nothing found yet.
    pub fn new() -> (r: VirtioCapabilities)
        ensures
            r.common_cfg is None && r.notify_cfg is None && r.isr_cfg is None
                && r.device_cfg is None,
            r.notify_off_multiplier == 0,
    {
        VirtioCapabilities {
            common_cfg: None,
            notify_cfg: None,
            notify_off_multiplier: 0,
            isr_cfg: None,
            device_cfg: None,
        }
    }

    /// Takes capability `cap` into account: a vendor-specific capability of
    /// at least 16 bytes names a configuration structure by its kind, in
    /// its fourth byte, with a base address register, an offset and a length
    /// in the words at its offsets 4, 8 and 12; a notification structure
    /// also carries its multiplier at offset 16.
    pub fn add(
        &mut self,
        cap: CapabilityInfo,
        bar_word: u32,
        offset_word: u32,
        length_word: u32,
        notify_word: u32,
    )
        ensures
            *final(self) == spec_add(*old(self), cap, bar_word, offset_word, length_word, notify_word),
    {
        if cap.id != PCI_CAP_ID_VNDR {
            return;
        }
        let cap_len = (cap.private_header & 0xFF) as u8;
        let cfg_type = (cap.private_header >> 8u16) as u8;
        let h = cap.private_header;
        assert((h & 0xFF) as u8 == h % 0x100 && (h >> 8u16) as u8 == h / 0x100) by (bit_vector);
        assert((bar_word & 0xFF) as u8 == bar_word % 0x100) by (bit_vector);
        if cap_len < 16 {
            return;
        }
        let info = VirtioPciCapability {
            bar: (bar_word & 0xFF) as u8,
            offset: offset_word,
            length: length_word,
        };
        if cfg_type == VIRTIO_PCI_CAP_COMMON_CFG {
            if self.common_cfg.is_none() {
                self.common_cfg = Some(info);
            }
        } else if cfg_type == VIRTIO_PCI_CAP_NOTIFY_CFG {
            if self.notify_cfg.is_none() {
                self.notify_cfg = Some(info);
            }
            self.notify_off_multiplier = notify_word;
        } else if cfg_type == VIRTIO_PCI_CAP_ISR_CFG {
            if self.isr_cfg.is_none() {
                self.isr_cfg = Some(info);
            }
        } else if cfg_type == VIRTIO_PCI_CAP_DEVICE_CFG {
            if self.device_cfg.is_none() {
                self.device_cfg = Some(info);
            }
        }
    }
}

} // verus!
