//! PCI configuration space: the address word that selects a register, the
//! decoding of a function's header, the capability list, and lookup among
//! the functions found.
use vstd::prelude::*;

verus! {

/// I/O port of the configuration address.
pub const PCI_CONFIG_ADDRESS_PORT: u16 = 0xCF8;
/// I/O port of the configuration data.
pub const PCI_CONFIG_DATA_PORT: u16 = 0xCFC;
/// Offset of the first base address register.
pub const BAR0_OFFSET: u8 = 0x10;
/// Offset of the word that holds the capability list pointer.
pub const CAPABILITIES_POINTER_OFFSET: u8 = 0x34;
/// Identifier of a vendor-specific capability.
pub const PCI_CAP_ID_VNDR: u8 = 0x09;
/// Status bit: the function has a capability list.
pub const STATUS_CAPABILITIES_LIST: u16 = 1 << 4;
/// Command bit: the function may master the bus.
pub const COMMAND_BUS_MASTER: u32 = 1 << 2;
/// Vendor identifier read where no function answers.
pub const NO_VENDOR: u16 = 0xFFFF;

/// The configuration address of register `offset` of a function.
pub open spec fn spec_config_address(bus: u8, device: u8, function: u8, offset: u8) -> u32 {
    0x8000_0000u32 | ((bus as u32) << 16u32) | ((device as u32) << 11u32) | ((function as u32)
        << 8u32) | ((offset as u32) & 0xFCu32)
}

/// The word to write to the address port to reach register `offset`,
/// rounded down to a 4-byte boundary, of `function` of `device` on `bus`.
pub fn config_address(bus: u8, device: u8, function: u8, offset: u8) -> (r: u32)
    ensures
        r == spec_config_address(bus, device, function, offset),
{
    0x8000_0000u32 | ((bus as u32) << 16u32) | ((device as u32) << 11u32) | ((function as u32)
        << 8u32) | ((offset as u32) & 0xFCu32)
}

/// The header of one PCI function.
#[derive(Clone, Copy, Debug)]
pub struct DeviceConfig {
    pub bus: u8,
    pub device: u8,
    pub function: u8,
    pub device_id: u16,
    pub vendor_id: u16,
    pub command: u16,
    pub status: u16,
    pub revision: u8,
    pub prog_if: u8,
    pub subclass: u8,
    pub class: u8,
    pub header_type: u8,
    pub base_addresses: [u32; 6],
    pub interrupt_pin: u8,
    pub interrupt_line: u8,
}

impl DeviceConfig {
    /// Decodes the header of a function from the words read at offsets
    /// 0x00, 0x04, 0x08, 0x0C and 0x3C, and its six base address registers.
    pub fn new(
        bus: u8,
        device: u8,
        function: u8,
        ids: u32,
        command_status: u32,
        class_words: u32,
        header_word: u32,
        interrupt_word: u32,
        base_addresses: [u32; 6],
    ) -> (r: DeviceConfig)
        ensures
            r.bus == bus && r.device == device && r.function == function,
            r.vendor_id == ids % 0x10000,
            r.device_id == ids / 0x10000,
            r.command == command_status % 0x10000,
            r.status == command_status / 0x10000,
            r.revision == class_words % 0x100,
            r.prog_if == (class_words / 0x100) % 0x100,
            r.subclass == (class_words / 0x10000) % 0x100,
            r.class == class_words / 0x1000000,
            r.header_type == (header_word / 0x10000) % 0x100,
            r.interrupt_line == interrupt_word % 0x100,
            r.interrupt_pin == (interrupt_word / 0x100) % 0x100,
            r.base_addresses == base_addresses,
    {
        proof {
            lemma_fields(ids);
            lemma_fields(command_status);
            lemma_fields(class_words);
            lemma_fields(header_word);
            lemma_fields(interrupt_word);
        }
        DeviceConfig {
            bus,
            device,
            function,
            device_id: (ids >> 16u32) as u16,
            vendor_id: (ids & 0xFFFF) as u16,
            command: (command_status & 0xFFFF) as u16,
            status: (command_status >> 16u32) as u16,
            revision: (class_words & 0xFF) as u8,
            prog_if: ((class_words >> 8u32) & 0xFF) as u8,
            subclass: ((class_words >> 16u32) & 0xFF) as u8,
            class: (class_words >> 24u32) as u8,
            header_type: ((header_word >> 16u32) & 0xFF) as u8,
            base_addresses,
            interrupt_pin: ((interrupt_word >> 8u32) & 0xFF) as u8,
            interrupt_line: (interrupt_word & 0xFF) as u8,
        }
    }

    /// Whether a function answered: absent ones read all ones.
    pub fn is_present(&self) -> (r: bool)
        ensures
            r == (self.vendor_id != NO_VENDOR),
    {
        self.vendor_id != NO_VENDOR
    }

    /// Whether the device has functions past the first.
    pub fn is_multifunction(&self) -> (r: bool)
        ensures
            r == (self.header_type & 0x80 != 0),
    {
        self.header_type & 0x80 != 0
    }

    /// A walk over the capability list, given the word at offset 0x34;
    /// `None` where the status says there is no list.
    pub fn capabilities(&self, pointer_word: u32) -> (r: Option<CapabilityIter>)
        ensures
            self.status & STATUS_CAPABILITIES_LIST == 0 ==> r is None,
            self.status & STATUS_CAPABILITIES_LIST != 0 ==> r == Some(
                CapabilityIter {
                    bus: self.bus,
                    device: self.device,
                    function: self.function,
                    next_capability_offset: Some((pointer_word % 0x100 - pointer_word % 4) as u8),
                },
            ),
    {
        if self.status & STATUS_CAPABILITIES_LIST != 0 {
            assert((((pointer_word >> 2u32) & 0x3F) << 2u32) as u8 == (pointer_word % 0x100
                - pointer_word % 4) as u8) by (bit_vector);
            let caps_offset = (((pointer_word >> 2u32) & 0x3F) << 2u32) as u8;
            Some(
                CapabilityIter {
                    bus: self.bus,
                    device: self.device,
                    function: self.function,
                    next_capability_offset: Some(caps_offset),
                },
            )
        } else {
            None
        }
    }

    /// The command word with bus mastering switched on.
    pub fn enable_bus_mastering(command_word: u32) -> (r: u32)
        ensures
            r == command_word | COMMAND_BUS_MASTER,
    {
        command_word | COMMAND_BUS_MASTER
    }

    /// The configuration address of register `offset` of this function.
    pub fn config_address(&self, offset: u8) -> (r: u32)
        ensures
            r == spec_config_address(self.bus, self.device, self.function, offset),
    {
        config_address(self.bus, self.device, self.function, offset)
    }
}

proof fn lemma_fields(w: u32)
    ensures
        (w >> 16u32) as u16 == w / 0x10000,
        (w & 0xFFFF) as u16 == w % 0x10000,
        (w & 0xFF) as u8 == w % 0x100,
        ((w >> 8u32) & 0xFF) as u8 == (w / 0x100) % 0x100,
        ((w >> 16u32) & 0xFF) as u8 == (w / 0x10000) % 0x100,
        (w >> 24u32) as u8 == w / 0x1000000,
{
    assert((w >> 16u32) as u16 == w / 0x10000) by (bit_vector);
    assert((w & 0xFFFF) as u16 == w % 0x10000) by (bit_vector);
    assert((w & 0xFF) as u8 == w % 0x100) by (bit_vector);
    assert(((w >> 8u32) & 0xFF) as u8 == (w / 0x100) % 0x100) by (bit_vector);
    assert(((w >> 16u32) & 0xFF) as u8 == (w / 0x10000) % 0x100) by (bit_vector);
    assert((w >> 24u32) as u8 == w / 0x1000000) by (bit_vector);
}

/// A walk over a function's capability list.
#[derive(Clone, Copy, Debug, PartialEq, Eq, Structural)]
pub struct CapabilityIter {
    pub bus: u8,
    pub device: u8,
    pub function: u8,
    pub next_capability_offset: Option<u8>,
}

/// One capability.
#[derive(Clone, Copy, Debug, PartialEq, Eq, Structural)]
pub struct CapabilityInfo {
    /// Offset of the capability in configuration space.
    pub offset: u8,
    /// The capability's identifier.
    pub id: u8,
    /// The capability's third and fourth bytes.
    pub private_header: u16,
}

impl CapabilityIter {
    /// Decodes the capability at the walk's current offset from `header`,
    /// the word read there, and moves to the next one; `None` once the list
    /// has ended.
    pub fn next(&mut self, header: u32) -> (r: Option<CapabilityInfo>)
        ensures
            final(self).bus == old(self).bus,
            final(self).device == old(self).device,
            final(self).function == old(self).function,
            old(self).next_capability_offset is None ==> r is None && *final(self) == *old(self),
            old(self).next_capability_offset matches Some(offset) ==> {
                &&& r == Some(
                    CapabilityInfo {
                        offset,
                        id: (header % 0x100) as u8,
                        private_header: (header / 0x10000) as u16,
                    },
                )
                &&& (header / 0x100) % 0x100 == 0 ==> final(self).next_capability_offset is None
                &&& (header / 0x100) % 0x100 != 0 ==> final(self).next_capability_offset == Some(
                    ((header / 0x100) % 0x100) as u8,
                )
            },
    {
        match self.next_capability_offset {
            None => None,
            Some(offset) => {
                proof {
                    lemma_fields(header);
                }
                let id = (header & 0xFF) as u8;
                let next_offset = ((header >> 8u32) & 0xFF) as u8;
                let private_header = (header >> 16u32) as u16;
                self.next_capability_offset = if next_offset == 0 {
                    None
                } else {
                    Some(next_offset)
                };
                Some(CapabilityInfo { offset, id, private_header })
            },
        }
    }
}

/// The first function among `devices` with the given vendor and device
/// identifiers.
pub fn find_device(devices: &Vec<DeviceConfig>, vendor_id: u16, device_id: u16) -> (r: Option<
    DeviceConfig,
>)
    ensures
        r is None ==> forall|i: int|
            0 <= i < devices@.len() ==> !(devices@[i].vendor_id == vendor_id
                && devices@[i].device_id == device_id),
        r matches Some(d) ==> exists|i: int|
            0 <= i < devices@.len() && devices@[i] == d && d.vendor_id == vendor_id && d.device_id
                == device_id && forall|j: int|
                0 <= j < i ==> !(devices@[j].vendor_id == vendor_id && devices@[j].device_id
                    == device_id),
{
    let mut i: usize = 0;
    while i < devices.len()
        invariant
            i <= devices@.len(),
            forall|j: int|
                0 <= j < i ==> !(devices@[j].vendor_id == vendor_id && devices@[j].device_id
                    == device_id),
        decreases devices@.len() - i,
    {
        let d = devices[i];
        if d.vendor_id == vendor_id && d.device_id == device_id {
            return Some(d);
        }
        i = i + 1;
    }
    None
}

} // verus!
