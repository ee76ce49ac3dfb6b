//! The architecture and memory core of a small x86-64 unikernel: descriptor
//! tables, per-core state, physical frame allocation, page-table entries and
//! the decisions of the trap pipeline.
use vstd::prelude::*;

pub mod bits;
pub mod console;
pub mod cpu;
pub mod mapper;
pub mod memory;
pub mod multiboot;
pub mod paging;
pub mod pci;
pub mod segmentation;
pub mod spinlock;
pub mod trap;
pub mod virtio;

verus! {

} // verus!
