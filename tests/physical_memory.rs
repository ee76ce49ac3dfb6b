use lithium::bits::{align_down, align_up, is_aligned, is_power_of_two};
use lithium::multiboot::{MemoryArea, MemoryAreaType};
use lithium::memory::{reservable_extent, usable_extent, DeallocError, PhysRegion, PhysicalAllocator, PhysicalMemoryBitmap};

const KIB4: usize = 4096;

fn one_mib_allocator() -> PhysicalAllocator {
    let mut a = PhysicalAllocator::new();
    a.reserve(0x10_0000, 0x10_0000, KIB4);
    a
}

#[test]
fn three_frames_from_one_extent() {
    let mut a = one_mib_allocator();
    let baseline = a.bytes_remaining();
    // 256 blocks, one of which holds the 32-byte bitmap.
    assert_eq!(baseline, 255 * KIB4);
    let r1 = a.allocate(KIB4).unwrap();
    let r2 = a.allocate(KIB4).unwrap();
    let r3 = a.allocate(KIB4).unwrap();
    assert_eq!(r1.start_address, 0x10_1000);
    assert_eq!(r2.start_address, 0x10_2000);
    assert_eq!(r3.start_address, 0x10_3000);
    assert!(!r1.intersects(&r2) && !r1.intersects(&r3) && !r2.intersects(&r3));
    assert_eq!(a.bytes_remaining(), baseline - 12 * 1024);
}

#[test]
fn no_space_for_longer_run() {
    let mut a = PhysicalAllocator::new();
    // Eight blocks: one holds the bitmap, seven are free.
    a.reserve(0x20_0000, 8 * KIB4, KIB4);
    assert_eq!(a.bytes_remaining(), 7 * KIB4);
    a.allocate(KIB4).unwrap();
    assert_eq!(a.bytes_remaining(), 6 * KIB4);
    assert_eq!(a.allocate(7 * KIB4), None);
    assert_eq!(a.bytes_remaining(), 6 * KIB4);
    assert!(a.allocate(6 * KIB4).is_some());
    assert_eq!(a.bytes_remaining(), 0);
}

#[test]
fn allocation_rounds_up_and_aligns() {
    let mut a = one_mib_allocator();
    let r = a.allocate(5000).unwrap();
    assert_eq!(r.size, 2 * KIB4);
    assert_eq!(r.start_address % KIB4 as u64, 0);
    let s = a.allocate(1).unwrap();
    assert_eq!(s.size, KIB4);
    assert_eq!(s.start_address % KIB4 as u64, 0);
    assert!(!r.intersects(&s));
}

#[test]
fn allocate_zero_bytes_gives_nothing() {
    let mut a = one_mib_allocator();
    assert_eq!(a.allocate(0), None);
    assert_eq!(a.bytes_remaining(), 255 * KIB4);
}

#[test]
fn allocate_then_deallocate_conserves_bytes() {
    let mut a = one_mib_allocator();
    let before = a.bytes_remaining();
    let r1 = a.allocate(3 * KIB4).unwrap();
    let r2 = a.allocate(KIB4).unwrap();
    assert_eq!(a.deallocate(r1), Ok(()));
    assert_eq!(a.deallocate(r2), Ok(()));
    assert_eq!(a.bytes_remaining(), before);
}

#[test]
fn freed_blocks_are_reused_first_fit() {
    let mut a = one_mib_allocator();
    let r1 = a.allocate(KIB4).unwrap();
    let _r2 = a.allocate(KIB4).unwrap();
    a.deallocate(r1).unwrap();
    let r3 = a.allocate(KIB4).unwrap();
    assert_eq!(r3, r1);
}

#[test]
fn deallocating_reserved_prefix_fails() {
    let mut a = one_mib_allocator();
    let before = a.bytes_remaining();
    let bitmap_block = PhysRegion::new(0x10_0000, KIB4);
    assert!(a.can_deallocate(&bitmap_block));
    assert_eq!(a.deallocate(bitmap_block), Err(DeallocError::Reserved));
    assert_eq!(a.bytes_remaining(), before);
}

#[test]
fn double_free_is_detected_before_the_call() {
    let mut a = one_mib_allocator();
    let r = a.allocate(KIB4).unwrap();
    assert!(a.can_deallocate(&r));
    assert_eq!(a.deallocate(r), Ok(()));
    // Giving it back again is a fault of the caller, which the check reports.
    assert!(!a.can_deallocate(&r));
    let never_handed_out = PhysRegion::new(0x18_0000, KIB4);
    assert!(!a.can_deallocate(&never_handed_out));
}

#[test]
fn region_outside_every_extent_cannot_be_given_back() {
    let a = one_mib_allocator();
    assert!(!a.can_deallocate(&PhysRegion::new(0x1000, KIB4)));
    assert!(!a.can_deallocate(&PhysRegion::new(0x20_0000, KIB4)));
    assert!(!a.can_deallocate(&PhysRegion::new(0x1F_F000, 2 * KIB4)));
}

#[test]
fn second_extent_serves_when_first_is_full() {
    let mut a = PhysicalAllocator::new();
    a.reserve(0x20_0000, 2 * KIB4, KIB4);
    a.reserve(0x40_0000, 4 * KIB4, KIB4);
    assert_eq!(a.region_count(), 2);
    let r1 = a.allocate(KIB4).unwrap();
    assert_eq!(r1.start_address, 0x20_1000);
    let r2 = a.allocate(KIB4).unwrap();
    assert_eq!(r2.start_address, 0x40_1000);
    assert_eq!(a.deallocate(r2), Ok(()));
    assert_eq!(a.bytes_remaining(), 3 * KIB4);
}

#[test]
fn extent_is_shrunk_to_whole_blocks() {
    let e = PhysicalMemoryBitmap::new(0x10_0800, 0x4000, KIB4);
    // [0x100800, 0x104800) holds the blocks at 0x101000..0x104000.
    assert_eq!(e.total_blocks(), 3);
    assert_eq!(e.bytes_remaining(), 2 * KIB4);
    assert_eq!(e.bytes_to_blocks(1), 1);
    assert_eq!(e.bytes_to_blocks(KIB4), 1);
    assert_eq!(e.bytes_to_blocks(KIB4 + 1), 2);
}

#[test]
fn large_extent_reserves_several_bitmap_blocks() {
    // 64 MiB in 4 KiB blocks: 16384 bits, 2048 bytes, one block of bitmap.
    let e = PhysicalMemoryBitmap::new(0, 64 << 20, KIB4);
    assert_eq!(e.total_blocks(), 16384);
    assert_eq!(e.bytes_remaining(), (16384 - 1) * KIB4);
    // 64 MiB in 64-byte blocks: 1 Mi bits, 128 KiB of bitmap, 2048 blocks.
    let f = PhysicalMemoryBitmap::new(0, 64 << 20, 64);
    assert_eq!(f.bytes_remaining(), (1 << 20) * 64 - 2048 * 64);
}

#[test]
fn region_end_and_intersection() {
    let a = PhysRegion::new(0x1000, 0x2000);
    let b = PhysRegion::new(0x3000, 0x1000);
    let c = PhysRegion::new(0x2fff, 0x10);
    assert_eq!(a.end_address(), 0x3000);
    assert!(!a.intersects(&b));
    assert!(a.intersects(&c));
    assert!(c.intersects(&b));
}

#[test]
fn usable_extent_skips_the_kernel() {
    let kernel = PhysRegion::new(0x10_0000, 0x8_0000);
    let below = PhysRegion::new(0x0, 0x9_f000);
    assert_eq!(usable_extent(below, kernel), None);
    let around = PhysRegion::new(0x10_0000, 0x100_0000);
    assert_eq!(usable_extent(around, kernel), Some(PhysRegion::new(0x18_0000, 0x100_0000 - 0x8_0000)));
    let above = PhysRegion::new(0x200_0000, 0x1000);
    assert_eq!(usable_extent(above, kernel), Some(above));
}

#[test]
fn alignment_helpers() {
    assert_eq!(align_down(0x1234, 0x1000), 0x1000);
    assert_eq!(align_up(0x1234, 0x1000), 0x2000);
    assert_eq!(align_up(0x2000, 0x1000), 0x2000);
    assert_eq!(align_up(0, 8), 0);
    assert_eq!(align_down(u64::MAX, 1 << 63), 1 << 63);
    assert!(is_aligned(0x20_0000, 0x20_0000));
    assert!(!is_aligned(0x20_0001, 2));
    assert!(is_power_of_two(1));
    assert!(is_power_of_two(1 << 63));
    assert!(!is_power_of_two(0));
    assert!(!is_power_of_two(12));
}

#[test]
fn total_bytes_counts_every_extent() {
    let mut a = PhysicalAllocator::new();
    assert_eq!(a.total_bytes(), 0);
    a.reserve(0x20_0000, 2 * KIB4, KIB4);
    a.reserve(0x40_0800, 4 * KIB4, KIB4);
    assert_eq!(a.total_bytes(), 5 * KIB4);
}

#[test]
fn only_available_areas_are_reserved() {
    let kernel = PhysRegion::new(0x10_0000, 0x8_0000);
    let area = MemoryArea { size: 20, addr: 0x10_0800, len: 0x100_0000, area_type: MemoryAreaType::Available };
    assert_eq!(
        reservable_extent(area, kernel),
        Some(PhysRegion::new(0x18_0000, 0x110_1000 - 0x18_0000))
    );
    let reserved = MemoryArea { area_type: MemoryAreaType::Reserved, ..area };
    assert_eq!(reservable_extent(reserved, kernel), None);
}
