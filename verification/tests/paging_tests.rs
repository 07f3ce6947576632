//! Virtual memory mapping tests.

use kernel_core::paging::{AddressSpace, MapError};
use kernel_core::physical::{init as frame_init, MemoryRegion, RegionKind};

fn test_allocator() -> kernel_core::physical::BitmapAllocator {
    frame_init(&vec![MemoryRegion {
        base: 0x200000,
        length: 64 * 1024 * 1024,
        kind: RegionKind::Usable,
    }])
}

#[test]
fn mapped_range_translates_every_byte() {
    let mut alloc = test_allocator();
    let mut space = AddressSpace::init(0xFFFF_8000_0000_0000);
    let start: u64 = 0x4000_0000;
    let size: u64 = 3 * 4096 + 123;
    space.try_map_range(&mut alloc, start, size).unwrap();
    // Every byte of the requested range reaches backed memory.
    assert!(space.translate(start).is_some());
    assert!(space.translate(start + 1).is_some());
    assert!(space.translate(start + 4096).is_some());
    assert!(space.translate(start + size - 1).is_some());
    // The byte after the range (page four) is unmapped.
    assert!(space.translate(start + 4 * 4096).is_none());
    // Offsets within a page carry through the translation.
    let base = space.translate(start).unwrap();
    assert_eq!(space.translate(start + 5).unwrap(), base + 5);
}

#[test]
fn zero_size_is_noop_success() {
    let mut alloc = test_allocator();
    let before = alloc.free_frames();
    let mut space = AddressSpace::init(0);
    assert_eq!(space.try_map_range(&mut alloc, 0x4000_0000, 0), Ok(()));
    assert_eq!(alloc.free_frames(), before);
    assert!(space.translate(0x4000_0000).is_none());
}

#[test]
fn walk_consumes_table_and_leaf_frames() {
    let mut alloc = test_allocator();
    let before = alloc.free_frames();
    let mut space = AddressSpace::init(0);
    // First page of a fresh hierarchy: three intermediate tables plus the
    // leaf frame.
    space.try_map_range(&mut alloc, 0x4000_0000, 4096).unwrap();
    assert_eq!(alloc.free_frames(), before - 4);
    // The neighbouring page shares all three tables: one more frame only.
    space.try_map_range(&mut alloc, 0x4000_1000, 4096).unwrap();
    assert_eq!(alloc.free_frames(), before - 5);
}

#[test]
fn exhaustion_mid_walk_reports_failure() {
    // Two free frames cannot pay for the four a fresh walk needs.
    let regions = vec![MemoryRegion { base: 0x1000, length: 0x2000, kind: RegionKind::Usable }];
    let mut alloc = frame_init(&regions);
    let mut space = AddressSpace::init(0);
    let r = space.try_map_range(&mut alloc, 0x4000_0000, 4096);
    assert_eq!(r, Err(MapError::OutOfMemory));
    assert!(space.translate(0x4000_0000).is_none());
}

#[test]
fn partial_range_stays_installed() {
    // Nine free frames map one fresh page (four frames) and a second page
    // (one frame), then run dry mid-range: the installed pages stay.
    let regions = vec![MemoryRegion { base: 0x1000, length: 0x5000, kind: RegionKind::Usable }];
    let mut alloc = frame_init(&regions);
    assert_eq!(alloc.free_frames(), 5);
    let mut space = AddressSpace::init(0);
    let r = space.try_map_range(&mut alloc, 0x4000_0000, 3 * 4096);
    assert_eq!(r, Err(MapError::OutOfMemory));
    assert!(space.translate(0x4000_0000).is_some());
    assert!(space.translate(0x4000_1000).is_some());
    assert!(space.translate(0x4000_2000).is_none());
    assert_eq!(alloc.free_frames(), 0);
}

#[test]
fn map_range_backs_pages_with_allocated_frames() {
    let mut alloc = test_allocator();
    let mut space = AddressSpace::init(0);
    space.map_range(&mut alloc, 0x4000_0000, 2 * 4096);
    let p0 = space.translate(0x4000_0000).unwrap();
    let p1 = space.translate(0x4000_1000).unwrap();
    assert_eq!(p0 % 4096, 0);
    assert_eq!(p1 % 4096, 0);
    assert_ne!(p0, p1);
}

#[test]
fn phys_to_virt_adds_offset() {
    let space = AddressSpace::init(0xFFFF_8000_0000_0000);
    assert_eq!(space.phys_to_virt(0x200000), 0xFFFF_8000_0020_0000);
}
