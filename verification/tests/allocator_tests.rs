//! Physical frame allocator tests.

use kernel_core::physical::{
    bitmap_placement, init, memory_summary, region_kind_name, BumpAllocator, MemoryRegion,
    PhysFrame, RegionKind, BUMP_LIMIT, FRAME_SIZE,
};

fn one_region_64_mib() -> Vec<MemoryRegion> {
    vec![MemoryRegion { base: 0x200000, length: 64 * 1024 * 1024, kind: RegionKind::Usable }]
}

#[test]
fn first_fit_over_single_region() {
    // A single usable region of 64 MiB starting at 2 MiB: the first two
    // frames handed out are its first two pages, and after freeing both the
    // next allocation reuses the lowest one.
    let mut a = init(&one_region_64_mib());
    assert_eq!(a.free_frames(), 64 * 1024 * 1024 / FRAME_SIZE);
    let f1 = a.alloc_frame().unwrap();
    let f2 = a.alloc_frame().unwrap();
    assert_eq!(f1.addr, 0x200000);
    assert_eq!(f2.addr, 0x201000);
    a.dealloc_frame(f1);
    a.dealloc_frame(f2);
    let f3 = a.alloc_frame().unwrap();
    assert_eq!(f3.addr, 0x200000);
}

#[test]
fn free_count_accounting() {
    let mut a = init(&one_region_64_mib());
    let initial = a.free_frames();
    let f1 = a.alloc_frame().unwrap();
    let f2 = a.alloc_frame().unwrap();
    let f3 = a.alloc_frame().unwrap();
    assert_eq!(a.free_frames(), initial - 3);
    assert_ne!(f1.addr, f2.addr);
    assert_ne!(f2.addr, f3.addr);
    assert_ne!(f1.addr, f3.addr);
    a.dealloc_frame(f2);
    assert_eq!(a.free_frames(), initial - 2);
    assert_eq!(a.free_memory(), (initial as u64 - 2) * 4096);
}

#[test]
fn double_free_is_idempotent() {
    let mut a = init(&one_region_64_mib());
    let initial = a.free_frames();
    let f = a.alloc_frame().unwrap();
    a.dealloc_frame(f);
    assert_eq!(a.free_frames(), initial);
    a.dealloc_frame(f);
    assert_eq!(a.free_frames(), initial);
}

#[test]
fn exhaustion_and_reuse() {
    // Two free frames in total: after both are taken the allocator reports
    // none exactly when the count is zero, and freeing one frame makes the
    // next allocation return exactly it.
    let regions = vec![MemoryRegion { base: 0x1000, length: 0x2000, kind: RegionKind::Usable }];
    let mut a = init(&regions);
    assert_eq!(a.free_frames(), 2);
    let f1 = a.alloc_frame().unwrap();
    let f2 = a.alloc_frame().unwrap();
    assert_eq!(f1.addr, 0x1000);
    assert_eq!(f2.addr, 0x2000);
    assert_eq!(a.free_frames(), 0);
    assert!(a.alloc_frame().is_none());
    a.dealloc_frame(f2);
    let f3 = a.alloc_frame().unwrap();
    assert_eq!(f3.addr, f2.addr);
}

#[test]
fn reserved_regions_stay_allocated() {
    // The reserved region and the low frames below the usable region are
    // never handed out.
    let regions = vec![
        MemoryRegion { base: 0x0, length: 0x1000, kind: RegionKind::Reserved },
        MemoryRegion { base: 0x1000, length: 0x1000, kind: RegionKind::Usable },
    ];
    let mut a = init(&regions);
    assert_eq!(a.free_frames(), 1);
    assert_eq!(a.alloc_frame().unwrap().addr, 0x1000);
    assert!(a.alloc_frame().is_none());
}

#[test]
fn bootloader_reclaimable_is_usable() {
    let regions = vec![MemoryRegion {
        base: 0x1000,
        length: 0x1000,
        kind: RegionKind::BootloaderReclaimable,
    }];
    let mut a = init(&regions);
    assert_eq!(a.free_frames(), 1);
    assert_eq!(a.alloc_frame().unwrap().addr, 0x1000);
}

#[test]
fn bitmap_region_reservation() {
    // Placing the bitmap inside the first usable region and reserving that
    // range withholds the first page from allocation.
    let regions = one_region_64_mib();
    let mut a = init(&regions);
    let base = bitmap_placement(&regions).unwrap();
    assert_eq!(base, 0x200000);
    // 16896 tracked frames need 2112 bytes of bitmap, well under one page.
    a.mark_region_allocated(base, 2112);
    let f = a.alloc_frame().unwrap();
    assert_eq!(f.addr, 0x201000);
}

#[test]
fn bitmap_placement_needs_room() {
    let regions = vec![MemoryRegion { base: 0x1000, length: 0x1000, kind: RegionKind::Usable }];
    // One frame of bitmap needs only 8 bytes; the single region holds it.
    assert_eq!(bitmap_placement(&regions), Some(0x1000));
    let none = vec![MemoryRegion { base: 0x1000, length: 0x1000, kind: RegionKind::Reserved }];
    assert_eq!(bitmap_placement(&none), None);
}

#[test]
fn frame_address_arithmetic() {
    let f = PhysFrame::containing_address(0x201ABC);
    assert_eq!(f.addr, 0x201000);
    assert_eq!(f.number(), 0x201);
    assert_eq!(PhysFrame::from_number(0x201).addr, 0x201000);
}

#[test]
fn memory_map_summary() {
    let regions = vec![
        MemoryRegion { base: 0x0, length: 0x1000, kind: RegionKind::Reserved },
        MemoryRegion { base: 0x1000, length: 0x3000, kind: RegionKind::Usable },
        MemoryRegion { base: 0x4000, length: 0x2000, kind: RegionKind::BootloaderReclaimable },
        MemoryRegion { base: 0x6000, length: 0x1000, kind: RegionKind::Framebuffer },
    ];
    let (total, usable) = memory_summary(&regions);
    assert_eq!(total, 0x7000);
    assert_eq!(usable, 0x5000);
    assert_eq!(region_kind_name(RegionKind::Usable), "USABLE");
    assert_eq!(
        region_kind_name(RegionKind::BootloaderReclaimable),
        "BOOTLOADER_RECLAIMABLE"
    );
    assert_eq!(region_kind_name(RegionKind::BadMemory), "BAD_MEMORY");
}

#[test]
fn regions_above_4_gib_not_tracked() {
    // A usable range ending above 4 GiB does not extend the tracked frames;
    // device windows up there must not look allocatable.
    let regions = vec![
        MemoryRegion { base: 0x1000, length: 0x1000, kind: RegionKind::Usable },
        MemoryRegion { base: 0x1_0000_0000, length: 0x10000, kind: RegionKind::Usable },
    ];
    let mut a = init(&regions);
    assert_eq!(a.free_frames(), 1);
    assert_eq!(a.alloc_frame().unwrap().addr, 0x1000);
    assert!(a.alloc_frame().is_none());
}

#[test]
fn bump_fallback_allocates_monotonically() {
    let mut b = BumpAllocator::new();
    assert_eq!(b.free_memory(), 64 * 1024 * 1024);
    assert_eq!(b.free_frames(), 16384);
    let f1 = b.alloc_frame().unwrap();
    let f2 = b.alloc_frame().unwrap();
    assert_eq!(f1.addr, 0x200000);
    assert_eq!(f2.addr, 0x201000);
    // Deallocation is a no-op: the cursor never reuses a frame.
    b.dealloc_frame(f1);
    let f3 = b.alloc_frame().unwrap();
    assert_eq!(f3.addr, 0x202000);
    assert_eq!(b.free_memory(), 64 * 1024 * 1024 - 3 * 4096);
    assert_eq!(BUMP_LIMIT - 0x200000, 64 * 1024 * 1024);
}
