use os::BootInfoFrameAllocator;
use os::KernelMapper;
use os::MapError;
use os::MemoryRegion;
use os::RegionKind;

fn region(start: u64, end: u64, kind: RegionKind) -> MemoryRegion {
    MemoryRegion { start, end, kind }
}

fn small_map() -> Vec<MemoryRegion> {
    vec![
        region(0x1000, 0x3000, RegionKind::Usable),
        region(0x3000, 0x4000, RegionKind::Other),
        region(0x10000, 0x12000, RegionKind::Usable),
    ]
}

#[test]
fn frames_come_in_map_order() {
    let mut fa = BootInfoFrameAllocator::new(small_map());
    assert_eq!(fa.allocate_frame(), Some(0x1000));
    assert_eq!(fa.allocate_frame(), Some(0x2000));
    assert_eq!(fa.allocate_frame(), Some(0x10000));
    assert_eq!(fa.allocate_frame(), Some(0x11000));
    assert_eq!(fa.allocate_frame(), None);
    assert_eq!(fa.allocate_frame(), None);
}

#[test]
fn frames_are_pairwise_distinct() {
    let mut fa = BootInfoFrameAllocator::new(small_map());
    let mut seen = Vec::new();
    while let Some(frame) = fa.allocate_frame() {
        assert!(!seen.contains(&frame));
        assert_eq!(frame % 4096, 0);
        seen.push(frame);
    }
    assert_eq!(seen.len(), 4);
}

#[test]
fn unusable_regions_yield_nothing() {
    let mut fa = BootInfoFrameAllocator::new(vec![region(0x5000, 0x9000, RegionKind::Other)]);
    assert_eq!(fa.allocate_frame(), None);
}

#[test]
fn empty_map_yields_nothing() {
    let mut fa = BootInfoFrameAllocator::new(Vec::new());
    assert_eq!(fa.allocate_frame(), None);
}

fn wide_map() -> Vec<MemoryRegion> {
    vec![region(0x100000, 0x100000 + 64 * 4096, RegionKind::Usable)]
}

#[test]
fn user_space_links_low_half_and_kernel_half() {
    let mapper = KernelMapper::new(0x111000, 0x222000);
    let mut fa = BootInfoFrameAllocator::new(wide_map());
    let space = os::allocate_page_table(&mapper, &mut fa).unwrap();

    assert_eq!(space.l4_frame, 0x100000);
    assert_eq!(space.l3_frame, 0x101000);
    assert_eq!(space.l2_frame, 0x102000);
    assert_eq!(space.l1_frame, 0x103000);

    // Low-half links, user-accessible.
    assert_eq!(space.l4.entry(0), space.l3_frame + 7);
    assert_eq!(space.l3.entry(0), space.l2_frame + 7);
    assert_eq!(space.l2.entry(0), space.l1_frame + 7);

    // The kernel's upper-half subtrees, without the user flag.
    assert_eq!(space.l3.entry(510), 0x111000 + 3);
    assert_eq!(space.l3.entry(511), 0x222000 + 3);

    // Sixteen backed user frames, the rest empty.
    assert_eq!(space.user_zero, 0x104000);
    assert_eq!(space.l1.entry(0), 0x104000 + 7);
    assert_eq!(space.l1.entry(15), 0x113000 + 7);
    assert_eq!(space.l1.entry(16), 0);
    assert_eq!(space.l4.entry(1), 0);
    assert_eq!(space.l2.entry(511), 0);
}

#[test]
fn two_user_spaces_share_the_kernel_half() {
    let mapper = KernelMapper::new(0x111000, 0x222000);
    let mut fa = BootInfoFrameAllocator::new(wide_map());
    let a = os::allocate_page_table(&mapper, &mut fa).unwrap();
    let b = os::allocate_page_table(&mapper, &mut fa).unwrap();
    assert_eq!(a.l3.entry(510), b.l3.entry(510));
    assert_eq!(a.l3.entry(511), b.l3.entry(511));
    assert_ne!(a.l4_frame, b.l4_frame);
}

#[test]
fn user_space_needs_twenty_frames() {
    let mapper = KernelMapper::new(0x111000, 0x222000);
    let mut fa =
        BootInfoFrameAllocator::new(vec![region(0x100000, 0x100000 + 19 * 4096, RegionKind::Usable)]);
    assert!(os::allocate_page_table(&mapper, &mut fa).is_none());
}

#[test]
fn heap_range_is_mapped_by_init() {
    let mut mapper = KernelMapper::new(0x111000, 0x222000);
    let mut fa = BootInfoFrameAllocator::new(wide_map());
    assert_eq!(os::init_heap(&mut mapper, &mut fa), Ok(()));
    for k in 0..25u64 {
        assert!(mapper.contains_page(os::HEAP_START + k * 4096));
    }
    assert!(!mapper.contains_page(os::HEAP_START + 25 * 4096));
}

#[test]
fn heap_init_fails_without_frames() {
    let mut mapper = KernelMapper::new(0x111000, 0x222000);
    let mut fa =
        BootInfoFrameAllocator::new(vec![region(0x100000, 0x100000 + 10 * 4096, RegionKind::Usable)]);
    assert_eq!(
        os::init_heap(&mut mapper, &mut fa),
        Err(MapError::FrameAllocationFailed)
    );
}

#[test]
fn kernel_info_freezes_the_handoff() {
    let info = os::KernelInfo::new(0x333000, small_map(), 0x4000_0000_0000, 0x7f55_aaaa_0000);
    assert_eq!(os::get_kernel_cr3(&info), 0x333000);
    assert_eq!(os::get_physical_memory_offset(&info), 0x4000_0000_0000);
    assert_eq!(os::get_framebuffer_address(&info), 0x7f55_aaaa_0000);
    assert_eq!(os::get_memory_regions(&info).len(), 3);
}

#[test]
fn addr_range_contains_and_len() {
    let r = os::AddrRange { start: 0x1000, end: 0x2000 };
    assert!(r.contains(0x1000));
    assert!(r.contains(0x1fff));
    assert!(!r.contains(0x2000));
    assert!(!r.contains(0xfff));
    assert_eq!(r.len(), 0x1000);
}
