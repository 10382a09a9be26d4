use obamas::mem::heap::allocated_as;
use obamas::mem::heap::head;
use obamas::mem::heap::init_heap;
use obamas::mem::heap::valid_layout;
use obamas::mem::heap::BlockAlloc;
use obamas::mem::heap::BLOCK_SIZES;
use obamas::mem::heap::HEAP_PAGES;
use obamas::mem::heap::HEAP_SIZE;
use obamas::mem::heap::HEAP_START;
use obamas::mem::paging::frame_allocator;
use obamas::mem::paging::mapper;
use obamas::mem::paging::MapToError;
use obamas::mem::paging::MemoryRegion;
use obamas::mem::paging::MemoryRegionType;
use obamas::mem::paging::Page;
use obamas::mem::paging::PageTableFlags;
use obamas::mem::paging::PageTableView;
use obamas::mem::paging::PhysFrame;
use obamas::sync::mutex::Mutex;
use std::mem::MaybeUninit;

fn memory(size: usize) -> (&'static mut [MaybeUninit<u8>], usize) {
    let mem: &'static mut [MaybeUninit<u8>] =
        Box::leak(vec![MaybeUninit::<u8>::uninit(); size].into_boxed_slice());
    let start = mem.as_ptr() as usize;
    (mem, start)
}

fn heap(size: usize) -> (BlockAlloc, usize) {
    let (mem, start) = memory(size);
    let mut allocator = BlockAlloc::new();
    allocator.init(mem);
    (allocator, start)
}

fn empty_view() -> PageTableView {
    mapper(0, PhysFrame::containing_address(0x1000))
}

fn usable(start: u64, end: u64) -> Vec<MemoryRegion> {
    vec![MemoryRegion { start, end, kind: MemoryRegionType::Usable }]
}

#[test]
fn heap_constants() {
    assert_eq!(HEAP_START, 0x4444_4444_0000);
    assert_eq!(HEAP_SIZE, 100 * 1024);
    assert_eq!(HEAP_PAGES, 25);
    assert_eq!(BLOCK_SIZES, [8, 16, 32, 64, 128, 256, 512, 1024, 2048]);
}

#[test]
fn size_classes() {
    assert_eq!(head(0, 1), Some(0));
    assert_eq!(head(1, 1), Some(0));
    assert_eq!(head(8, 8), Some(0));
    assert_eq!(head(9, 1), Some(1));
    assert_eq!(head(16, 4), Some(1));
    assert_eq!(head(24, 8), Some(2));
    assert_eq!(head(33, 8), Some(3));
    assert_eq!(head(100, 4), Some(4));
    assert_eq!(head(129, 4), Some(5));
    assert_eq!(head(512, 512), Some(6));
    assert_eq!(head(513, 2), Some(7));
    assert_eq!(head(2048, 1), Some(8));
    assert_eq!(head(2049, 1), None);
    assert_eq!(head(usize::MAX, 1), None);
}

#[test]
fn alignment_counts_for_the_size_class() {
    assert_eq!(head(8, 64), Some(3));
    assert_eq!(head(1, 2048), Some(8));
    assert_eq!(head(1, 4096), None);
}

#[test]
fn layouts() {
    assert!(valid_layout(0, 1));
    assert!(valid_layout(24, 8));
    assert!(!valid_layout(24, 0));
    assert!(!valid_layout(24, 3));
    assert!(!valid_layout(24, 24));
    assert!(valid_layout(isize::MAX as usize, 1));
    assert!(!valid_layout(isize::MAX as usize, 2));
    assert!(valid_layout(isize::MAX as usize - 7, 8));
    assert!(!valid_layout(isize::MAX as usize - 6, 8));
    assert!(!valid_layout(usize::MAX, 1));
}

#[test]
fn blocks_of_a_class_are_aligned_to_it() {
    assert!(allocated_as(0x1000, 24, 8));
    assert!(allocated_as(0x1020, 24, 8));
    assert!(!allocated_as(0x1010, 24, 8));
    assert!(!allocated_as(0, 24, 8));
    assert!(allocated_as(0x1001, 4096, 1));
    assert!(!allocated_as(0, 4096, 1));
}

#[test]
fn an_allocator_without_memory_serves_nothing() {
    let mut allocator = BlockAlloc::new();
    assert_eq!(allocator.capacity(), 0);
    assert_eq!(allocator.allocate(24, 8), 0);
    assert_eq!(allocator.allocate(4096, 8), 0);
    assert_eq!(allocator.allocate(0, 1), 0);
    assert_eq!(allocator.allocate(0, 4096), 0);
}

#[test]
fn the_fallback_allocator_manages_the_memory_it_is_given() {
    for size in [24, 25, 31, 32, 100, 4096, 64 * 1024 + 3] {
        let (allocator, _) = heap(size);
        assert!(allocator.capacity() <= size);
        assert!(allocator.capacity() + 14 >= size);
    }
    for offset in 0..16 {
        for size in 24..64 {
            let (mem, _) = memory(offset + size);
            let mut allocator = BlockAlloc::new();
            allocator.init(&mut mem[offset..]);
            assert!(allocator.capacity() <= size);
            assert!(allocator.capacity() + 14 >= size);
        }
    }
    let (mut allocator, _) = heap(4096);
    let capacity = allocator.capacity();
    assert_eq!(allocator.allocate(capacity + 1, 1), 0);
    let block = allocator.allocate(2500, 1);
    assert_ne!(block, 0);
    assert_eq!(allocator.capacity(), capacity);
    let (mem, _) = memory(1024);
    allocator.init(mem);
    assert!(allocator.capacity() <= 1024);
}

#[test]
fn small_requests_get_blocks_aligned_to_their_class() {
    let (mut allocator, start) = heap(64 * 1024);
    let requests = [
        (1, 1),
        (8, 8),
        (9, 1),
        (24, 8),
        (33, 4),
        (100, 4),
        (200, 8),
        (500, 2),
        (1000, 8),
        (2048, 1),
        (8, 64),
        (1, 2048),
    ];
    for (size, align) in requests {
        let block = allocator.allocate(size, align);
        let class = BLOCK_SIZES[head(size, align).unwrap()];
        assert_ne!(block, 0);
        assert_eq!(block % class, 0);
        assert!(block >= start && block + class <= start + 64 * 1024);
        assert!(allocated_as(block, size, align));
    }
}

#[test]
fn large_requests_go_to_the_fallback_allocator() {
    let (mut allocator, start) = heap(64 * 1024);
    let block = allocator.allocate(4096, 16);
    assert_ne!(block, 0);
    assert_eq!(block % 16, 0);
    assert!(block >= start && block + 4096 <= start + 64 * 1024);
    assert!(allocator.deallocate(block, 4096, 16));
    let huge = allocator.allocate(128 * 1024, 8);
    assert_eq!(huge, 0);
}

#[test]
fn a_freed_block_comes_back_first() {
    let (mut allocator, _) = heap(64 * 1024);
    let first = allocator.allocate(24, 8);
    assert_ne!(first, 0);
    assert!(!allocator.deallocate(first, 24, 8));
    let second = allocator.allocate(24, 8);
    assert_eq!(second, first);
}

#[test]
fn free_lists_are_last_in_first_out() {
    let (mut allocator, _) = heap(64 * 1024);
    let a = allocator.allocate(100, 4);
    let b = allocator.allocate(100, 4);
    let c = allocator.allocate(100, 4);
    assert!(a != b && b != c && a != c);
    assert!(!allocator.deallocate(a, 100, 4));
    assert!(!allocator.deallocate(b, 100, 4));
    assert!(!allocator.deallocate(c, 100, 4));
    assert_eq!(allocator.allocate(100, 4), c);
    assert_eq!(allocator.allocate(100, 4), b);
    assert_eq!(allocator.allocate(100, 4), a);
}

#[test]
fn free_lists_are_kept_apart_by_class() {
    let (mut allocator, _) = heap(64 * 1024);
    let small = allocator.allocate(8, 8);
    let large = allocator.allocate(2000, 8);
    assert!(!allocator.deallocate(small, 8, 8));
    assert!(!allocator.deallocate(large, 2000, 8));
    assert_eq!(allocator.allocate(1500, 8), large);
    assert_eq!(allocator.allocate(3, 1), small);
}

#[test]
fn reuse_needs_no_memory_from_the_fallback_allocator() {
    let (mut allocator, _) = heap(4096);
    let mut blocks = Vec::new();
    loop {
        let block = allocator.allocate(512, 8);
        if block == 0 {
            break;
        }
        blocks.push(block);
    }
    assert!(!blocks.is_empty());
    for &block in &blocks {
        assert!(!allocator.deallocate(block, 512, 8));
    }
    for &block in blocks.iter().rev() {
        assert_eq!(allocator.allocate(512, 8), block);
    }
    assert_eq!(allocator.allocate(512, 8), 0);
}

#[test]
fn the_allocator_behind_the_lock() {
    let (allocator, _) = heap(64 * 1024);
    let mut guarded = Mutex::new(allocator);
    let block = guarded.allocate(24, 8);
    assert_ne!(block, 0);
    assert_eq!(block % 32, 0);
    assert!(!guarded.is_locked());
    assert!(!guarded.deallocate(block, 24, 8));
    assert!(!guarded.is_locked());
    assert_eq!(guarded.allocate(24, 8), block);
    let large = guarded.allocate(3000, 8);
    assert_ne!(large, 0);
    assert!(guarded.deallocate(large, 3000, 8));
}

#[test]
fn boot_scenario() {
    let mut view = empty_view();
    let mut frames = frame_allocator(usable(0x100000, 0x900000));
    assert_eq!(init_heap(&mut view, &mut frames), Ok(()));
    assert_eq!(view.mappings().len(), 25);
    assert_eq!(frames.allocate_frame().map(|f| f.start_address()), Some(0x100000 + 25 * 4096));

    let (mut allocator, start) = heap(HEAP_SIZE);
    let block = allocator.allocate(24, 8);
    assert_ne!(block, 0);
    assert_eq!(block % 32, 0);
    assert!(block >= start && block + 32 <= start + HEAP_SIZE);
}

#[test]
fn every_heap_page_is_present_and_writable() {
    let mut view = empty_view();
    let mut frames = frame_allocator(usable(0x100000, 0x900000));
    assert_eq!(init_heap(&mut view, &mut frames), Ok(()));
    let mut addr = HEAP_START;
    let mut k = 0;
    while addr < HEAP_START + HEAP_SIZE as u64 {
        let mapping = view.translate_page(Page::containing_address(addr)).unwrap();
        assert!(mapping.flags.contains(PageTableFlags::present()));
        assert!(mapping.flags.contains(PageTableFlags::writable()));
        assert_eq!(mapping.flags.bits(), 3);
        assert_eq!(mapping.page.start_address(), HEAP_START + 4096 * k);
        assert_eq!(mapping.frame.start_address(), 0x100000 + 4096 * k);
        addr += 4096;
        k += 1;
    }
    assert_eq!(k, 25);
    assert_eq!(view.translate_page(Page::containing_address(HEAP_START - 1)), None);
    assert_eq!(view.translate_page(Page::containing_address(HEAP_START + HEAP_SIZE as u64)), None);
    let last = view.translate_page(Page::containing_address(HEAP_START + 25 * 4096 - 1));
    assert_eq!(last.map(|m| m.frame.start_address()), Some(0x100000 + 24 * 4096));
}

#[test]
fn the_heap_takes_the_next_frames_of_the_allocator() {
    let mut view = empty_view();
    let mut frames = frame_allocator(usable(0x100000, 0x900000));
    frames.allocate_frame();
    frames.allocate_frame();
    assert_eq!(init_heap(&mut view, &mut frames), Ok(()));
    assert_eq!(view.mappings()[0].frame.start_address(), 0x102000);
    assert_eq!(view.mappings()[24].frame.start_address(), 0x102000 + 24 * 4096);
}

#[test]
fn too_few_frames_fail_the_heap() {
    let mut view = empty_view();
    let mut frames = frame_allocator(usable(0x100000, 0x100000 + 24 * 4096));
    assert_eq!(init_heap(&mut view, &mut frames), Err(MapToError::FrameAllocationFailed));
    assert_eq!(view.mappings().len(), 24);
    assert_eq!(frames.allocate_frame(), None);

    let mut view = empty_view();
    let mut frames = frame_allocator(Vec::new());
    assert_eq!(init_heap(&mut view, &mut frames), Err(MapToError::FrameAllocationFailed));
    assert_eq!(view.mappings().len(), 0);
}

#[test]
fn exactly_enough_frames_map_the_heap() {
    let mut view = empty_view();
    let mut frames = frame_allocator(usable(0x100000, 0x100000 + 25 * 4096));
    assert_eq!(init_heap(&mut view, &mut frames), Ok(()));
    assert_eq!(frames.allocate_frame(), None);
}

#[test]
fn a_mapped_heap_page_fails_the_heap() {
    let mut view = empty_view();
    let taken = Page::containing_address(HEAP_START + 3 * 4096);
    view.map_to(taken, PhysFrame::containing_address(0x5000), PageTableFlags::present()).unwrap();
    let mut frames = frame_allocator(usable(0x100000, 0x900000));
    assert_eq!(init_heap(&mut view, &mut frames), Err(MapToError::MappingFailed));
    assert_eq!(view.mappings().len(), 1 + 3);
    assert_eq!(view.translate_page(taken).unwrap().frame.start_address(), 0x5000);
    assert_eq!(frames.allocate_frame().map(|f| f.start_address()), Some(0x100000 + 4 * 4096));
}

#[test]
fn the_missing_frame_is_reported_before_the_mapped_page() {
    let mut view = empty_view();
    let taken = Page::containing_address(HEAP_START + 2 * 4096);
    view.map_to(taken, PhysFrame::containing_address(0x5000), PageTableFlags::present()).unwrap();
    let mut frames = frame_allocator(usable(0x100000, 0x102000));
    assert_eq!(init_heap(&mut view, &mut frames), Err(MapToError::FrameAllocationFailed));
    assert_eq!(view.mappings().len(), 1 + 2);
}
