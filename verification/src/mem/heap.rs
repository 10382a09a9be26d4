//! The kernel heap: free lists for the common small sizes in front of a
//! first-fit allocator for everything else.

use vstd::prelude::*;
use linked_list_allocator::Heap;
use std::mem::MaybeUninit;
use crate::mem::paging::align_down;
use crate::mem::paging::lemma_lookup_push;
use crate::mem::paging::lookup;
use crate::mem::paging::usable_frames;
use crate::mem::paging::BootInfoFrameAllocator;
use crate::mem::paging::MapToError;
use crate::mem::paging::Mapping;
use crate::mem::paging::Page;
use crate::mem::paging::PageTableFlags;
use crate::mem::paging::PageTableView;
use crate::mem::paging::PAGE_SIZE;
use crate::sync::mutex::Mutex;
use std::ops::DerefMut;

verus! {

/// The sizes in bytes of the blocks that the free lists hold, smallest
/// first. A block of a class is also aligned to the size of its class.
pub const BLOCK_SIZES: [usize; 9] = [8, 16, 32, 64, 128, 256, 512, 1024, 2048];

/// Where the heap starts in the virtual address space.
pub const HEAP_START: u64 = 0x4444_4444_0000;

/// The size of the heap in bytes.
pub const HEAP_SIZE: usize = 100 * 1024;

/// Whether `n` is a power of two.
pub open spec fn power_of_two(n: usize) -> bool {
    n != 0 && n & ((n - 1) as usize) == 0
}

/// Whether a block of `size` bytes aligned to `align` can be asked for: the
/// alignment is a power of two, and the size rounded up to it fits `isize`.
pub open spec fn spec_valid_layout(size: usize, align: usize) -> bool {
    power_of_two(align) && size <= isize::MAX - (align - 1)
}

/// Whether a block of `size` bytes aligned to `align` can be asked for.
#[verifier::when_used_as_spec(spec_valid_layout)]
pub fn valid_layout(size: usize, align: usize) -> (valid: bool)
    ensures
        valid == spec_valid_layout(size, align),
{
    if align == 0 || align & (align - 1) != 0 {
        return false;
    }
    let limit = isize::MAX as usize;
    align - 1 <= limit && size <= limit - (align - 1)
}

/// What a block of `size` bytes aligned to `align` needs of a size class:
/// room for its size and for its alignment.
pub open spec fn required(size: usize, align: usize) -> int {
    if size >= align {
        size as int
    } else {
        align as int
    }
}

/// The first size class from `from` on whose blocks hold `required` bytes.
pub open spec fn first_class(required: int, from: int) -> Option<int>
    decreases 9 - from,
{
    if from < 0 || from >= 9 {
        None
    } else if BLOCK_SIZES[from] >= required {
        Some(from)
    } else {
        first_class(required, from + 1)
    }
}

/// The size class that serves a request: the smallest whose blocks hold
/// `required` bytes, and none if no class is large enough.
pub open spec fn size_class(required: int) -> Option<int> {
    first_class(required, 0)
}

/// The size class of a request is the smallest class that is large enough,
/// and there is none exactly when the request exceeds the largest class.
pub proof fn lemma_size_class(required: int)
    ensures
        match size_class(required) {
            Some(idx) => {
                &&& 0 <= idx < 9
                &&& BLOCK_SIZES[idx] >= required
                &&& forall|j: int| 0 <= j < idx ==> BLOCK_SIZES[j] < required
            },
            None => required > 2048,
        },
{
    reveal_with_fuel(first_class, 10);
}

/// The index of the free list that serves a request for `size` bytes
/// aligned to `align`, if one does.
pub fn head(size: usize, align: usize) -> (idx: Option<usize>)
    ensures
        match idx {
            Some(i) => size_class(required(size, align)) == Some(i as int),
            None => size_class(required(size, align)) is None,
        },
{
    let required_block_size = if size >= align {
        size
    } else {
        align
    };
    let mut idx: usize = 0;
    while idx < 9
        invariant
            0 <= idx <= 9,
            required_block_size == required(size, align),
            size_class(required(size, align)) == first_class(required(size, align), idx as int),
        decreases 9 - idx,
    {
        if BLOCK_SIZES[idx] >= required_block_size {
            return Some(idx);
        }
        idx += 1;
    }
    None
}

/// The first-fit allocator of `linked_list_allocator`. It keeps its free
/// list inside the memory it manages; nothing of it is visible here but
/// the size of that memory.
#[verifier::external_type_specification]
#[verifier::external_body]
pub struct ExHeap(Heap);

/// What `Heap::size` returns for `heap`: the number of bytes that the heap
/// uses for allocations.
pub uninterp spec fn heap_size(heap: Heap) -> usize;

/// `Heap::empty` of `linked_list_allocator`: a heap that has no memory yet.
pub assume_specification[ Heap::empty ]() -> (heap: Heap)
    ensures
        heap_size(heap) == 0,
;

/// `Heap::size` of `linked_list_allocator`.
pub assume_specification[ Heap::size ](heap: &Heap) -> (size: usize)
    ensures
        size == heap_size(*heap),
;

/// `Heap::from_slice` of `linked_list_allocator`: a heap over the memory
/// `mem`. The call panics on a slice too short for the heap's first list
/// node, which takes up to three machine words; such a slice is ruled out.
/// The claim: the heap uses all of the slice but what it cuts off to align
/// the two ends to a machine word, which is less than 8 bytes at each end.
#[verifier::external_body]
fn heap_from_slice(mem: &'static mut [MaybeUninit<u8>]) -> (heap: Heap)
    requires
        old(mem)@.len() >= 24,
    ensures
        old(mem)@.len() - 14 <= heap_size(heap) <= old(mem)@.len(),
{
    Heap::from_slice(mem)
}

/// `Heap::allocate_first_fit` of `linked_list_allocator`, with the block's
/// address as a number and 0 for a request that was not served. The claims:
/// a block that is returned starts at a multiple of the alignment asked
/// for, no block is larger than the heap, and the heap keeps its size.
#[verifier::external_body]
fn heap_allocate_first_fit(heap: &mut Heap, size: usize, align: usize) -> (block: usize)
    requires
        valid_layout(size, align),
    ensures
        block != 0 ==> block as int % align as int == 0,
        block != 0 ==> size <= heap_size(*old(heap)) && 0 < heap_size(*old(heap)),
        heap_size(*final(heap)) == heap_size(*old(heap)),
{
    match heap.allocate_first_fit(std::alloc::Layout::from_size_align(size, align).unwrap()) {
        Ok(block) => block.addr().get(),
        Err(_) => 0,
    }
}

/// The sizes of the blocks are powers of two, so that each is an alignment.
pub proof fn lemma_block_sizes_are_layouts(idx: int)
    requires
        0 <= idx < 9,
    ensures
        valid_layout(BLOCK_SIZES[idx], BLOCK_SIZES[idx]),
{
    assert(8usize & 7usize == 0 && 16usize & 15usize == 0 && 32usize & 31usize == 0 && 64usize
        & 63usize == 0 && 128usize & 127usize == 0 && 256usize & 255usize == 0 && 512usize
        & 511usize == 0 && 1024usize & 1023usize == 0 && 2048usize & 2047usize == 0)
        by (bit_vector);
}

/// What holds of a block that `allocate` has returned for `size` bytes
/// aligned to `align`: it is not null, and it is aligned to the size of the
/// class that served it.
pub open spec fn spec_allocated_as(block: usize, size: usize, align: usize) -> bool {
    &&& block != 0
    &&& size_class(required(size, align)) matches Some(idx) ==> block as int
        % BLOCK_SIZES[idx] as int == 0
}

/// Whether `block` can be a block that `allocate` has returned for `size`
/// bytes aligned to `align`.
#[verifier::when_used_as_spec(spec_allocated_as)]
pub fn allocated_as(block: usize, size: usize, align: usize) -> (yes: bool)
    ensures
        yes == spec_allocated_as(block, size, align),
{
    if block == 0 {
        return false;
    }
    match head(size, align) {
        Some(idx) => {
            proof {
                lemma_size_class(required(size, align));
            }
            block % BLOCK_SIZES[idx] == 0
        },
        None => true,
    }
}

/// What `allocate` does: a request that has a size class takes the block that
/// was freed last in that class, and only if there is none does it go to the
/// fallback allocator, as a request for one block of the class. A request
/// without a size class goes to the fallback allocator as it is.
///
/// Of what the fallback allocator answers, this much is known: a block that
/// it returns is aligned as asked, and it is no larger than the memory of
/// `capacity` bytes that the fallback allocator has.
pub open spec fn allocate_post(
    before: Seq<Seq<usize>>,
    after: Seq<Seq<usize>>,
    capacity: usize,
    size: usize,
    align: usize,
    block: usize,
) -> bool {
    match size_class(required(size, align)) {
        Some(idx) => if before[idx].len() > 0 {
            &&& block == before[idx].last()
            &&& after == before.update(idx, before[idx].drop_last())
        } else {
            &&& after == before
            &&& block != 0 ==> block as int % BLOCK_SIZES[idx] as int == 0 && BLOCK_SIZES[idx]
                <= capacity
        },
        None => {
            &&& after == before
            &&& block != 0 ==> block as int % align as int == 0 && size <= capacity && 0
                < capacity
        },
    }
}

/// What `deallocate` does: a block that has a size class goes to the front of
/// that class's free list, and any other block is for the fallback allocator.
pub open spec fn deallocate_post(
    before: Seq<Seq<usize>>,
    after: Seq<Seq<usize>>,
    block: usize,
    size: usize,
    align: usize,
    fallback: bool,
) -> bool {
    match size_class(required(size, align)) {
        Some(idx) => !fallback && after == before.update(idx, before[idx].push(block)),
        None => fallback && after == before,
    }
}

/// Nothing is allocated before the heap has memory: with empty free lists
/// and a fallback allocator without memory every request fails.
pub proof fn lemma_no_memory_no_block(
    lists: Seq<Seq<usize>>,
    after: Seq<Seq<usize>>,
    size: usize,
    align: usize,
    block: usize,
)
    requires
        lists.len() == 9,
        forall|i: int| 0 <= i < 9 ==> (#[trigger] lists[i]).len() == 0,
        allocate_post(lists, after, 0, size, align, block),
    ensures
        block == 0,
        after == lists,
{
    lemma_size_class(required(size, align));
}

/// Free-list round trip: a block of a size class that is freed and asked for
/// again with the same size and alignment comes back, and the free lists are
/// as before, so the fallback allocator had no part in it.
pub proof fn lemma_round_trip(
    lists: Seq<Seq<usize>>,
    block: usize,
    size: usize,
    align: usize,
    fallback: bool,
    freed: Seq<Seq<usize>>,
    capacity: usize,
    again: usize,
    reused: Seq<Seq<usize>>,
)
    requires
        lists.len() == 9,
        size_class(required(size, align)) is Some,
        deallocate_post(lists, freed, block, size, align, fallback),
        allocate_post(freed, reused, capacity, size, align, again),
    ensures
        !fallback,
        again == block,
        reused == lists,
{
    lemma_size_class(required(size, align));
    let idx = size_class(required(size, align))->0;
    assert(lists[idx].push(block).drop_last() =~= lists[idx]);
}

/// The heap allocator: one free list for each size class, and the first-fit
/// allocator that serves what the lists cannot.
pub struct BlockAlloc {
    heads: Vec<Vec<usize>>,
    fallback: Heap,
}

impl BlockAlloc {
    /// The free lists, one for each size class. A list holds the addresses
    /// of its free blocks, the one that was freed last at the end.
    pub closed spec fn lists(&self) -> Seq<Seq<usize>> {
        Seq::new(self.heads@.len(), |i: int| self.heads@[i]@)
    }

    /// The number of bytes that the fallback allocator has to allocate
    /// from.
    pub closed spec fn spec_capacity(&self) -> usize {
        heap_size(self.fallback)
    }

    /// There is one list for each size class, and a block on a list is a
    /// block of that class: not null, and aligned to the class's size.
    pub open spec fn wf(&self) -> bool {
        &&& self.lists().len() == 9
        &&& forall|i: int, k: int|
            0 <= i < 9 && 0 <= k < self.lists()[i].len() ==> {
                &&& #[trigger] self.lists()[i][k] != 0
                &&& self.lists()[i][k] as int % BLOCK_SIZES[i] as int == 0
            }
    }

    /// An allocator with empty free lists and a fallback allocator that has
    /// no memory yet: until it is given some, every request fails.
    pub fn new() -> (allocator: Self)
        ensures
            allocator.wf(),
            allocator.capacity() == 0,
            forall|i: int| 0 <= i < 9 ==> (#[trigger] allocator.lists()[i]).len() == 0,
    {
        let mut heads: Vec<Vec<usize>> = Vec::new();
        while heads.len() < 9
            invariant
                heads@.len() <= 9,
                forall|i: int| 0 <= i < heads@.len() ==> (#[trigger] heads@[i])@.len() == 0,
            decreases 9 - heads@.len(),
        {
            heads.push(Vec::new());
        }
        BlockAlloc { heads, fallback: Heap::empty() }
    }

    /// Gives the fallback allocator the memory `heap` to manage, in place of
    /// what it had. It manages all of it but the few bytes that it cuts off
    /// at the ends to align them. The free lists stay as they are.
    pub fn init(&mut self, heap: &'static mut [MaybeUninit<u8>])
        requires
            old(heap)@.len() >= 24,
        ensures
            final(self).lists() == old(self).lists(),
            old(heap)@.len() - 14 <= final(self).capacity() <= old(heap)@.len(),
    {
        self.fallback = heap_from_slice(heap);
    }

    /// The number of bytes that the fallback allocator has to allocate
    /// from.
    #[verifier::when_used_as_spec(spec_capacity)]
    pub fn capacity(&self) -> (capacity: usize)
        ensures
            capacity == self.spec_capacity(),
    {
        self.fallback.size()
    }

    /// Asks the fallback allocator for a block; 0 stands for none.
    fn fallback_alloc(&mut self, size: usize, align: usize) -> (block: usize)
        requires
            valid_layout(size, align),
        ensures
            final(self).lists() == old(self).lists(),
            final(self).capacity() == old(self).capacity(),
            block != 0 ==> block as int % align as int == 0,
            block != 0 ==> size <= old(self).capacity() && 0 < old(self).capacity(),
    {
        heap_allocate_first_fit(&mut self.fallback, size, align)
    }

    /// Allocates a block of `size` bytes aligned to `align` and returns its
    /// address, or 0 if the fallback allocator was asked and had no fit.
    pub fn allocate(&mut self, size: usize, align: usize) -> (block: usize)
        requires
            old(self).wf(),
            valid_layout(size, align),
        ensures
            final(self).wf(),
            final(self).capacity() == old(self).capacity(),
            allocate_post(
                old(self).lists(),
                final(self).lists(),
                old(self).capacity(),
                size,
                align,
                block,
            ),
            block != 0 ==> allocated_as(block, size, align),
            size_class(required(size, align)) is None ==> final(self).lists() == old(self).lists(),
    {
        proof {
            lemma_size_class(required(size, align));
        }
        match head(size, align) {
            Some(idx) => {
                match self.heads[idx].pop() {
                    Some(block) => {
                        proof {
                            let before = old(self).lists();
                            assert(self.lists() =~= before.update(
                                idx as int,
                                before[idx as int].drop_last(),
                            ));
                        }
                        block
                    },
                    None => {
                        let block_size = BLOCK_SIZES[idx];
                        let block_align = block_size;
                        proof {
                            lemma_block_sizes_are_layouts(idx as int);
                            assert(self.lists() =~= old(self).lists());
                        }
                        self.fallback_alloc(block_size, block_align)
                    },
                }
            },
            None => self.fallback_alloc(size, align),
        }
    }

    /// Takes back the block at `block`, which `allocate` returned for this
    /// same `size` and `align`. A block of a size class goes on that class's
    /// free list and the result is `false`. Any other block has to go back
    /// to the fallback allocator, which is for the caller to do; the result
    /// is then `true`.
    ///
    /// Size and alignment are trusted: they are not stored with the block,
    /// and a block given back under others than it was allocated with would
    /// end up on the wrong list.
    pub fn deallocate(&mut self, block: usize, size: usize, align: usize) -> (fallback: bool)
        requires
            old(self).wf(),
            allocated_as(block, size, align),
        ensures
            final(self).wf(),
            final(self).capacity() == old(self).capacity(),
            deallocate_post(
                old(self).lists(),
                final(self).lists(),
                block,
                size,
                align,
                fallback,
            ),
    {
        proof {
            lemma_size_class(required(size, align));
        }
        match head(size, align) {
            Some(idx) => {
                self.heads[idx].push(block);
                proof {
                    let before = old(self).lists();
                    assert(self.lists() =~= before.update(
                        idx as int,
                        before[idx as int].push(block),
                    ));
                }
                false
            },
            None => true,
        }
    }

    /// The fallback allocator, for the caller that has a block to give back
    /// to it.
    pub fn fallback(&mut self) -> (heap: &mut Heap)
        ensures
            heap_size(*heap) == old(self).capacity(),
            final(self).lists() == old(self).lists(),
            final(self).capacity() == heap_size(*final(heap)),
    {
        &mut self.fallback
    }
}

impl Mutex<BlockAlloc> {
    /// Allocates from the allocator behind the lock: takes the lock, asks
    /// the allocator, and frees the lock again.
    pub fn allocate(&mut self, size: usize, align: usize) -> (block: usize)
        requires
            !old(self).is_locked(),
            old(self).value().wf(),
            valid_layout(size, align),
        ensures
            !final(self).is_locked(),
            final(self).value().wf(),
            final(self).value().capacity() == old(self).value().capacity(),
            allocate_post(
                old(self).value().lists(),
                final(self).value().lists(),
                old(self).value().capacity(),
                size,
                align,
                block,
            ),
            block != 0 ==> allocated_as(block, size, align),
    {
        let mut allocator = self.lock();
        let block = allocator.deref_mut().allocate(size, align);
        allocator.unlock();
        block
    }

    /// Gives a block back to the allocator behind the lock. The result is
    /// that of [`BlockAlloc::deallocate`].
    pub fn deallocate(&mut self, block: usize, size: usize, align: usize) -> (fallback: bool)
        requires
            !old(self).is_locked(),
            old(self).value().wf(),
            allocated_as(block, size, align),
        ensures
            !final(self).is_locked(),
            final(self).value().wf(),
            final(self).value().capacity() == old(self).value().capacity(),
            deallocate_post(
                old(self).value().lists(),
                final(self).value().lists(),
                block,
                size,
                align,
                fallback,
            ),
    {
        let mut allocator = self.lock();
        let fallback = allocator.deref_mut().deallocate(block, size, align);
        allocator.unlock();
        fallback
    }
}

/// The number of pages that the heap takes up.
pub const HEAP_PAGES: u64 = 25;

/// The start address of the `k`-th page of the heap.
pub open spec fn heap_page(k: int) -> int {
    HEAP_START + 4096 * k
}

/// Why mapping the `k`-th page of the heap fails, if it does: there is no
/// frame left for it when the cursor of the frame allocator started at
/// `next`, or there is one but the page has a translation among `before`.
pub open spec fn page_failure(before: Seq<Mapping>, frames: Seq<int>, next: int, k: int) -> Option<
    MapToError,
> {
    if next + k >= frames.len() {
        Some(MapToError::FrameAllocationFailed)
    } else if lookup(before, heap_page(k)) is Some {
        Some(MapToError::MappingFailed)
    } else {
        None
    }
}

/// The first page of the heap from the `from`-th on that cannot be mapped.
pub open spec fn first_failure(before: Seq<Mapping>, frames: Seq<int>, next: int, from: int)
    -> Option<int>
    decreases HEAP_PAGES - from,
{
    if from < 0 || from >= HEAP_PAGES {
        None
    } else if page_failure(before, frames, next, from) is Some {
        Some(from)
    } else {
        first_failure(before, frames, next, from + 1)
    }
}

/// `after` is `before` and then, for each of the first `count` pages of the
/// heap in order, one translation to the next frame of `frames` from `next`
/// on, present and writable and nothing else.
pub open spec fn heap_mapped(
    before: Seq<Mapping>,
    after: Seq<Mapping>,
    frames: Seq<int>,
    next: int,
    count: int,
) -> bool {
    &&& after.len() == before.len() + count
    &&& after.take(before.len() as int) == before
    &&& forall|i: int|
        before.len() <= i < after.len() ==> {
            let mapping = #[trigger] after[i];
            &&& mapping.page@ == heap_page(i - before.len())
            &&& mapping.frame@ == frames[next + i - before.len()]
            &&& mapping.flags.bits() == 3
        }
}

/// Maps the heap: every page from `HEAP_START` up to `HEAP_START + HEAP_SIZE`
/// gets the next frame of `frame_allocator`, present and writable.
///
/// The pages are taken in order and the first that fails ends the call:
/// with `FrameAllocationFailed` if there was no frame for it, with
/// `MappingFailed` if the page table refused it. The pages before it stay
/// mapped, and the frame that was taken for a refused page is not given
/// back.
///
/// The memory behind the pages can be handed to [`BlockAlloc::init`] once
/// the translations are in the hardware tables.
pub fn init_heap(
    mapper: &mut PageTableView,
    frame_allocator: &mut BootInfoFrameAllocator,
) -> (result: Result<(), MapToError>)
    requires
        old(frame_allocator).wf(),
        old(frame_allocator).next() + HEAP_PAGES <= usize::MAX,
    ensures
        final(frame_allocator).memory_map() == old(frame_allocator).memory_map(),
        final(mapper).phys_offset() == old(mapper).phys_offset(),
        final(mapper).level_4_table() == old(mapper).level_4_table(),
        match first_failure(
            old(mapper).entries(),
            usable_frames(old(frame_allocator).memory_map()),
            old(frame_allocator).next() as int,
            0,
        ) {
            None => {
                &&& result is Ok
                &&& final(frame_allocator).next() == old(frame_allocator).next() + HEAP_PAGES
                &&& heap_mapped(
                    old(mapper).entries(),
                    final(mapper).entries(),
                    usable_frames(old(frame_allocator).memory_map()),
                    old(frame_allocator).next() as int,
                    HEAP_PAGES as int,
                )
            },
            Some(k) => {
                &&& Some(result->Err_0) == page_failure(
                    old(mapper).entries(),
                    usable_frames(old(frame_allocator).memory_map()),
                    old(frame_allocator).next() as int,
                    k,
                )
                &&& result is Err
                &&& final(frame_allocator).next() == old(frame_allocator).next() + k + 1
                &&& heap_mapped(
                    old(mapper).entries(),
                    final(mapper).entries(),
                    usable_frames(old(frame_allocator).memory_map()),
                    old(frame_allocator).next() as int,
                    k,
                )
            },
        },
        result is Ok ==> forall|addr: int|
            HEAP_START <= addr < HEAP_START + HEAP_SIZE ==> {
                &&& (#[trigger] final(mapper).translate(align_down(addr))) is Some
                &&& final(mapper).translate(align_down(addr))->0.flags.is_present()
                &&& final(mapper).translate(align_down(addr))->0.flags.is_writable()
            },
{
    let ghost before = mapper.entries();
    let ghost frames = usable_frames(frame_allocator.memory_map());
    let ghost next = frame_allocator.next() as int;
    let heap_end: u64 = HEAP_START + HEAP_SIZE as u64 - 1;
    let heap_start_page = Page::containing_address(HEAP_START);
    let heap_end_page = Page::containing_address(heap_end);
    let mut addr: u64 = heap_start_page.start_address();
    let ghost mut k: int = 0;
    assert(mapper.entries().take(before.len() as int) =~= before);
    while addr <= heap_end_page.start_address()
        invariant
            0 <= k <= HEAP_PAGES,
            addr == heap_page(k),
            heap_end_page@ == heap_page(HEAP_PAGES - 1),
            frame_allocator.wf(),
            frame_allocator.memory_map() == old(frame_allocator).memory_map(),
            frame_allocator.next() == next + k,
            next + HEAP_PAGES <= usize::MAX,
            frames == usable_frames(frame_allocator.memory_map()),
            mapper.phys_offset() == old(mapper).phys_offset(),
            mapper.level_4_table() == old(mapper).level_4_table(),
            before == old(mapper).entries(),
            next == old(frame_allocator).next(),
            first_failure(before, frames, next, 0) == first_failure(before, frames, next, k),
            heap_mapped(before, mapper.entries(), frames, next, k),
            forall|j: int|
                k <= j < HEAP_PAGES ==> lookup(mapper.entries(), #[trigger] heap_page(j))
                    == lookup(before, heap_page(j)),
            forall|j: int|
                0 <= j < k ==> {
                    &&& (#[trigger] lookup(mapper.entries(), heap_page(j))) is Some
                    &&& lookup(mapper.entries(), heap_page(j))->0.flags.bits() == 3
                },
        decreases HEAP_PAGES - k,
    {
        let page = Page::containing_address(addr);
        let frame = match frame_allocator.allocate_frame() {
            Some(frame) => frame,
            None => {
                return Err(MapToError::FrameAllocationFailed);
            },
        };
        let flags = PageTableFlags::present().union(PageTableFlags::writable());
        let ghost entries = mapper.entries();
        match mapper.map_to(page, frame, flags) {
            Ok(()) => {},
            Err(e) => {
                return Err(e);
            },
        }
        proof {
            let mapping = Mapping { page, frame, flags };
            assert(1u64 | 2u64 == 3u64) by (bit_vector);
            assert forall|j: int| k + 1 <= j < HEAP_PAGES implies lookup(
                mapper.entries(),
                #[trigger] heap_page(j),
            ) == lookup(before, heap_page(j)) by {
                lemma_lookup_push(entries, mapping, heap_page(j));
            }
            assert forall|j: int| 0 <= j < k + 1 implies {
                &&& (#[trigger] lookup(mapper.entries(), heap_page(j))) is Some
                &&& lookup(mapper.entries(), heap_page(j))->0.flags.bits() == 3
            } by {
                lemma_lookup_push(entries, mapping, heap_page(j));
            }
            assert(mapper.entries().take(before.len() as int) =~= entries.take(
                before.len() as int,
            ));
            k = k + 1;
        }
        addr = addr + PAGE_SIZE;
    }
    proof {
        assert(3u64 & 1 == 1 && 3u64 & 2 == 2) by (bit_vector);
        assert forall|addr: int| HEAP_START <= addr < HEAP_START + HEAP_SIZE implies {
            &&& (#[trigger] mapper.translate(align_down(addr))) is Some
            &&& mapper.translate(align_down(addr))->0.flags.is_present()
            &&& mapper.translate(align_down(addr))->0.flags.is_writable()
        } by {
            let j = (addr - HEAP_START) / 4096;
            assert(lookup(mapper.entries(), heap_page(j)) is Some);
        }
    }
    Ok(())
}

} // verus!
