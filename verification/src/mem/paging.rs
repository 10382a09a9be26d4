//! Physical frames, the allocator that hands them out of the firmware
//! memory map, and the view of the page tables through which pages are
//! given frames.

use vstd::prelude::*;

verus! {

/// Size in bytes of a physical frame and of a virtual page.
pub const PAGE_SIZE: u64 = 4096;

/// First address that no longer is a physical address: they have 52 bits.
pub const PHYS_ADDR_LIMIT: u64 = 0x10_0000_0000_0000;

/// The start of the 4 KiB block that holds `addr`.
pub open spec fn align_down(addr: int) -> int {
    addr - addr % 4096
}

/// A 4 KiB-aligned physical memory frame, known by its start address.
#[derive(Clone, Copy, Debug, PartialEq, Eq, Structural)]
pub struct PhysFrame {
    start_address: u64,
}

impl View for PhysFrame {
    type V = int;

    closed spec fn view(&self) -> int {
        self.start_address as int
    }
}

impl PhysFrame {
    /// A frame starts on a 4 KiB boundary below the physical address limit.
    pub open spec fn wf(&self) -> bool {
        &&& self@ % 4096 == 0
        &&& 0 <= self@ < PHYS_ADDR_LIMIT
    }

    /// The frame that holds the physical address `addr`.
    pub fn containing_address(addr: u64) -> (frame: PhysFrame)
        requires
            addr < PHYS_ADDR_LIMIT,
        ensures
            frame@ == align_down(addr as int),
            frame.wf(),
    {
        PhysFrame { start_address: addr - addr % PAGE_SIZE }
    }

    /// The address of the frame's first byte.
    pub fn start_address(&self) -> (addr: u64)
        ensures
            addr == self@,
    {
        self.start_address
    }
}

/// What the firmware says a region of physical memory is.
#[derive(Clone, Copy, Debug, PartialEq, Eq, Structural)]
pub enum MemoryRegionType {
    /// Unused memory, free for the kernel.
    Usable,
    /// Memory that is already in use.
    InUse,
    /// Memory reserved by the hardware.
    Reserved,
    /// ACPI reclaimable memory.
    AcpiReclaimable,
    /// ACPI NVS memory.
    AcpiNvs,
    /// Memory that is known to be bad.
    BadMemory,
    /// Memory that holds the kernel.
    Kernel,
    /// Memory that holds the kernel stack.
    KernelStack,
    /// Memory that holds page tables.
    PageTable,
    /// Memory used by the boot loader.
    Bootloader,
    /// The frame at address zero.
    FrameZero,
    /// A region without memory.
    Empty,
    /// Memory that holds the boot information.
    BootInfo,
    /// Memory that holds the supplied package.
    Package,
}

/// A region of physical memory as the firmware reports it: the addresses
/// from `start` up to, not including, `end`, and what they are.
#[derive(Clone, Copy, Debug, PartialEq, Eq, Structural)]
pub struct MemoryRegion {
    pub start: u64,
    pub end: u64,
    pub kind: MemoryRegionType,
}

impl MemoryRegion {
    /// How many frames the allocator takes from this region: one for every
    /// 4096th address from `start` on that lies below `end`, if the region
    /// is usable.
    pub open spec fn frame_count(self) -> nat {
        if self.kind is Usable && self.start < self.end {
            ((self.end - self.start + 4095) / 4096) as nat
        } else {
            0
        }
    }

    /// The number of the frame that holds `start`.
    pub open spec fn first_frame(self) -> int {
        self.start as int / 4096
    }

    /// The start address of the `k`-th frame taken from this region.
    pub open spec fn frame(self, k: int) -> int {
        align_down(self.start + 4096 * k)
    }

    /// The start addresses of the frames taken from this region, in order.
    pub open spec fn frames(self) -> Seq<int> {
        Seq::new(self.frame_count(), |k: int| self.frame(k))
    }
}

/// The start addresses of all frames that a memory map offers, in the order
/// in which the allocator hands them out: region after region, and within a
/// usable region from its start upwards.
pub open spec fn usable_frames(map: Seq<MemoryRegion>) -> Seq<int>
    decreases map.len(),
{
    if map.len() == 0 {
        Seq::empty()
    } else {
        usable_frames(map.drop_last()) + map.last().frames()
    }
}

/// Every usable region ends at or below the physical address limit.
pub open spec fn valid_memory_map(map: Seq<MemoryRegion>) -> bool {
    forall|i: int|
        0 <= i < map.len() && (#[trigger] map[i]).frame_count() > 0 ==> map[i].end
            <= PHYS_ADDR_LIMIT
}

/// Whether `map` is a memory map that frames can be taken from.
pub fn check_memory_map(map: &Vec<MemoryRegion>) -> (valid: bool)
    ensures
        valid == valid_memory_map(map@),
{
    let mut i: usize = 0;
    while i < map.len()
        invariant
            0 <= i <= map@.len(),
            forall|j: int|
                0 <= j < i && (#[trigger] map@[j]).frame_count() > 0 ==> map@[j].end
                    <= PHYS_ADDR_LIMIT,
        decreases map@.len() - i,
    {
        let region = map[i];
        if region.kind == MemoryRegionType::Usable && region.start < region.end && region.end
            > PHYS_ADDR_LIMIT {
            return false;
        }
        i += 1;
    }
    true
}

/// No two usable regions share a frame.
pub open spec fn disjoint_regions(map: Seq<MemoryRegion>) -> bool {
    forall|a: int, b: int|
        0 <= a < b < map.len() && (#[trigger] map[a]).frame_count() > 0 && (
        #[trigger] map[b]).frame_count() > 0 ==> {
            ||| map[a].first_frame() + map[a].frame_count() <= map[b].first_frame()
            ||| map[b].first_frame() + map[b].frame_count() <= map[a].first_frame()
        }
}

/// The frames of the first `n` regions are the first frames of the map.
pub proof fn lemma_frames_of_prefix(map: Seq<MemoryRegion>, n: int)
    requires
        0 <= n <= map.len(),
    ensures
        usable_frames(map.take(n)).len() <= usable_frames(map).len(),
        usable_frames(map.take(n)) == usable_frames(map).take(
            usable_frames(map.take(n)).len() as int,
        ),
    decreases map.len(),
{
    if n == map.len() {
        assert(map.take(n) =~= map);
    } else {
        assert(map.drop_last().take(n) =~= map.take(n));
        lemma_frames_of_prefix(map.drop_last(), n);
    }
}

/// Where a frame of the map comes from: the region and the place in it.
pub proof fn lemma_frame_origin(map: Seq<MemoryRegion>, i: int) -> (origin: (int, int))
    requires
        0 <= i < usable_frames(map).len(),
    ensures
        0 <= origin.0 < map.len(),
        0 <= origin.1 < map[origin.0].frame_count(),
        usable_frames(map)[i] == map[origin.0].frame(origin.1),
    decreases map.len(),
{
    let before = usable_frames(map.drop_last());
    if i < before.len() {
        lemma_frame_origin(map.drop_last(), i)
    } else {
        (map.len() - 1, i - before.len())
    }
}

/// Every frame that the allocator hands out holds an address of a usable
/// region, and lies itself below the physical address limit.
pub proof fn lemma_frame_in_usable_region(map: Seq<MemoryRegion>, i: int) -> (origin: (int, int))
    requires
        0 <= i < usable_frames(map).len(),
    ensures
        0 <= origin.0 < map.len(),
        map[origin.0].kind is Usable,
        map[origin.0].start <= map[origin.0].start + 4096 * origin.1 < map[origin.0].end,
        usable_frames(map)[i] == align_down(map[origin.0].start + 4096 * origin.1),
        usable_frames(map)[i] % 4096 == 0,
        valid_memory_map(map) ==> 0 <= usable_frames(map)[i] < PHYS_ADDR_LIMIT,
{
    lemma_frame_origin(map, i)
}

/// Frame uniqueness: in a map whose usable regions share no frame, no frame
/// comes up twice.
pub proof fn lemma_frame_uniqueness(map: Seq<MemoryRegion>, i: int, j: int)
    requires
        disjoint_regions(map),
        0 <= i < j < usable_frames(map).len(),
    ensures
        usable_frames(map)[i] != usable_frames(map)[j],
    decreases map.len(),
{
    let rest = map.drop_last();
    let before = usable_frames(rest);
    assert(disjoint_regions(rest));
    if j < before.len() {
        // both frames come from the regions before the last
        lemma_frame_uniqueness(rest, i, j);
    } else if i < before.len() {
        // the first comes from a region before the last, the second from
        // the last, and the two regions share no frame
        lemma_frame_origin(rest, i);
    }
    // otherwise both come from the last region, from two places in it
}

/// Where the `k`-th frame of the region `a` stands among all frames: behind
/// the frames of the regions before it and the first `k` of its own.
pub proof fn lemma_frame_place(map: Seq<MemoryRegion>, a: int, k: int) -> (place: int)
    requires
        0 <= a < map.len(),
        0 <= k < map[a].frame_count(),
    ensures
        place == usable_frames(map.take(a)).len() + k,
        0 <= place < usable_frames(map.take(a + 1)).len() <= usable_frames(map).len(),
        usable_frames(map)[place] == map[a].frame(k),
{
    lemma_frames_of_prefix(map, a + 1);
    assert(map.take(a + 1).drop_last() =~= map.take(a));
    let place = usable_frames(map.take(a)).len() + k;
    assert(usable_frames(map.take(a + 1))[place] == usable_frames(map)[place]);
    place
}

/// Frame uniqueness asks no more of the memory map than it must: where two
/// usable regions share a frame, that frame comes up twice.
pub proof fn lemma_shared_frame_repeats(map: Seq<MemoryRegion>, a: int, b: int) -> (places: (
    int,
    int,
))
    requires
        0 <= a < b < map.len(),
        map[a].frame_count() > 0,
        map[b].frame_count() > 0,
        map[a].first_frame() + map[a].frame_count() > map[b].first_frame(),
        map[b].first_frame() + map[b].frame_count() > map[a].first_frame(),
    ensures
        0 <= places.0 < places.1 < usable_frames(map).len(),
        usable_frames(map)[places.0] == usable_frames(map)[places.1],
{
    let shared = if map[a].first_frame() >= map[b].first_frame() {
        map[a].first_frame()
    } else {
        map[b].first_frame()
    };
    let k = shared - map[a].first_frame();
    let l = shared - map[b].first_frame();
    let i = lemma_frame_place(map, a, k);
    let j = lemma_frame_place(map, b, l);
    assert(usable_frames(map.take(a + 1)).len() <= usable_frames(map.take(b)).len()) by {
        lemma_frames_of_prefix(map.take(b), a + 1);
        assert(map.take(b).take(a + 1) =~= map.take(a + 1));
    }
    (i, j)
}

/// Hands out the usable frames of a memory map, each at most once.
#[derive(Debug)]
pub struct BootInfoFrameAllocator {
    memory_map: Vec<MemoryRegion>,
    next: usize,
}

impl BootInfoFrameAllocator {
    /// The memory map that the allocator reads.
    pub closed spec fn memory_map(&self) -> Seq<MemoryRegion> {
        self.memory_map@
    }

    /// The cursor: how many calls of `allocate_frame` there have been.
    pub closed spec fn next(&self) -> nat {
        self.next as nat
    }

    /// The cursor: how many calls of `allocate_frame` there have been.
    pub fn cursor(&self) -> (cursor: usize)
        ensures
            cursor == self.next(),
    {
        self.next
    }

    /// The memory map is one that frames can be taken from.
    pub open spec fn wf(&self) -> bool {
        valid_memory_map(self.memory_map())
    }

    /// The frame that the call with the cursor at `index` returns.
    pub open spec fn frame_at(&self, index: nat) -> Option<int> {
        if index < usable_frames(self.memory_map()).len() {
            Some(usable_frames(self.memory_map())[index as int])
        } else {
            None
        }
    }

    /// The `index`-th usable frame of the memory map.
    fn nth_frame(&self, index: usize) -> (frame: Option<PhysFrame>)
        requires
            self.wf(),
        ensures
            match frame {
                Some(f) => self.frame_at(index as nat) == Some(f@) && f.wf(),
                None => self.frame_at(index as nat) is None,
            },
    {
        let ghost map = self.memory_map@;
        let mut skip: usize = index;
        let mut i: usize = 0;
        while i < self.memory_map.len()
            invariant
                map == self.memory_map@,
                valid_memory_map(map),
                0 <= i <= map.len(),
                skip <= index,
                usable_frames(map.take(i as int)).len() == index - skip,
            decreases map.len() - i,
        {
            let region = self.memory_map[i];
            proof {
                assert(map.take(i + 1).drop_last() =~= map.take(i as int));
            }
            if region.kind == MemoryRegionType::Usable && region.start < region.end {
                let count: u64 = (region.end - region.start + (PAGE_SIZE - 1)) / PAGE_SIZE;
                if (skip as u64) < count {
                    let addr: u64 = region.start + (skip as u64) * PAGE_SIZE;
                    proof {
                        lemma_frames_of_prefix(map, i + 1);
                        let upto = usable_frames(map.take(i + 1));
                        assert(upto[index as int] == usable_frames(map)[index as int]);
                    }
                    return Some(PhysFrame::containing_address(addr));
                }
                skip = skip - count as usize;
            }
            i += 1;
        }
        proof {
            assert(map.take(i as int) =~= map);
        }
        None
    }

    /// The next usable frame that has not been handed out, or `None` when
    /// the memory map has no more. The cursor moves on either way, so that
    /// no frame is handed out twice.
    pub fn allocate_frame(&mut self) -> (frame: Option<PhysFrame>)
        requires
            old(self).wf(),
            old(self).next() < usize::MAX,
        ensures
            final(self).memory_map() == old(self).memory_map(),
            final(self).next() == old(self).next() + 1,
            match frame {
                Some(f) => old(self).frame_at(old(self).next()) == Some(f@) && f.wf(),
                None => old(self).frame_at(old(self).next()) is None,
            },
    {
        let frame = self.nth_frame(self.next);
        self.next += 1;
        frame
    }
}

/// A frame allocator over `memory_map` that has handed out nothing yet.
pub fn frame_allocator(memory_map: Vec<MemoryRegion>) -> (allocator: BootInfoFrameAllocator)
    requires
        valid_memory_map(memory_map@),
    ensures
        allocator.wf(),
        allocator.memory_map() == memory_map@,
        allocator.next() == 0,
{
    BootInfoFrameAllocator { memory_map, next: 0 }
}

/// Whether `addr` is a canonical virtual address: its upper 17 bits are all
/// equal.
pub open spec fn canonical(addr: int) -> bool {
    0 <= addr < 0x8000_0000_0000 || 0xFFFF_8000_0000_0000 <= addr <= u64::MAX
}

/// Whether `addr` is a canonical virtual address.
pub fn is_canonical(addr: u64) -> (yes: bool)
    ensures
        yes == canonical(addr as int),
{
    addr < 0x8000_0000_0000 || addr >= 0xFFFF_8000_0000_0000
}

/// A 4 KiB-aligned virtual memory page, known by its start address.
#[derive(Clone, Copy, Debug, PartialEq, Eq, Structural)]
pub struct Page {
    start_address: u64,
}

impl View for Page {
    type V = int;

    closed spec fn view(&self) -> int {
        self.start_address as int
    }
}

impl Page {
    /// A page starts on a 4 KiB boundary at a canonical address.
    pub open spec fn wf(&self) -> bool {
        &&& self@ % 4096 == 0
        &&& canonical(self@)
    }

    /// The page that holds the virtual address `addr`.
    pub fn containing_address(addr: u64) -> (page: Page)
        requires
            canonical(addr as int),
        ensures
            page@ == align_down(addr as int),
            page.wf(),
    {
        Page { start_address: addr - addr % PAGE_SIZE }
    }

    /// The address of the page's first byte.
    pub fn start_address(&self) -> (addr: u64)
        ensures
            addr == self@,
    {
        self.start_address
    }
}

/// The permission bits of a page-table entry.
#[derive(Clone, Copy, Debug, PartialEq, Eq, Structural)]
pub struct PageTableFlags {
    bits: u64,
}

impl PageTableFlags {
    /// The bits, as the hardware reads them.
    pub closed spec fn spec_bits(self) -> u64 {
        self.bits
    }

    /// Whether all bits of `other` are set in `self`.
    pub open spec fn spec_contains(self, other: PageTableFlags) -> bool {
        self.spec_bits() & other.spec_bits() == other.spec_bits()
    }

    /// Whether the entry maps something: bit 0 is set.
    pub open spec fn is_present(self) -> bool {
        self.spec_bits() & 1 == 1
    }

    /// Whether the entry may be written through: bit 1 is set.
    pub open spec fn is_writable(self) -> bool {
        self.spec_bits() & 2 == 2
    }

    /// The flag of an entry that maps something: bit 0.
    pub fn present() -> (flags: PageTableFlags)
        ensures
            flags.bits() == 1,
    {
        PageTableFlags { bits: 1 }
    }

    /// The flag of an entry that may be written through: bit 1.
    pub fn writable() -> (flags: PageTableFlags)
        ensures
            flags.bits() == 2,
    {
        PageTableFlags { bits: 2 }
    }

    /// The flags of `self` and of `other` together.
    pub fn union(self, other: PageTableFlags) -> (flags: PageTableFlags)
        ensures
            flags.bits() == self.bits() | other.bits(),
    {
        PageTableFlags { bits: self.bits | other.bits }
    }

    /// Whether all flags of `other` are set in `self`.
    #[verifier::when_used_as_spec(spec_contains)]
    pub fn contains(self, other: PageTableFlags) -> (all: bool)
        ensures
            all == self.spec_contains(other),
    {
        self.bits & other.bits == other.bits
    }

    /// The bits, as the hardware reads them.
    #[verifier::when_used_as_spec(spec_bits)]
    pub fn bits(self) -> (bits: u64)
        ensures
            bits == self.spec_bits(),
    {
        self.bits
    }
}

/// Why a page could not be given a frame.
#[derive(Clone, Copy, Debug, PartialEq, Eq, Structural)]
pub enum MapToError {
    /// A frame was needed and the frame allocator had none left.
    FrameAllocationFailed,
    /// The page table refused the translation: the page is mapped already.
    MappingFailed,
}

/// One translation: `page` is backed by `frame` with the permissions `flags`.
#[derive(Clone, Copy, Debug, PartialEq, Eq, Structural)]
pub struct Mapping {
    pub page: Page,
    pub frame: PhysFrame,
    pub flags: PageTableFlags,
}

/// The translation that the last entry for the page at `page` gives, if
/// `entries` holds one.
pub open spec fn lookup(entries: Seq<Mapping>, page: int) -> Option<Mapping>
    decreases entries.len(),
{
    if entries.len() == 0 {
        None
    } else if entries.last().page@ == page {
        Some(entries.last())
    } else {
        lookup(entries.drop_last(), page)
    }
}

/// An entry that is added for another page leaves a lookup as it was.
pub proof fn lemma_lookup_push(entries: Seq<Mapping>, mapping: Mapping, page: int)
    ensures
        lookup(entries.push(mapping), page) == if mapping.page@ == page {
            Some(mapping)
        } else {
            lookup(entries, page)
        },
{
    assert(entries.push(mapping).drop_last() =~= entries);
}

/// A view of the active page-table tree: the top-level table, found at its
/// physical address plus the offset at which all physical memory is mapped,
/// and the translations that were added through the view.
#[derive(Debug)]
pub struct PageTableView {
    phys_offset: u64,
    level_4_table: u64,
    entries: Vec<Mapping>,
}

impl PageTableView {
    /// The offset between a physical address and the virtual address at
    /// which it is mapped.
    pub closed spec fn phys_offset(&self) -> int {
        self.phys_offset as int
    }

    /// The virtual address of the top-level table.
    pub closed spec fn spec_level_4_table(&self) -> u64 {
        self.level_4_table
    }

    /// The translations that were added through this view, oldest first.
    pub closed spec fn entries(&self) -> Seq<Mapping> {
        self.entries@
    }

    /// The translation of the page at `page`, if the view holds one.
    pub open spec fn translate(&self, page: int) -> Option<Mapping> {
        lookup(self.entries(), page)
    }

    /// The virtual address of the top-level table.
    #[verifier::when_used_as_spec(spec_level_4_table)]
    pub fn level_4_table(&self) -> (addr: u64)
        ensures
            addr == self.spec_level_4_table(),
    {
        self.level_4_table
    }

    /// The translation of `page`, if the view holds one.
    pub fn translate_page(&self, page: Page) -> (mapping: Option<Mapping>)
        ensures
            mapping == self.translate(page@),
    {
        let mut i: usize = self.entries.len();
        proof {
            assert(self.entries@.take(i as int) =~= self.entries@);
        }
        while i > 0
            invariant
                0 <= i <= self.entries@.len(),
                lookup(self.entries@, page@) == lookup(self.entries@.take(i as int), page@),
            decreases i,
        {
            i -= 1;
            proof {
                assert(self.entries@.take(i + 1).drop_last() =~= self.entries@.take(i as int));
            }
            if self.entries[i].page.start_address() == page.start_address() {
                return Some(self.entries[i]);
            }
        }
        None
    }

    /// Maps `page` to `frame` with the permissions `flags`. A page that is
    /// mapped already keeps its translation, and the call fails.
    pub fn map_to(&mut self, page: Page, frame: PhysFrame, flags: PageTableFlags) -> (result:
        Result<(), MapToError>)
        ensures
            final(self).phys_offset() == old(self).phys_offset(),
            final(self).level_4_table() == old(self).level_4_table(),
            match result {
                Ok(()) => {
                    &&& old(self).translate(page@) is None
                    &&& final(self).entries() == old(self).entries().push(
                        Mapping { page, frame, flags },
                    )
                },
                Err(e) => {
                    &&& e == MapToError::MappingFailed
                    &&& old(self).translate(page@) is Some
                    &&& final(self).entries() == old(self).entries()
                },
            },
    {
        if self.translate_page(page).is_some() {
            return Err(MapToError::MappingFailed);
        }
        self.entries.push(Mapping { page, frame, flags });
        Ok(())
    }

    /// The translations that were added through this view, oldest first.
    pub fn mappings(&self) -> (entries: &Vec<Mapping>)
        ensures
            entries@ == self.entries(),
    {
        &self.entries
    }
}

/// The view of the page-table tree whose top-level table lies in the frame
/// `level_4_frame`, where all physical memory is mapped at `phys_offset`.
///
/// The table is found by adding the offset to the table's physical address.
/// That the offset is the true one cannot be checked here: a wrong one makes
/// the view point at arbitrary memory.
pub fn mapper(phys_offset: u64, level_4_frame: PhysFrame) -> (view: PageTableView)
    requires
        canonical(phys_offset as int),
        canonical(phys_offset + level_4_frame@),
    ensures
        view.phys_offset() == phys_offset,
        view.level_4_table() == phys_offset + level_4_frame@,
        view.entries() == Seq::<Mapping>::empty(),
{
    PageTableView {
        phys_offset,
        level_4_table: phys_offset + level_4_frame.start_address(),
        entries: Vec::new(),
    }
}

} // verus!
