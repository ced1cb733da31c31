//! The kernel heap: its fixed virtual range, the mapping of that range
//! during boot, and a bump allocator.
//!
//! The heap occupies a fixed virtual range that the boot path backs with
//! fresh frames, present and writable, before arming the global
//! allocator with it.

use vstd::prelude::*;

use crate::memory::BootInfoFrameAllocator;
use crate::memory::PAGE_SIZE;
use crate::paging::mappings_contain;
use crate::paging::KernelMapper;
use crate::paging::MapError;
use crate::paging::Mapping;
use crate::paging::KERNEL_TABLE_FLAGS;

verus! {

/// Bottom of the kernel heap's virtual range.
pub const HEAP_START: u64 = 0xFFFF_A000_0000_0000;
/// Size of the kernel heap in bytes.
pub const HEAP_SIZE: u64 = 100 * 1024;
/// Pages the heap range covers.
pub const HEAP_PAGES: u64 = HEAP_SIZE / PAGE_SIZE;

/// The `k`-th page of the heap range.
pub open spec fn heap_page(k: int) -> u64 {
    ((HEAP_START + k * PAGE_SIZE) as int) as u64
}

/// Whether `q` is a page of the heap range.
pub open spec fn in_heap_range(q: u64) -> bool {
    exists|k: int| 0 <= k < HEAP_PAGES && q == #[trigger] heap_page(k)
}

/// No page of the heap range is mapped yet.
pub open spec fn heap_range_free(m: KernelMapper) -> bool {
    forall|k: int| 0 <= k < HEAP_PAGES ==> !m.is_mapped(#[trigger] heap_page(k))
}

/// The mappings the heap initializer installs: every heap page, backed
/// by the next frames in allocation order, present and writable.
pub open spec fn heap_mappings(fs: Seq<u64>, c0: int) -> Seq<Mapping> {
    Seq::new(
        HEAP_PAGES as nat,
        |i: int| Mapping { page: heap_page(i), frame: fs[c0 + i], flags: KERNEL_TABLE_FLAGS },
    )
}

/// A page outside the heap range is covered by the heap's mappings for
/// no prefix of them.
proof fn lemma_heap_mappings_outside(m0: Seq<Mapping>, fs: Seq<u64>, c0: int, cnt: int, q: u64)
    requires
        0 <= cnt <= HEAP_PAGES,
        !in_heap_range(q),
    ensures
        mappings_contain(m0 + heap_mappings(fs, c0).take(cnt), q) == mappings_contain(m0, q),
{
    let block = heap_mappings(fs, c0).take(cnt);
    crate::paging::lemma_mappings_contain_split(m0, block, q);
    if mappings_contain(block, q) {
        let j = choose|j: int| 0 <= j < block.len() && #[trigger] block[j].page == q;
        assert(block[j].page == heap_page(j));
        assert(in_heap_range(q));
    }
}

/// Maps the heap's fixed virtual range with fresh frames, present and
/// writable; the caller then arms the global allocator with the range.
/// Succeeds exactly when the memory map still holds a frame for every
/// heap page and no heap page is already mapped. The mapped-ness of
/// every page outside the heap range is unchanged.
pub fn init_heap(
    mapper: &mut KernelMapper,
    frame_allocator: &mut BootInfoFrameAllocator,
) -> (r: Result<(), MapError>)
    requires
        old(mapper).wf(),
        old(frame_allocator).wf(),
        old(frame_allocator).cursor() + HEAP_PAGES < usize::MAX,
    ensures
        final(mapper).wf(),
        final(frame_allocator).wf(),
        final(frame_allocator).frame_seq() == old(frame_allocator).frame_seq(),
        final(mapper).spec_kernel_l3_data() == old(mapper).spec_kernel_l3_data(),
        final(mapper).spec_kernel_l3_code() == old(mapper).spec_kernel_l3_code(),
        r is Ok <==> old(frame_allocator).cursor() + HEAP_PAGES
            <= old(frame_allocator).frame_seq().len()
            && heap_range_free(*old(mapper)),
        r is Ok ==> final(frame_allocator).cursor() == old(frame_allocator).cursor() + HEAP_PAGES,
        r is Ok ==> final(mapper).spec_mappings() == old(mapper).spec_mappings()
            + heap_mappings(old(frame_allocator).frame_seq(), old(frame_allocator).cursor()),
        forall|q: u64| !in_heap_range(q)
            ==> final(mapper).is_mapped(q) == old(mapper).is_mapped(q),
{
    let ghost fs = old(frame_allocator).frame_seq();
    let ghost c0 = old(frame_allocator).cursor();
    let ghost m0 = old(mapper).spec_mappings();
    let mut k: u64 = 0;
    while k < HEAP_PAGES
        invariant
            fs == old(frame_allocator).frame_seq(),
            c0 == old(frame_allocator).cursor(),
            m0 == old(mapper).spec_mappings(),
            0 <= k <= HEAP_PAGES,
            c0 + HEAP_PAGES < usize::MAX,
            frame_allocator.wf(),
            frame_allocator.frame_seq() == fs,
            frame_allocator.cursor() == c0 + k,
            c0 + k <= fs.len() || k == 0,
            mapper.wf(),
            mapper.spec_kernel_l3_data() == old(mapper).spec_kernel_l3_data(),
            mapper.spec_kernel_l3_code() == old(mapper).spec_kernel_l3_code(),
            mapper.spec_mappings() == m0 + heap_mappings(fs, c0).take(k as int),
            forall|i: int| 0 <= i < k ==> !mappings_contain(m0, #[trigger] heap_page(i)),
        decreases HEAP_PAGES - k,
    {
        let page = HEAP_START + k * PAGE_SIZE;
        proof {
            assert(page % PAGE_SIZE == 0) by {
                vstd::arithmetic::div_mod::lemma_mod_multiples_vanish(
                    k as int,
                    HEAP_START as int,
                    PAGE_SIZE as int,
                );
                assert(HEAP_START % PAGE_SIZE == 0);
            }
            assert(page == heap_page(k as int));
        }
        let frame = match frame_allocator.allocate_frame() {
            Some(f) => f,
            None => {
                proof {
                    assert forall|q: u64| !in_heap_range(q)
                        implies mapper.is_mapped(q) == mappings_contain(m0, q) by {
                        lemma_heap_mappings_outside(m0, fs, c0, k as int, q);
                    }
                }
                return Err(MapError::FrameAllocationFailed);
            },
        };
        let ghost before = mapper.spec_mappings();
        match mapper.map_to(page, frame, KERNEL_TABLE_FLAGS) {
            Ok(()) => {
                proof {
                    assert(!mappings_contain(before, page));
                    crate::paging::lemma_mappings_contain_split(m0, heap_mappings(fs, c0).take(k as int), page);
                    assert(!mappings_contain(m0, page));
                    assert(mapper.spec_mappings()
                        =~= m0 + heap_mappings(fs, c0).take((k + 1) as int)) by {
                        assert(heap_mappings(fs, c0).take((k + 1) as int)
                            =~= heap_mappings(fs, c0).take(k as int).push(
                                Mapping { page, frame, flags: KERNEL_TABLE_FLAGS },
                            ));
                    }
                }
            },
            Err(_) => {
                proof {
                    assert(mappings_contain(before, page));
                    crate::paging::lemma_mappings_contain_split(m0, heap_mappings(fs, c0).take(k as int), page);
                    if mappings_contain(heap_mappings(fs, c0).take(k as int), page) {
                        let blk = heap_mappings(fs, c0).take(k as int);
                        let j = choose|j: int| 0 <= j < blk.len() && #[trigger] blk[j].page == page;
                        assert(blk[j].page == heap_page(j));
                        assert(j * PAGE_SIZE < k * PAGE_SIZE);
                    }
                    assert(mappings_contain(m0, page));
                    assert(old(mapper).is_mapped(heap_page(k as int)));
                    assert(!heap_range_free(*old(mapper)));
                    assert forall|q: u64| !in_heap_range(q)
                        implies mapper.is_mapped(q) == mappings_contain(m0, q) by {
                        lemma_heap_mappings_outside(m0, fs, c0, k as int, q);
                    }
                }
                return Err(MapError::PageAlreadyMapped);
            },
        }
        k = k + 1;
    }
    proof {
        assert(mapper.spec_mappings() =~= m0 + heap_mappings(fs, c0)) by {
            assert(heap_mappings(fs, c0).take(HEAP_PAGES as int) =~= heap_mappings(fs, c0));
        }
        assert(heap_range_free(*old(mapper)));
        assert forall|q: u64| !in_heap_range(q)
            implies mapper.is_mapped(q) == mappings_contain(m0, q) by {
            lemma_heap_mappings_outside(m0, fs, c0, HEAP_PAGES as int, q);
        }
    }
    Ok(())
}

/// The smallest multiple of `align` at or above `addr`.
pub open spec fn spec_align_up(addr: int, align: int) -> int {
    addr + ((align - addr % align) % align)
}

/// Rounds `addr` up to the next multiple of `align`.
pub fn align_up(addr: usize, align: usize) -> (r: usize)
    requires
        align > 0,
        spec_align_up(addr as int, align as int) <= usize::MAX,
    ensures
        r == spec_align_up(addr as int, align as int),
        r % align == 0,
        addr <= r < addr + align,
{
    proof {
        lemma_align_up_props(addr as int, align as int);
    }
    let remainder = addr % align;
    if remainder == 0 {
        addr
    } else {
        addr - remainder + align
    }
}

/// Rounding up lands on the next multiple, less than one `align` away.
pub proof fn lemma_align_up_props(addr: int, align: int)
    requires
        align > 0,
        addr >= 0,
    ensures
        spec_align_up(addr, align) % align == 0,
        addr <= spec_align_up(addr, align) < addr + align,
        0 <= addr % align <= addr,
        addr % align == 0 ==> spec_align_up(addr, align) == addr,
        addr % align != 0 ==> spec_align_up(addr, align) == addr - addr % align + align,
{
    let rem = addr % align;
    vstd::arithmetic::div_mod::lemma_fundamental_div_mod(addr, align);
    let q = addr / align;
    assert(align * q >= 0) by (nonlinear_arith)
        requires align > 0, q >= 0;
    if rem == 0 {
        assert((align - rem) % align == 0) by {
            vstd::arithmetic::div_mod::lemma_mod_multiples_basic(1, align);
        }
    } else {
        vstd::arithmetic::div_mod::lemma_small_mod((align - rem) as nat, align as nat);
        assert(spec_align_up(addr, align) == addr - rem + align);
        assert(addr - rem + align == align * (q + 1)) by {
            assert(align * (q + 1) == align * q + align) by (nonlinear_arith);
        }
        assert((align * (q + 1)) % align == 0) by {
            vstd::arithmetic::div_mod::lemma_mod_multiples_basic(q + 1, align);
        }
    }
}

/// A bump allocator over the heap range: hands out consecutive aligned
/// chunks and can only reset once every allocation has been returned.
pub struct BumpAllocator {
    heap_start: usize,
    heap_end: usize,
    next: usize,
    alloc_counter: u64,
}

impl BumpAllocator {
    /// Bottom of the arena.
    pub closed spec fn spec_heap_start(self) -> usize {
        self.heap_start
    }

    /// Top of the arena.
    pub closed spec fn spec_heap_end(self) -> usize {
        self.heap_end
    }

    /// The next free address.
    pub closed spec fn spec_next(self) -> usize {
        self.next
    }

    /// Allocations handed out and not yet returned.
    pub closed spec fn spec_alloc_counter(self) -> u64 {
        self.alloc_counter
    }

    /// The cursor stays inside the arena.
    pub open spec fn wf(self) -> bool {
        self.spec_heap_start() <= self.spec_next() <= self.spec_heap_end()
    }

    /// An unarmed allocator over an empty arena.
    pub fn new() -> (r: Self)
        ensures
            r.wf(),
            r.spec_heap_start() == 0,
            r.spec_heap_end() == 0,
            r.spec_next() == 0,
            r.spec_alloc_counter() == 0,
    {
        BumpAllocator { heap_start: 0, heap_end: 0, next: 0, alloc_counter: 0 }
    }

    /// Arms the allocator with its arena.
    pub fn init(&mut self, heap_start: usize, heap_size: usize)
        requires
            heap_start + heap_size <= usize::MAX,
        ensures
            final(self).wf(),
            final(self).spec_heap_start() == heap_start,
            final(self).spec_heap_end() == heap_start + heap_size,
            final(self).spec_next() == heap_start,
            final(self).spec_alloc_counter() == old(self).spec_alloc_counter(),
    {
        self.heap_start = heap_start;
        self.heap_end = heap_start + heap_size;
        self.next = heap_start;
    }

    /// Allocations handed out and not yet returned.
    pub fn allocations(&self) -> (r: u64)
        ensures
            r == self.spec_alloc_counter(),
    {
        self.alloc_counter
    }

    /// Hands out `size` bytes at the next `align`-aligned address, or
    /// nothing exactly when the chunk would not fit in the arena; the
    /// allocator is unchanged then.
    pub fn allocate(&mut self, size: usize, align: usize) -> (r: Option<usize>)
        requires
            old(self).wf(),
            align > 0,
            old(self).spec_alloc_counter() < u64::MAX,
        ensures
            final(self).wf(),
            final(self).spec_heap_start() == old(self).spec_heap_start(),
            final(self).spec_heap_end() == old(self).spec_heap_end(),
            r is Some <==> spec_align_up(old(self).spec_next() as int, align as int) + size
                <= old(self).spec_heap_end(),
            r matches Some(a) ==> {
                &&& a == spec_align_up(old(self).spec_next() as int, align as int)
                &&& a % align == 0
                &&& old(self).spec_next() <= a
                &&& a + size <= old(self).spec_heap_end()
                &&& final(self).spec_next() == a + size
                &&& final(self).spec_alloc_counter() == old(self).spec_alloc_counter() + 1
            },
            r is None ==> *final(self) == *old(self),
    {
        proof {
            lemma_align_up_props(self.next as int, align as int);
        }
        let remainder = self.next % align;
        let alloc_start: usize = if remainder == 0 {
            self.next
        } else {
            if align - remainder > usize::MAX - self.next {
                return None;
            }
            self.next - remainder + align
        };
        if size > usize::MAX - alloc_start {
            return None;
        }
        let alloc_end = alloc_start + size;
        if alloc_end > self.heap_end {
            None
        } else {
            self.next = alloc_end;
            self.alloc_counter = self.alloc_counter + 1;
            Some(alloc_start)
        }
    }

    /// Returns one allocation; once all are returned the arena resets to
    /// its start.
    pub fn dealloc(&mut self)
        requires
            old(self).wf(),
            old(self).spec_alloc_counter() >= 1,
        ensures
            final(self).wf(),
            final(self).spec_heap_start() == old(self).spec_heap_start(),
            final(self).spec_heap_end() == old(self).spec_heap_end(),
            final(self).spec_alloc_counter() == old(self).spec_alloc_counter() - 1,
            old(self).spec_alloc_counter() == 1 ==> final(self).spec_next()
                == old(self).spec_heap_start(),
            old(self).spec_alloc_counter() > 1 ==> final(self).spec_next()
                == old(self).spec_next(),
    {
        self.alloc_counter = self.alloc_counter - 1;
        if self.alloc_counter == 0 {
            self.next = self.heap_start;
        }
    }
}

} // verus!
