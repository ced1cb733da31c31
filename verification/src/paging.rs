//! Page tables and per-thread address spaces.
//!
//! An address space is a 4-level page-table hierarchy rooted at a physical
//! frame (the CR3 value). A table is modelled as its 512 entries, each an
//! entry value `frame address + flag bits`. The kernel's own upper-half
//! level-3 entries are copied into every user address space, so kernel
//! code and data stay mapped in every thread.

use vstd::prelude::*;

use crate::memory::BootInfoFrameAllocator;
use crate::memory::PAGE_SIZE;

verus! {

/// The entry is mapped.
pub const FLAG_PRESENT: u64 = 1;
/// The mapping is writable.
pub const FLAG_WRITABLE: u64 = 2;
/// The mapping is reachable from ring 3.
pub const FLAG_USER_ACCESSIBLE: u64 = 4;
/// Flags of kernel-only table links: present and writable.
pub const KERNEL_TABLE_FLAGS: u64 = 3;
/// Flags of user table links: present, writable and user-accessible.
pub const USER_TABLE_FLAGS: u64 = 7;
/// Entries per page table.
pub const TABLE_ENTRIES: usize = 512;
/// Low level-1 entries backed with frames for a user thread's code and
/// stack: a contiguous 64 KiB playground at the bottom of the space.
pub const USER_FRAME_COUNT: usize = 16;
/// Index of the kernel data half in a level-3 table.
pub const KERNEL_L3_DATA_INDEX: usize = 510;
/// Index of the kernel code half in a level-3 table.
pub const KERNEL_L3_CODE_INDEX: usize = 511;

/// The physical address a table entry points at: its flag bits cleared.
pub open spec fn entry_addr(e: u64) -> u64 {
    (e - (e % PAGE_SIZE)) as u64
}

/// The flag bits of a table entry.
pub open spec fn entry_flags(e: u64) -> u64 {
    e % PAGE_SIZE
}

/// An entry built from an aligned address and small flags decomposes back
/// into them.
pub proof fn lemma_entry_roundtrip(addr: u64, flags: u64)
    requires
        addr % PAGE_SIZE == 0,
        flags < PAGE_SIZE,
    ensures
        addr + flags <= u64::MAX,
        entry_addr((addr + flags) as u64) == addr,
        entry_flags((addr + flags) as u64) == flags,
{
    let p = PAGE_SIZE as int;
    let q = addr as int / p;
    vstd::arithmetic::div_mod::lemma_fundamental_div_mod(addr as int, p);
    assert(addr == p * q);
    assert(q <= 0xF_FFFF_FFFF_FFFF);
    assert(addr + p <= u64::MAX + 1);
    assert((addr + flags) % p == flags) by {
        vstd::arithmetic::div_mod::lemma_mod_multiples_vanish(q, flags as int, p);
        vstd::arithmetic::div_mod::lemma_small_mod(flags as nat, p as nat);
    }
}

/// One 4 KiB page table: 512 entries of eight bytes each.
pub struct PageTable {
    entries: Vec<u64>,
}

impl View for PageTable {
    type V = Seq<u64>;

    closed spec fn view(&self) -> Seq<u64> {
        self.entries@
    }
}

impl PageTable {
    /// A freshly zeroed table.
    pub fn new() -> (r: Self)
        ensures
            r@.len() == TABLE_ENTRIES,
            forall|i: int| 0 <= i < TABLE_ENTRIES ==> #[trigger] r@[i] == 0,
    {
        let mut entries: Vec<u64> = Vec::new();
        let mut i: usize = 0;
        while i < TABLE_ENTRIES
            invariant
                entries@.len() == i,
                i <= TABLE_ENTRIES,
                forall|k: int| 0 <= k < i ==> #[trigger] entries@[k] == 0,
            decreases TABLE_ENTRIES - i,
        {
            entries.push(0);
            i = i + 1;
        }
        PageTable { entries }
    }

    /// Points entry `index` at the given aligned physical address with the
    /// given flag bits.
    pub fn set_entry(&mut self, index: usize, addr: u64, flags: u64)
        requires
            old(self)@.len() == TABLE_ENTRIES,
            index < TABLE_ENTRIES,
            addr % PAGE_SIZE == 0,
            flags < PAGE_SIZE,
        ensures
            final(self)@ == old(self)@.update(index as int, (addr + flags) as u64),
            entry_addr(final(self)@[index as int]) == addr,
            entry_flags(final(self)@[index as int]) == flags,
    {
        proof {
            lemma_entry_roundtrip(addr, flags);
        }
        self.entries.set(index, addr + flags);
    }

    /// Reads entry `index`.
    pub fn entry(&self, index: usize) -> (r: u64)
        requires
            self@.len() == TABLE_ENTRIES,
            index < TABLE_ENTRIES,
        ensures
            r == self@[index as int],
    {
        self.entries[index]
    }
}

/// One installed 4 KiB mapping: a virtual page backed by a physical frame.
#[derive(Debug, Clone, Copy, PartialEq, Eq, Structural)]
pub struct Mapping {
    pub page: u64,
    pub frame: u64,
    pub flags: u64,
}

/// Errors of the fallible mapping operations.
#[derive(Debug, Clone, Copy, PartialEq, Eq, Structural)]
pub enum MapError {
    /// The frame allocator's memory map is exhausted.
    FrameAllocationFailed,
    /// The page already has a mapping installed.
    PageAlreadyMapped,
}

/// Whether some mapping in the list covers `page`.
pub open spec fn mappings_contain(ms: Seq<Mapping>, page: u64) -> bool {
    exists|k: int| 0 <= k < ms.len() && #[trigger] ms[k].page == page
}

/// The kernel's active address-space mapper: the physical addresses of the
/// kernel's two upper-half level-3 subtrees, and the 4 KiB mappings the
/// kernel has installed since boot.
pub struct KernelMapper {
    kernel_l3_data: u64,
    kernel_l3_code: u64,
    mappings: Vec<Mapping>,
}

impl KernelMapper {
    /// Physical address of the kernel's level-3 data subtree.
    pub closed spec fn spec_kernel_l3_data(self) -> u64 {
        self.kernel_l3_data
    }

    /// Physical address of the kernel's level-3 code subtree.
    pub closed spec fn spec_kernel_l3_code(self) -> u64 {
        self.kernel_l3_code
    }

    /// The mappings installed so far, in installation order.
    pub closed spec fn spec_mappings(self) -> Seq<Mapping> {
        self.mappings@
    }

    /// Whether `page` is mapped.
    pub open spec fn is_mapped(self, page: u64) -> bool {
        mappings_contain(self.spec_mappings(), page)
    }

    /// The kernel subtree addresses are page-aligned.
    pub open spec fn wf(self) -> bool {
        &&& self.spec_kernel_l3_data() % PAGE_SIZE == 0
        &&& self.spec_kernel_l3_code() % PAGE_SIZE == 0
    }

    /// A mapper over the kernel's own tables, before any further mapping.
    pub fn new(kernel_l3_data: u64, kernel_l3_code: u64) -> (r: Self)
        requires
            kernel_l3_data % PAGE_SIZE == 0,
            kernel_l3_code % PAGE_SIZE == 0,
        ensures
            r.wf(),
            r.spec_kernel_l3_data() == kernel_l3_data,
            r.spec_kernel_l3_code() == kernel_l3_code,
            r.spec_mappings() == Seq::<Mapping>::empty(),
    {
        KernelMapper { kernel_l3_data, kernel_l3_code, mappings: Vec::new() }
    }

    /// The physical addresses of the kernel's upper-half level-3 subtrees,
    /// as the page-table builder copies them into new address spaces.
    pub fn get_kernel_level_3_tables(&self) -> (r: (u64, u64))
        ensures
            r.0 == self.spec_kernel_l3_data(),
            r.1 == self.spec_kernel_l3_code(),
    {
        (self.kernel_l3_data, self.kernel_l3_code)
    }

    /// The mappings installed so far, in installation order, for the
    /// boot path to apply to the hardware page tables.
    pub fn mappings(&self) -> (r: &Vec<Mapping>)
        ensures
            r@ == self.spec_mappings(),
    {
        &self.mappings
    }

    /// Whether `page` is already mapped.
    pub fn contains_page(&self, page: u64) -> (r: bool)
        ensures
            r == self.is_mapped(page),
    {
        let mut k: usize = 0;
        while k < self.mappings.len()
            invariant
                k <= self.mappings@.len(),
                forall|j: int| 0 <= j < k ==> #[trigger] self.mappings@[j].page != page,
            decreases self.mappings@.len() - k,
        {
            if self.mappings[k].page == page {
                return true;
            }
            k = k + 1;
        }
        false
    }

    /// Installs a mapping of `page` to `frame`. Fails exactly when the
    /// page is already mapped; nothing changes then.
    pub fn map_to(&mut self, page: u64, frame: u64, flags: u64) -> (r: Result<(), MapError>)
        requires
            page % PAGE_SIZE == 0,
            frame % PAGE_SIZE == 0,
        ensures
            final(self).spec_kernel_l3_data() == old(self).spec_kernel_l3_data(),
            final(self).spec_kernel_l3_code() == old(self).spec_kernel_l3_code(),
            final(self).wf() == old(self).wf(),
            r is Ok <==> !old(self).is_mapped(page),
            r is Ok ==> final(self).spec_mappings()
                == old(self).spec_mappings().push(Mapping { page, frame, flags }),
            r is Err ==> *final(self) == *old(self) && r == Err::<(), MapError>(MapError::PageAlreadyMapped),
    {
        if self.contains_page(page) {
            Err(MapError::PageAlreadyMapped)
        } else {
            self.mappings.push(Mapping { page, frame, flags });
            Ok(())
        }
    }
}

/// Splitting a mapping list splits which pages it covers.
pub proof fn lemma_mappings_contain_split(a: Seq<Mapping>, b: Seq<Mapping>, q: u64)
    ensures
        mappings_contain(a + b, q) == (mappings_contain(a, q) || mappings_contain(b, q)),
{
    if mappings_contain(a, q) {
        let k = choose|k: int| 0 <= k < a.len() && #[trigger] a[k].page == q;
        assert((a + b)[k].page == q);
    }
    if mappings_contain(b, q) {
        let k = choose|k: int| 0 <= k < b.len() && #[trigger] b[k].page == q;
        assert((a + b)[a.len() + k].page == q);
    }
    if mappings_contain(a + b, q) {
        let k = choose|k: int| 0 <= k < (a + b).len() && #[trigger] (a + b)[k].page == q;
        if k < a.len() {
            assert(a[k].page == q);
        } else {
            assert(b[k - a.len()].page == q);
        }
    }
}

/// A fresh user address space: the four tables of its low half, the
/// frames they live in, and the physical address of the first low frame
/// (where user code is copied and the user stack lives).
pub struct UserAddressSpace {
    /// Frame of the level-4 table: the space's CR3 value.
    pub l4_frame: u64,
    pub l3_frame: u64,
    pub l2_frame: u64,
    pub l1_frame: u64,
    pub l4: PageTable,
    pub l3: PageTable,
    pub l2: PageTable,
    pub l1: PageTable,
    /// Physical address of the frame behind virtual address zero.
    pub user_zero: u64,
}

/// Frames a user address space consumes: four tables and the low frames.
pub const USER_SPACE_FRAMES: usize = 20;

/// What the page-table builder guarantees of a space built over a given
/// kernel mapper: the low half links level 4 down to level 1 with
/// user-accessible flags, the first sixteen level-1 entries are backed
/// and user-accessible, every other entry is empty, and the kernel's two
/// upper-half level-3 subtrees are linked at indices 510 and 511 without
/// the user flag.
pub open spec fn is_user_space_for(a: UserAddressSpace, kernel_l3_data: u64, kernel_l3_code: u64) -> bool {
    &&& a.l4@.len() == TABLE_ENTRIES
    &&& a.l3@.len() == TABLE_ENTRIES
    &&& a.l2@.len() == TABLE_ENTRIES
    &&& a.l1@.len() == TABLE_ENTRIES
    &&& a.l4@[0] == a.l3_frame + USER_TABLE_FLAGS
    &&& forall|i: int| 1 <= i < TABLE_ENTRIES ==> #[trigger] a.l4@[i] == 0
    &&& a.l3@[0] == a.l2_frame + USER_TABLE_FLAGS
    &&& a.l3@[KERNEL_L3_DATA_INDEX as int] == kernel_l3_data + KERNEL_TABLE_FLAGS
    &&& a.l3@[KERNEL_L3_CODE_INDEX as int] == kernel_l3_code + KERNEL_TABLE_FLAGS
    &&& forall|i: int| 1 <= i < KERNEL_L3_DATA_INDEX ==> #[trigger] a.l3@[i] == 0
    &&& a.l2@[0] == a.l1_frame + USER_TABLE_FLAGS
    &&& forall|i: int| 1 <= i < TABLE_ENTRIES ==> #[trigger] a.l2@[i] == 0
    &&& forall|i: int| 0 <= i < USER_FRAME_COUNT
        ==> entry_flags(#[trigger] a.l1@[i]) == USER_TABLE_FLAGS
            && entry_addr(a.l1@[i]) % PAGE_SIZE == 0
    &&& forall|i: int| USER_FRAME_COUNT <= i < TABLE_ENTRIES ==> #[trigger] a.l1@[i] == 0
    &&& a.user_zero == entry_addr(a.l1@[0])
}

/// The kernel-half invariance of user address spaces: any two spaces
/// built over the same kernel mapper alias the same physical level-3
/// subtrees at the upper-half indices, the kernel's own.
pub proof fn lemma_kernel_half_invariance(
    a: UserAddressSpace,
    b: UserAddressSpace,
    kernel_l3_data: u64,
    kernel_l3_code: u64,
)
    requires
        is_user_space_for(a, kernel_l3_data, kernel_l3_code),
        is_user_space_for(b, kernel_l3_data, kernel_l3_code),
        kernel_l3_data % PAGE_SIZE == 0,
        kernel_l3_code % PAGE_SIZE == 0,
    ensures
        a.l3@[KERNEL_L3_DATA_INDEX as int] == b.l3@[KERNEL_L3_DATA_INDEX as int],
        a.l3@[KERNEL_L3_CODE_INDEX as int] == b.l3@[KERNEL_L3_CODE_INDEX as int],
        entry_addr(a.l3@[KERNEL_L3_DATA_INDEX as int]) == kernel_l3_data,
        entry_addr(a.l3@[KERNEL_L3_CODE_INDEX as int]) == kernel_l3_code,
{
    lemma_entry_roundtrip(kernel_l3_data, KERNEL_TABLE_FLAGS);
    lemma_entry_roundtrip(kernel_l3_code, KERNEL_TABLE_FLAGS);
}

/// Builds a fresh address space for a user thread: allocates four frames
/// for the low-half tables and sixteen frames behind the lowest sixteen
/// pages, links them user-accessible, and copies the kernel's upper-half
/// level-3 entries so the kernel stays mapped. Returns the new space —
/// its `l4_frame` is the thread's CR3 — or nothing exactly when the
/// memory map has fewer than twenty frames left.
pub fn allocate_page_table(
    mapper: &KernelMapper,
    frame_allocator: &mut BootInfoFrameAllocator,
) -> (r: Option<UserAddressSpace>)
    requires
        mapper.wf(),
        old(frame_allocator).wf(),
        old(frame_allocator).cursor() + USER_SPACE_FRAMES < usize::MAX,
    ensures
        final(frame_allocator).wf(),
        final(frame_allocator).frame_seq() == old(frame_allocator).frame_seq(),
        old(frame_allocator).cursor() <= final(frame_allocator).cursor()
            <= old(frame_allocator).cursor() + USER_SPACE_FRAMES,
        r is Some <==> old(frame_allocator).cursor() + USER_SPACE_FRAMES
            <= old(frame_allocator).frame_seq().len(),
        r matches Some(a) ==> {
            &&& is_user_space_for(a, mapper.spec_kernel_l3_data(), mapper.spec_kernel_l3_code())
            &&& final(frame_allocator).cursor() == old(frame_allocator).cursor() + USER_SPACE_FRAMES
            &&& a.l4_frame == old(frame_allocator).frame_seq()[old(frame_allocator).cursor()]
            &&& a.l3_frame == old(frame_allocator).frame_seq()[old(frame_allocator).cursor() + 1]
            &&& a.l2_frame == old(frame_allocator).frame_seq()[old(frame_allocator).cursor() + 2]
            &&& a.l1_frame == old(frame_allocator).frame_seq()[old(frame_allocator).cursor() + 3]
            &&& forall|k: int| 0 <= k < USER_FRAME_COUNT
                ==> entry_addr(#[trigger] a.l1@[k])
                    == old(frame_allocator).frame_seq()[old(frame_allocator).cursor() + 4 + k]
            &&& a.user_zero == old(frame_allocator).frame_seq()[old(frame_allocator).cursor() + 4]
        },
{
    let ghost fs = old(frame_allocator).frame_seq();
    let ghost c0 = old(frame_allocator).cursor();
    let l4_frame = match frame_allocator.allocate_frame() {
        Some(f) => f,
        None => { return None; },
    };
    let l3_frame = match frame_allocator.allocate_frame() {
        Some(f) => f,
        None => { return None; },
    };
    let l2_frame = match frame_allocator.allocate_frame() {
        Some(f) => f,
        None => { return None; },
    };
    let l1_frame = match frame_allocator.allocate_frame() {
        Some(f) => f,
        None => { return None; },
    };

    let mut l4 = PageTable::new();
    let mut l3 = PageTable::new();
    let mut l2 = PageTable::new();
    let mut l1 = PageTable::new();

    l4.set_entry(0, l3_frame, USER_TABLE_FLAGS);
    l3.set_entry(0, l2_frame, USER_TABLE_FLAGS);
    l2.set_entry(0, l1_frame, USER_TABLE_FLAGS);

    let (kernel_data, kernel_code) = mapper.get_kernel_level_3_tables();
    l3.set_entry(KERNEL_L3_DATA_INDEX, kernel_data, KERNEL_TABLE_FLAGS);
    l3.set_entry(KERNEL_L3_CODE_INDEX, kernel_code, KERNEL_TABLE_FLAGS);

    let mut user_zero: u64 = 0;
    let mut k: usize = 0;
    while k < USER_FRAME_COUNT
        invariant
            fs == old(frame_allocator).frame_seq(),
            c0 == old(frame_allocator).cursor(),
            mapper.wf(),
            frame_allocator.wf(),
            frame_allocator.frame_seq() == fs,
            frame_allocator.cursor() == c0 + 4 + k,
            c0 + 4 + k <= fs.len(),
            k <= USER_FRAME_COUNT,
            c0 + USER_SPACE_FRAMES < usize::MAX,
            l1@.len() == TABLE_ENTRIES,
            k > 0 ==> user_zero == fs[c0 + 4] && user_zero % PAGE_SIZE == 0,
            forall|i: int| 0 <= i < k
                ==> entry_flags(#[trigger] l1@[i]) == USER_TABLE_FLAGS
                    && entry_addr(l1@[i]) == fs[c0 + 4 + i]
                    && entry_addr(l1@[i]) % PAGE_SIZE == 0,
            forall|i: int| k <= i < TABLE_ENTRIES ==> #[trigger] l1@[i] == 0,
        decreases USER_FRAME_COUNT - k,
    {
        let frame = match frame_allocator.allocate_frame() {
            Some(f) => f,
            None => { return None; },
        };
        l1.set_entry(k, frame, USER_TABLE_FLAGS);
        if k == 0 {
            user_zero = frame;
        }
        k = k + 1;
    }

    Some(UserAddressSpace {
        l4_frame,
        l3_frame,
        l2_frame,
        l1_frame,
        l4,
        l3,
        l2,
        l1,
        user_zero,
    })
}

} // verus!
