//! Threads and their construction.
//!
//! A thread is a record of a unique identifier and, while the thread is
//! paused, the saved interrupt stack frame and general-purpose register
//! file that the preemption trampoline will restore to resume it. Kernel
//! threads run on guard-paged stacks carved out of a reserved virtual
//! window; user threads run in a fresh address space built by the
//! page-table builder.

use vstd::prelude::*;

use crate::memory::BootInfoFrameAllocator;
use crate::memory::PAGE_SIZE;
use crate::paging::allocate_page_table;
use crate::paging::is_user_space_for;
use crate::paging::mappings_contain;
use crate::paging::KernelMapper;
use crate::paging::MapError;
use crate::paging::Mapping;
use crate::paging::UserAddressSpace;
use crate::paging::KERNEL_TABLE_FLAGS;
use crate::paging::USER_SPACE_FRAMES;

verus! {

/// Pages of a kernel thread's stack, guard page not counted.
pub const KERNEL_STACK_PAGES: u64 = 10;
/// RFLAGS of a fresh kernel thread: interrupts enabled.
pub const KERNEL_THREAD_RFLAGS: u64 = 0x202;
/// RFLAGS of a fresh user thread: interrupts enabled.
pub const USER_THREAD_RFLAGS: u64 = 0x200;
/// Virtual address a user thread starts at: one page into its low
/// mapping, where its entry code is copied.
pub const USER_ENTRY_ADDRESS: u64 = 4096;
/// Initial stack pointer of a user thread: the top of the 64 KiB
/// user-backed low region, so the stack grows down over the whole
/// mapping without touching the entry code page from above.
pub const USER_STACK_TOP: u64 = 65536;
/// Bottom of the virtual window kernel stacks are carved out of.
pub const STACK_WINDOW_BASE: u64 = 0x5555_5555_0000;

/// A thread identifier: 0 is the initial thread the kernel boots in,
/// spawned threads draw 1, 2, … from a shared counter.
#[derive(Debug, Clone, Copy, PartialEq, Eq, Structural)]
pub struct ThreadId(u64);

/// The identifier holding value `v`.
pub closed spec fn spec_thread_id(v: u64) -> ThreadId {
    ThreadId(v)
}

/// An identifier is exactly its value.
pub proof fn lemma_thread_id_value(v: u64)
    ensures
        spec_thread_id(v).spec_as_u64() == v,
{
}

/// An identifier is determined by its value.
pub proof fn lemma_thread_id_roundtrip(t: ThreadId)
    ensures
        spec_thread_id(t.spec_as_u64()) == t,
{
}

/// The source of fresh thread identifiers. Identifiers are never reused
/// within a boot.
pub struct ThreadIdCounter {
    next: u64,
}

impl ThreadIdCounter {
    /// The identifier the next spawn will receive.
    pub closed spec fn spec_next(self) -> u64 {
        self.next
    }

    /// Fresh identifiers are never 0, which names the initial thread.
    pub open spec fn wf(self) -> bool {
        self.spec_next() >= 1
    }

    /// A counter whose first identifier is 1.
    pub fn new() -> (r: Self)
        ensures
            r.wf(),
            r.spec_next() == 1,
    {
        ThreadIdCounter { next: 1 }
    }
}

impl ThreadId {
    /// Draws the next fresh identifier.
    pub fn new(counter: &mut ThreadIdCounter) -> (r: ThreadId)
        requires
            old(counter).wf(),
            old(counter).spec_next() < u64::MAX,
        ensures
            final(counter).wf(),
            final(counter).spec_next() == old(counter).spec_next() + 1,
            r == spec_thread_id(old(counter).spec_next()),
            r.spec_as_u64() == old(counter).spec_next(),
            r.spec_as_u64() >= 1,
    {
        let id = counter.next;
        counter.next = counter.next + 1;
        ThreadId(id)
    }

    /// The identifier value.
    pub closed spec fn spec_as_u64(self) -> u64 {
        self.0
    }

    /// The initial thread's identifier.
    pub fn initial() -> (r: ThreadId)
        ensures
            r == spec_thread_id(0),
            r.spec_as_u64() == 0,
    {
        ThreadId(0)
    }

    /// Rebuilds an identifier from its value, as the preemption path does
    /// with the process-wide current-thread word.
    pub fn from_u64(tid: u64) -> (r: ThreadId)
        ensures
            r == spec_thread_id(tid),
            r.spec_as_u64() == tid,
    {
        ThreadId(tid)
    }

    /// The identifier value.
    pub fn as_u64(self) -> (r: u64)
        ensures
            r == self.spec_as_u64(),
    {
        self.0
    }
}

/// The 15 general-purpose 64-bit registers plus CR3, in the fixed order
/// the preemption trampoline pushes them.
#[derive(Debug, Clone, Copy, PartialEq, Eq, Structural)]
pub struct Registers {
    pub cr3: u64,
    pub rax: u64,
    pub rbx: u64,
    pub rcx: u64,
    pub rdx: u64,
    pub rdi: u64,
    pub rsi: u64,
    pub rbp: u64,
    pub r8: u64,
    pub r9: u64,
    pub r10: u64,
    pub r11: u64,
    pub r12: u64,
    pub r13: u64,
    pub r14: u64,
    pub r15: u64,
}

/// A zeroed register file carrying the given address-space root.
pub open spec fn registers_with_cr3(cr3: u64) -> Registers {
    Registers {
        cr3,
        rax: 0,
        rbx: 0,
        rcx: 0,
        rdx: 0,
        rdi: 0,
        rsi: 0,
        rbp: 0,
        r8: 0,
        r9: 0,
        r10: 0,
        r11: 0,
        r12: 0,
        r13: 0,
        r14: 0,
        r15: 0,
    }
}

impl Registers {
    /// A zeroed register file whose CR3 names the given address space.
    pub fn with_cr3(cr3: u64) -> (r: Self)
        ensures
            r == registers_with_cr3(cr3),
    {
        Registers {
            cr3,
            rax: 0,
            rbx: 0,
            rcx: 0,
            rdx: 0,
            rdi: 0,
            rsi: 0,
            rbp: 0,
            r8: 0,
            r9: 0,
            r10: 0,
            r11: 0,
            r12: 0,
            r13: 0,
            r14: 0,
            r15: 0,
        }
    }
}

/// The five quadwords the CPU pushes on interrupt entry, which `iretq`
/// consumes to resume a thread.
#[derive(Debug, Clone, Copy, PartialEq, Eq, Structural)]
pub struct InterruptFrame {
    pub instruction_pointer: u64,
    pub code_segment: u64,
    pub cpu_flags: u64,
    pub stack_pointer: u64,
    pub stack_segment: u64,
}

/// The segment selector values the GDT installer chose: kernel and user
/// code and data. The user selectors carry requested privilege level 3.
#[derive(Debug, Clone, Copy, PartialEq, Eq, Structural)]
pub struct Selectors {
    pub kernel_code_selector: u16,
    pub kernel_data_selector: u16,
    pub user_code_selector: u16,
    pub user_data_selector: u16,
}

/// A thread record. The saved-state fields encode the thread's state:
/// the currently running thread carries nothing in both, every paused
/// thread carries both.
#[derive(Debug, Clone, Copy)]
pub struct Thread {
    pub tid: ThreadId,
    pub stack_frame: Option<InterruptFrame>,
    pub regs: Option<Registers>,
}

/// The interrupt frame a fresh kernel thread is entered through.
pub open spec fn kernel_entry_frame(entrypoint: u64, stack_end: u64, selectors: Selectors) -> InterruptFrame {
    InterruptFrame {
        instruction_pointer: entrypoint,
        code_segment: selectors.kernel_code_selector as u64,
        cpu_flags: KERNEL_THREAD_RFLAGS,
        stack_pointer: stack_end,
        stack_segment: selectors.kernel_data_selector as u64,
    }
}

/// The interrupt frame a fresh user thread is entered through.
pub open spec fn user_entry_frame(selectors: Selectors) -> InterruptFrame {
    InterruptFrame {
        instruction_pointer: USER_ENTRY_ADDRESS,
        code_segment: selectors.user_code_selector as u64,
        cpu_flags: USER_THREAD_RFLAGS,
        stack_pointer: USER_STACK_TOP,
        stack_segment: selectors.user_data_selector as u64,
    }
}

/// A guard-paged kernel stack: `end` is its top, where the stack pointer
/// starts; the stack grows downward towards the unmapped guard page.
#[derive(Debug, Clone, Copy, PartialEq, Eq, Structural)]
pub struct Stack {
    pub end: u64,
}

/// The cursor of the kernel-stack window. Allocating a stack of `n`
/// pages advances it by `n + 1` pages; the first page of each block is
/// left unmapped as a guard.
pub struct StackAllocator {
    next: u64,
}

impl StackAllocator {
    /// The next block's guard page.
    pub closed spec fn spec_next(self) -> u64 {
        self.next
    }

    /// The cursor stays page-aligned.
    pub open spec fn wf(self) -> bool {
        self.spec_next() % PAGE_SIZE == 0
    }

    /// The window's cursor at boot.
    pub fn new() -> (r: Self)
        ensures
            r.wf(),
            r.spec_next() == STACK_WINDOW_BASE,
    {
        StackAllocator { next: STACK_WINDOW_BASE }
    }
}

/// The `k`-th page of the stack block whose guard page is `g`.
pub open spec fn stack_page(g: u64, k: int) -> u64 {
    ((g + k * PAGE_SIZE) as int) as u64
}

/// Whether `q` is one of the `n` mapped pages of the stack block whose
/// guard page is `g`.
pub open spec fn in_stack_block(g: u64, n: int, q: u64) -> bool {
    exists|k: int| 1 <= k <= n && q == #[trigger] stack_page(g, k)
}

/// No page of the stack block above guard page `g` is mapped yet.
pub open spec fn stack_block_free(m: KernelMapper, g: u64, n: int) -> bool {
    forall|k: int| 1 <= k <= n ==> !m.is_mapped(#[trigger] stack_page(g, k))
}

/// The mappings a stack block installs: its `n` pages, backed by the
/// next `n` frames, present and writable.
pub open spec fn stack_block_mappings(g: u64, fs: Seq<u64>, c0: int, n: int) -> Seq<Mapping> {
    Seq::new(
        n as nat,
        |i: int| Mapping {
            page: stack_page(g, i + 1),
            frame: fs[c0 + i],
            flags: KERNEL_TABLE_FLAGS,
        },
    )
}

/// A page outside a stack block is covered by the block's mappings for
/// no prefix of them.
proof fn lemma_block_mappings_outside(
    m0: Seq<Mapping>,
    g: u64,
    fs: Seq<u64>,
    c0: int,
    cnt: int,
    n: int,
    q: u64,
)
    requires
        0 <= cnt <= n,
        g + (n + 1) * PAGE_SIZE <= u64::MAX,
        !in_stack_block(g, n, q),
    ensures
        mappings_contain(m0 + stack_block_mappings(g, fs, c0, cnt), q) == mappings_contain(m0, q),
{
    let block = stack_block_mappings(g, fs, c0, cnt);
    crate::paging::lemma_mappings_contain_split(m0, block, q);
    if mappings_contain(block, q) {
        let j = choose|j: int| 0 <= j < block.len() && #[trigger] block[j].page == q;
        assert(block[j].page == stack_page(g, j + 1));
        assert(in_stack_block(g, n, q));
    }
}

impl Stack {
    /// Carves the next block out of the kernel-stack window, leaves its
    /// first page unmapped as a guard, and maps the remaining
    /// `size_in_pages` pages with fresh frames, present and writable.
    ///
    /// Succeeds exactly when the memory map still holds enough frames
    /// and no page of the block is already mapped. Frame exhaustion is
    /// reported exactly when the map runs out before any block page
    /// proves already mapped; on any failure the pages mapped before it
    /// stay mapped — the mapper gains exactly that prefix, with no
    /// rollback — and the window cursor has already advanced. Whatever
    /// the outcome, the mapped-ness of every page outside the block —
    /// the guard page in particular — is unchanged: writing to the
    /// first page of an allocated stack faults instead of corrupting a
    /// neighbour.
    pub fn alloc_stack(
        size_in_pages: u64,
        mapper: &mut KernelMapper,
        frame_allocator: &mut BootInfoFrameAllocator,
        stacks: &mut StackAllocator,
    ) -> (r: Result<Stack, MapError>)
        requires
            old(stacks).wf(),
            old(mapper).wf(),
            old(frame_allocator).wf(),
            1 <= size_in_pages,
            old(stacks).spec_next() + (size_in_pages + 1) * PAGE_SIZE <= u64::MAX,
            old(frame_allocator).cursor() + size_in_pages < usize::MAX,
        ensures
            final(stacks).wf(),
            final(mapper).wf(),
            final(frame_allocator).wf(),
            final(stacks).spec_next() == old(stacks).spec_next() + (size_in_pages + 1) * PAGE_SIZE,
            final(frame_allocator).frame_seq() == old(frame_allocator).frame_seq(),
            old(frame_allocator).cursor() <= final(frame_allocator).cursor()
                <= old(frame_allocator).cursor() + size_in_pages,
            final(mapper).spec_kernel_l3_data() == old(mapper).spec_kernel_l3_data(),
            final(mapper).spec_kernel_l3_code() == old(mapper).spec_kernel_l3_code(),
            r is Ok <==> old(frame_allocator).cursor() + size_in_pages
                <= old(frame_allocator).frame_seq().len()
                && stack_block_free(*old(mapper), old(stacks).spec_next(), size_in_pages as int),
            r matches Ok(s) ==> s.end == old(stacks).spec_next()
                + (size_in_pages + 1) * PAGE_SIZE,
            r is Ok ==> final(frame_allocator).cursor() == old(frame_allocator).cursor()
                + size_in_pages,
            r is Ok ==> final(mapper).spec_mappings() == old(mapper).spec_mappings()
                + stack_block_mappings(
                    old(stacks).spec_next(),
                    old(frame_allocator).frame_seq(),
                    old(frame_allocator).cursor(),
                    size_in_pages as int,
                ),
            r is Err ==> r == Err::<Stack, MapError>(MapError::FrameAllocationFailed)
                || r == Err::<Stack, MapError>(MapError::PageAlreadyMapped),
            r == Err::<Stack, MapError>(MapError::FrameAllocationFailed)
                <==> old(frame_allocator).cursor() + size_in_pages
                    > old(frame_allocator).frame_seq().len()
                && stack_block_free(
                    *old(mapper),
                    old(stacks).spec_next(),
                    old(frame_allocator).frame_seq().len() - old(frame_allocator).cursor(),
                ),
            r is Err ==> exists|p: int| {
                &&& 0 <= p < size_in_pages
                &&& stack_block_free(*old(mapper), old(stacks).spec_next(), p)
                &&& final(mapper).spec_mappings() == old(mapper).spec_mappings()
                    + #[trigger] stack_block_mappings(
                        old(stacks).spec_next(),
                        old(frame_allocator).frame_seq(),
                        old(frame_allocator).cursor(),
                        p,
                    )
                &&& final(frame_allocator).cursor() == old(frame_allocator).cursor() + p + 1
                &&& (r == Err::<Stack, MapError>(MapError::FrameAllocationFailed)
                    ==> old(frame_allocator).frame_seq().len()
                        <= old(frame_allocator).cursor() + p)
                &&& (r == Err::<Stack, MapError>(MapError::PageAlreadyMapped)
                    ==> old(mapper).is_mapped(stack_page(old(stacks).spec_next(), p + 1)))
            },
            forall|q: u64| !in_stack_block(old(stacks).spec_next(), size_in_pages as int, q)
                ==> final(mapper).is_mapped(q) == old(mapper).is_mapped(q),
            !old(mapper).is_mapped(old(stacks).spec_next())
                ==> !final(mapper).is_mapped(old(stacks).spec_next()),
    {
        let ghost g = old(stacks).spec_next();
        let ghost n = size_in_pages as int;
        let ghost fs = old(frame_allocator).frame_seq();
        let ghost c0 = old(frame_allocator).cursor();
        let ghost m0 = old(mapper).spec_mappings();

        proof {
            assert(!in_stack_block(g, n, g)) by {
                if in_stack_block(g, n, g) {
                    let k = choose|k: int| 1 <= k <= n && g == #[trigger] stack_page(g, k);
                    assert(k * PAGE_SIZE >= 1 * PAGE_SIZE);
                }
            }
        }

        let guard_page_start = stacks.next;
        let block_bytes = (size_in_pages + 1) * PAGE_SIZE;
        stacks.next = guard_page_start + block_bytes;
        proof {
            assert(final(stacks).spec_next() % PAGE_SIZE == 0) by {
                vstd::arithmetic::div_mod::lemma_mod_multiples_vanish(
                    (size_in_pages + 1) as int,
                    g as int,
                    PAGE_SIZE as int,
                );
            }
        }

        let mut k: u64 = 1;
        while k <= size_in_pages
            invariant
                g == old(stacks).spec_next(),
                n == size_in_pages as int,
                fs == old(frame_allocator).frame_seq(),
                c0 == old(frame_allocator).cursor(),
                m0 == old(mapper).spec_mappings(),
                1 <= k <= n + 1,
                1 <= size_in_pages,
                g % PAGE_SIZE == 0,
                g + (n + 1) * PAGE_SIZE <= u64::MAX,
                c0 + size_in_pages < usize::MAX,
                guard_page_start == g,
                stacks.wf(),
                stacks.spec_next() == g + (n + 1) * PAGE_SIZE,
                frame_allocator.wf(),
                frame_allocator.frame_seq() == fs,
                frame_allocator.cursor() == c0 + (k - 1),
                k > 1 ==> c0 + (k - 1) <= fs.len(),
                mapper.wf(),
                mapper.spec_kernel_l3_data() == old(mapper).spec_kernel_l3_data(),
                mapper.spec_kernel_l3_code() == old(mapper).spec_kernel_l3_code(),
                mapper.spec_mappings() == m0 + stack_block_mappings(g, fs, c0, k - 1),
                forall|i: int| 1 <= i < k ==> !mappings_contain(m0, #[trigger] stack_page(g, i)),
                !in_stack_block(g, n, g),
            decreases size_in_pages + 1 - k,
        {
            let page = guard_page_start + k * PAGE_SIZE;
            proof {
                assert(page % PAGE_SIZE == 0) by {
                    vstd::arithmetic::div_mod::lemma_mod_multiples_vanish(
                        k as int,
                        g as int,
                        PAGE_SIZE as int,
                    );
                }
            }
            let frame = match frame_allocator.allocate_frame() {
                Some(f) => f,
                None => {
                    proof {
                        assert(c0 + (k - 1) >= fs.len());
                        assert(stack_block_free(*old(mapper), g, k - 1));
                        assert(stack_block_free(*old(mapper), g, fs.len() - c0));
                        assert forall|q: u64| !in_stack_block(g, n, q)
                            implies mapper.is_mapped(q) == mappings_contain(m0, q) by {
                            lemma_block_mappings_outside(m0, g, fs, c0, k - 1, n, q);
                        }
                    }
                    return Err(MapError::FrameAllocationFailed);
                },
            };
            let ghost before = mapper.spec_mappings();
            match mapper.map_to(page, frame, KERNEL_TABLE_FLAGS) {
                Ok(()) => {
                    proof {
                        assert(!mappings_contain(before, page));
                        crate::paging::lemma_mappings_contain_split(m0, stack_block_mappings(g, fs, c0, k - 1), page);
                        assert(!mappings_contain(m0, page));
                        assert(mapper.spec_mappings() =~= m0 + stack_block_mappings(g, fs, c0, k as int)) by {
                            assert(stack_block_mappings(g, fs, c0, k as int)
                                =~= stack_block_mappings(g, fs, c0, k - 1).push(
                                    Mapping { page, frame, flags: KERNEL_TABLE_FLAGS },
                                ));
                        }
                    }
                },
                Err(_) => {
                    proof {
                        assert(mappings_contain(before, page));
                        crate::paging::lemma_mappings_contain_split(m0, stack_block_mappings(g, fs, c0, k - 1), page);
                        if mappings_contain(stack_block_mappings(g, fs, c0, k - 1), page) {
                            let blk = stack_block_mappings(g, fs, c0, k - 1);
                            let j = choose|j: int| 0 <= j < blk.len() && #[trigger] blk[j].page == page;
                            assert(blk[j].page == stack_page(g, j + 1));
                            assert((j + 1) * PAGE_SIZE < k * PAGE_SIZE);
                        }
                        assert(mappings_contain(m0, page));
                        assert(page == stack_page(g, k as int));
                        assert(old(mapper).is_mapped(stack_page(g, k as int)));
                        assert(!stack_block_free(*old(mapper), g, n));
                        assert(stack_block_free(*old(mapper), g, k - 1));
                        if c0 + n > fs.len() {
                            assert(k <= fs.len() - c0);
                            assert(!stack_block_free(*old(mapper), g, fs.len() - c0));
                        }
                        assert forall|q: u64| !in_stack_block(g, n, q)
                            implies mapper.is_mapped(q) == mappings_contain(m0, q) by {
                            lemma_block_mappings_outside(m0, g, fs, c0, k - 1, n, q);
                        }
                    }
                    return Err(MapError::PageAlreadyMapped);
                },
            }
            k = k + 1;
        }
        proof {
            assert(mapper.spec_mappings() == m0 + stack_block_mappings(g, fs, c0, n));
            assert(stack_block_free(*old(mapper), g, n));
            assert forall|q: u64| !in_stack_block(g, n, q)
                implies mapper.is_mapped(q) == mappings_contain(m0, q) by {
                lemma_block_mappings_outside(m0, g, fs, c0, n, n, q);
            }
        }
        Ok(Stack { end: guard_page_start + block_bytes })
    }
}

impl Thread {
    /// The record of the thread the kernel is already executing in at
    /// boot: identifier 0, nothing saved.
    pub fn create_root_thread() -> (t: Thread)
        ensures
            t.tid.spec_as_u64() == 0,
            t.stack_frame is None,
            t.regs is None,
    {
        Thread { tid: ThreadId::initial(), stack_frame: None, regs: None }
    }

    /// Builds a paused kernel thread that will enter `entrypoint` on a
    /// fresh guard-paged stack, in the kernel's own address space
    /// (`cr3`). Fails exactly when the stack cannot be allocated.
    pub fn create_entrypoint(
        mapper: &mut KernelMapper,
        frame_allocator: &mut BootInfoFrameAllocator,
        stacks: &mut StackAllocator,
        counter: &mut ThreadIdCounter,
        entrypoint: u64,
        selectors: &Selectors,
        cr3: u64,
    ) -> (r: Result<Thread, MapError>)
        requires
            old(stacks).wf(),
            old(mapper).wf(),
            old(frame_allocator).wf(),
            old(counter).wf(),
            old(counter).spec_next() < u64::MAX,
            old(stacks).spec_next() + (KERNEL_STACK_PAGES + 1) * PAGE_SIZE <= u64::MAX,
            old(frame_allocator).cursor() + KERNEL_STACK_PAGES < usize::MAX,
        ensures
            final(stacks).wf(),
            final(mapper).wf(),
            final(frame_allocator).wf(),
            final(counter).wf(),
            final(stacks).spec_next() == old(stacks).spec_next()
                + (KERNEL_STACK_PAGES + 1) * PAGE_SIZE,
            r is Ok <==> old(frame_allocator).cursor() + KERNEL_STACK_PAGES
                <= old(frame_allocator).frame_seq().len()
                && stack_block_free(*old(mapper), old(stacks).spec_next(), KERNEL_STACK_PAGES as int),
            r matches Ok(t) ==> {
                &&& t.tid.spec_as_u64() == old(counter).spec_next()
                &&& t.tid.spec_as_u64() >= 1
                &&& t.stack_frame == Some(kernel_entry_frame(
                    entrypoint,
                    (old(stacks).spec_next() + (KERNEL_STACK_PAGES + 1) * PAGE_SIZE) as u64,
                    *selectors,
                ))
                &&& t.regs == Some(registers_with_cr3(cr3))
                &&& final(counter).spec_next() == old(counter).spec_next() + 1
            },
            r is Err ==> *final(counter) == *old(counter),
            !old(mapper).is_mapped(old(stacks).spec_next())
                ==> !final(mapper).is_mapped(old(stacks).spec_next()),
    {
        let stack = match Stack::alloc_stack(KERNEL_STACK_PAGES, mapper, frame_allocator, stacks) {
            Ok(s) => s,
            Err(e) => { return Err(e); },
        };
        let tid = ThreadId::new(counter);
        Ok(Thread {
            tid,
            stack_frame: Some(InterruptFrame {
                instruction_pointer: entrypoint,
                code_segment: selectors.kernel_code_selector as u64,
                cpu_flags: KERNEL_THREAD_RFLAGS,
                stack_pointer: stack.end,
                stack_segment: selectors.kernel_data_selector as u64,
            }),
            regs: Some(Registers::with_cr3(cr3)),
        })
    }

    /// Builds a paused user thread: a fresh address space whose low 64
    /// KiB are user-accessible, entered at `USER_ENTRY_ADDRESS` in ring
    /// 3 with its stack pointer at the top of the 64 KiB low mapping.
    /// The caller must copy the thread's entry code one page into the
    /// low mapping before the thread first runs. Fails exactly when the
    /// memory map has too few frames left for the address space.
    pub fn create_userspace_entrypoint(
        mapper: &KernelMapper,
        frame_allocator: &mut BootInfoFrameAllocator,
        counter: &mut ThreadIdCounter,
        selectors: &Selectors,
    ) -> (r: Option<(Thread, UserAddressSpace)>)
        requires
            mapper.wf(),
            old(frame_allocator).wf(),
            old(counter).wf(),
            old(counter).spec_next() < u64::MAX,
            old(frame_allocator).cursor() + USER_SPACE_FRAMES < usize::MAX,
        ensures
            final(frame_allocator).wf(),
            final(counter).wf(),
            r is Some <==> old(frame_allocator).cursor() + USER_SPACE_FRAMES
                <= old(frame_allocator).frame_seq().len(),
            r matches Some((t, a)) ==> {
                &&& is_user_space_for(a, mapper.spec_kernel_l3_data(), mapper.spec_kernel_l3_code())
                &&& t.tid.spec_as_u64() == old(counter).spec_next()
                &&& t.tid.spec_as_u64() >= 1
                &&& t.stack_frame == Some(user_entry_frame(*selectors))
                &&& t.regs == Some(registers_with_cr3(a.l4_frame))
                &&& final(counter).spec_next() == old(counter).spec_next() + 1
            },
            r is None ==> *final(counter) == *old(counter),
    {
        let space = match allocate_page_table(mapper, frame_allocator) {
            Some(a) => a,
            None => { return None; },
        };
        let tid = ThreadId::new(counter);
        let thread = Thread {
            tid,
            stack_frame: Some(InterruptFrame {
                instruction_pointer: USER_ENTRY_ADDRESS,
                code_segment: selectors.user_code_selector as u64,
                cpu_flags: USER_THREAD_RFLAGS,
                stack_pointer: USER_STACK_TOP,
                stack_segment: selectors.user_data_selector as u64,
            }),
            regs: Some(Registers::with_cr3(space.l4_frame)),
        };
        Some((thread, space))
    }
}

} // verus!
