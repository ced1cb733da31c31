use os::BootInfoFrameAllocator;
use os::InterruptFrame;
use os::KernelMapper;
use os::MemoryRegion;
use os::RegionKind;
use os::Registers;
use os::Scheduler;
use os::Selectors;
use os::Stack;
use os::StackAllocator;
use os::ThreadId;
use os::STACK_WINDOW_BASE;

fn wide_allocator() -> BootInfoFrameAllocator {
    BootInfoFrameAllocator::new(vec![MemoryRegion {
        start: 0x100000,
        end: 0x100000 + 256 * 4096,
        kind: RegionKind::Usable,
    }])
}

fn selectors() -> Selectors {
    Selectors {
        kernel_code_selector: 0x08,
        kernel_data_selector: 0x10,
        user_code_selector: 0x18 | 3,
        user_data_selector: 0x20 | 3,
    }
}

fn root_frame() -> InterruptFrame {
    InterruptFrame {
        instruction_pointer: 0xdead_0000,
        code_segment: 0x08,
        cpu_flags: 0x202,
        stack_pointer: 0x9000,
        stack_segment: 0x10,
    }
}

#[test]
fn thread_ids_are_values() {
    assert_eq!(ThreadId::initial().as_u64(), 0);
    assert_eq!(ThreadId::from_u64(17).as_u64(), 17);
}

#[test]
fn guard_page_stays_unmapped() {
    let mut mapper = KernelMapper::new(0x111000, 0x222000);
    let mut fa = wide_allocator();
    let mut stacks = StackAllocator::new();

    let stack = Stack::alloc_stack(10, &mut mapper, &mut fa, &mut stacks).unwrap();
    assert_eq!(stack.end, STACK_WINDOW_BASE + 11 * 4096);

    // The guard page is unmapped; the ten stack pages are mapped.
    assert!(!mapper.contains_page(STACK_WINDOW_BASE));
    for k in 1..=10u64 {
        assert!(mapper.contains_page(STACK_WINDOW_BASE + k * 4096));
    }

    // A second stack gets its own guard page, also unmapped.
    let stack2 = Stack::alloc_stack(10, &mut mapper, &mut fa, &mut stacks).unwrap();
    assert_eq!(stack2.end, STACK_WINDOW_BASE + 22 * 4096);
    assert!(!mapper.contains_page(STACK_WINDOW_BASE + 11 * 4096));
    assert!(mapper.contains_page(STACK_WINDOW_BASE + 12 * 4096));
}

#[test]
fn stack_allocation_fails_without_frames() {
    let mut mapper = KernelMapper::new(0x111000, 0x222000);
    let mut fa = BootInfoFrameAllocator::new(vec![MemoryRegion {
        start: 0x100000,
        end: 0x100000 + 4 * 4096,
        kind: RegionKind::Usable,
    }]);
    let mut stacks = StackAllocator::new();
    assert_eq!(
        Stack::alloc_stack(10, &mut mapper, &mut fa, &mut stacks),
        Err(os::MapError::FrameAllocationFailed)
    );
    // No rollback: the four pages mapped before the map ran out stay
    // mapped; the rest of the block and the guard page do not appear.
    for k in 1..=4u64 {
        assert!(mapper.contains_page(STACK_WINDOW_BASE + k * 4096));
    }
    assert!(!mapper.contains_page(STACK_WINDOW_BASE));
    assert!(!mapper.contains_page(STACK_WINDOW_BASE + 5 * 4096));
}

#[test]
fn stack_allocation_fails_on_a_mapped_page() {
    let mut mapper = KernelMapper::new(0x111000, 0x222000);
    let mut fa = wide_allocator();
    let mut stacks = StackAllocator::new();
    // A stray mapping sits on the third page of the coming block.
    mapper.map_to(STACK_WINDOW_BASE + 3 * 4096, 0x900000, 3).unwrap();
    assert_eq!(
        Stack::alloc_stack(10, &mut mapper, &mut fa, &mut stacks),
        Err(os::MapError::PageAlreadyMapped)
    );
    // The two pages mapped before the collision stay mapped; nothing
    // beyond the collision was touched.
    assert!(mapper.contains_page(STACK_WINDOW_BASE + 4096));
    assert!(mapper.contains_page(STACK_WINDOW_BASE + 2 * 4096));
    assert!(!mapper.contains_page(STACK_WINDOW_BASE + 4 * 4096));
    assert!(!mapper.contains_page(STACK_WINDOW_BASE));
}

#[test]
fn spawned_ids_are_distinct_and_nonzero() {
    let mut sched = Scheduler::new();
    let mut mapper = KernelMapper::new(0x111000, 0x222000);
    let mut fa = wide_allocator();
    let mut stacks = StackAllocator::new();
    let sel = selectors();

    for entry in [0xa000u64, 0xb000, 0xc000] {
        os::spawn(&mut sched, &mut mapper, &mut fa, &mut stacks, entry, &sel, 0x333000).unwrap();
    }

    let mut ids = Vec::new();
    while let Some(thread) = sched.schedule() {
        let id = thread.tid.as_u64();
        assert_ne!(id, 0);
        assert!(!ids.contains(&id));
        ids.push(id);
    }
    assert_eq!(ids, vec![1, 2, 3]);
}

#[test]
fn kernel_thread_enters_its_entrypoint() {
    let mut sched = Scheduler::new();
    let mut mapper = KernelMapper::new(0x111000, 0x222000);
    let mut fa = wide_allocator();
    let mut stacks = StackAllocator::new();
    let sel = selectors();

    os::spawn(&mut sched, &mut mapper, &mut fa, &mut stacks, 0xaabb, &sel, 0x333000).unwrap();

    let mut frame = root_frame();
    let mut regs = Registers::with_cr3(0x333000);
    assert!(os::timer_preempt(&mut sched, &mut frame, &mut regs));

    assert_eq!(sched.current_thread().as_u64(), 1);
    assert_eq!(frame.instruction_pointer, 0xaabb);
    assert_eq!(frame.code_segment, 0x08);
    assert_eq!(frame.cpu_flags, 0x202);
    assert_eq!(frame.stack_pointer, STACK_WINDOW_BASE + 11 * 4096);
    assert_eq!(frame.stack_segment, 0x10);
    assert_eq!(regs.cr3, 0x333000);
    assert_eq!(regs.rax, 0);
}

#[test]
fn user_thread_enters_ring_three() {
    let mut sched = Scheduler::new();
    let mapper = KernelMapper::new(0x111000, 0x222000);
    let mut fa = wide_allocator();
    let sel = selectors();

    let space = os::spawn_user(&mut sched, &mapper, &mut fa, &sel).unwrap();

    let mut frame = root_frame();
    let mut regs = Registers::with_cr3(0x333000);
    assert!(os::timer_preempt(&mut sched, &mut frame, &mut regs));

    // Ring 3: user code selector with requested privilege level 3,
    // entry one page into the user mapping, stack at the top of the
    // 64 KiB user-backed low region.
    assert_eq!(frame.code_segment, (0x18 | 3) as u64);
    assert_eq!(frame.stack_segment, (0x20 | 3) as u64);
    assert_eq!(frame.instruction_pointer, os::USER_ENTRY_ADDRESS);
    assert_eq!(frame.cpu_flags, 0x200);
    assert_eq!(frame.stack_pointer, os::USER_STACK_TOP);
    assert_eq!(frame.stack_pointer, 16 * 4096);
    assert_eq!(regs.cr3, space.l4_frame);

    // The low mapping is user-accessible all the way down.
    assert_eq!(space.l4.entry(0) & 4, 4);
    assert_eq!(space.l3.entry(0) & 4, 4);
    assert_eq!(space.l2.entry(0) & 4, 4);
    assert_eq!(space.l1.entry(0) & 4, 4);
    // The kernel half is not.
    assert_eq!(space.l3.entry(510) & 4, 0);
    assert_eq!(space.l3.entry(511) & 4, 0);
}

#[test]
fn round_robin_hits_each_thread_once_per_window() {
    let mut sched = Scheduler::new();
    let mut mapper = KernelMapper::new(0x111000, 0x222000);
    let mut fa = wide_allocator();
    let mut stacks = StackAllocator::new();
    let sel = selectors();

    for entry in [0xa000u64, 0xb000, 0xc000] {
        os::spawn(&mut sched, &mut mapper, &mut fa, &mut stacks, entry, &sel, 0x333000).unwrap();
    }

    let mut frame = root_frame();
    let mut regs = Registers::with_cr3(0x333000);

    // Two full windows of three preemptions each; the root thread takes
    // part from the second window on, so look at targets pairwise.
    let mut targets = Vec::new();
    for _ in 0..3 {
        assert!(os::timer_preempt(&mut sched, &mut frame, &mut regs));
        targets.push(sched.current_thread().as_u64());
    }
    assert_eq!(targets, vec![1, 2, 3]);
}

#[test]
fn preemption_restores_state_bit_exactly() {
    let mut sched = Scheduler::new();
    let mut mapper = KernelMapper::new(0x111000, 0x222000);
    let mut fa = wide_allocator();
    let mut stacks = StackAllocator::new();
    let sel = selectors();

    os::spawn(&mut sched, &mut mapper, &mut fa, &mut stacks, 0xaabb, &sel, 0x333000).unwrap();

    let frame0 = root_frame();
    let mut regs0 = Registers::with_cr3(0x333000);
    regs0.rax = 42;
    regs0.r15 = 0xffff_ffff_ffff_fffe;

    // Switch away from the root thread, then back to it.
    let mut frame = frame0;
    let mut regs = regs0;
    assert!(os::timer_preempt(&mut sched, &mut frame, &mut regs));
    assert_ne!(frame, frame0);
    assert!(os::timer_preempt(&mut sched, &mut frame, &mut regs));

    assert_eq!(sched.current_thread().as_u64(), 0);
    assert_eq!(frame, frame0);
    assert_eq!(regs, regs0);
}

#[test]
fn preemption_without_ready_threads_does_nothing() {
    let mut sched = Scheduler::new();
    let mut frame = root_frame();
    let mut regs = Registers::with_cr3(0x333000);
    assert!(!os::timer_preempt(&mut sched, &mut frame, &mut regs));
    assert_eq!(frame, root_frame());
    assert_eq!(sched.current_thread().as_u64(), 0);
}

#[test]
fn spawn_fails_cleanly_without_memory() {
    let mut sched = Scheduler::new();
    let mut mapper = KernelMapper::new(0x111000, 0x222000);
    let mut fa = BootInfoFrameAllocator::new(Vec::new());
    let mut stacks = StackAllocator::new();
    let sel = selectors();

    assert!(os::spawn(&mut sched, &mut mapper, &mut fa, &mut stacks, 0xaabb, &sel, 0x333000).is_err());
    assert!(sched.schedule().is_none());
    assert!(os::spawn_user(&mut sched, &mapper, &mut fa, &sel).is_none());
    assert!(sched.schedule().is_none());
}
