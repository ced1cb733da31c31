//! The round-robin preemptive scheduler.
//!
//! The scheduler maps thread identifiers to thread records and keeps a
//! strict FIFO run queue. A timer preemption pops the queue head, saves
//! the interrupted thread's interrupt frame and register file into its
//! record, restores the head's saved state in place, and requeues the
//! interrupted thread at the tail — round-robin fairness.

use vstd::prelude::*;

use std::collections::BTreeMap;
use std::collections::VecDeque;

use crate::memory::BootInfoFrameAllocator;
use crate::memory::PAGE_SIZE;
use crate::paging::KernelMapper;
use crate::paging::MapError;
use crate::paging::UserAddressSpace;
use crate::paging::USER_SPACE_FRAMES;
use crate::thread::kernel_entry_frame;
use crate::thread::registers_with_cr3;
use crate::thread::spec_thread_id;
use crate::thread::stack_block_free;
use crate::thread::user_entry_frame;
use crate::thread::InterruptFrame;
use crate::thread::Registers;
use crate::thread::Selectors;
use crate::thread::StackAllocator;
use crate::thread::Thread;
use crate::thread::ThreadId;
use crate::thread::ThreadIdCounter;
use crate::thread::KERNEL_STACK_PAGES;

verus! {

broadcast use vstd::std_specs::btree::group_btree_axioms, vstd::laws_cmp::group_laws_cmp, vstd::std_specs::vecdeque::axiom_spec_len;

/// The record of a paused thread: both state fields saved.
pub open spec fn paused_record(tid: u64, frame: InterruptFrame, regs: Registers) -> Thread {
    Thread { tid: spec_thread_id(tid), stack_frame: Some(frame), regs: Some(regs) }
}

/// The record of the running thread: nothing saved.
pub open spec fn running_record(tid: u64) -> Thread {
    Thread { tid: spec_thread_id(tid), stack_frame: None, regs: None }
}

/// Scheduler state: thread records, the FIFO run queue, the identifier
/// of the thread the CPU is executing, and the identifier counter.
pub struct Scheduler {
    threads: BTreeMap<u64, Thread>,
    queue: VecDeque<u64>,
    current: u64,
    counter: ThreadIdCounter,
}

impl Scheduler {
    /// The thread records, by identifier.
    pub closed spec fn spec_threads(self) -> Map<u64, Thread> {
        self.threads@
    }

    /// The run queue, head first.
    pub closed spec fn spec_queue(self) -> Seq<u64> {
        self.queue@
    }

    /// The identifier of the thread the CPU is executing.
    pub closed spec fn spec_current(self) -> u64 {
        self.current
    }

    /// The identifier the next spawn will receive.
    pub closed spec fn spec_next_id(self) -> u64 {
        self.counter.spec_next()
    }

    /// The scheduler's invariant.
    ///
    /// Exactly one thread is current and carries no saved state; every
    /// other known thread carries both saved fields. Queue entries are
    /// pairwise distinct known threads, none of them current. Records
    /// carry their own identifier, identifiers stay below the counter,
    /// and only the initial thread has identifier 0.
    pub open spec fn wf(self) -> bool {
        &&& self.spec_threads().contains_key(self.spec_current())
        &&& self.spec_threads()[self.spec_current()].stack_frame is None
        &&& self.spec_threads()[self.spec_current()].regs is None
        &&& forall|t: u64| self.spec_threads().contains_key(t)
            ==> (#[trigger] self.spec_threads()[t]).tid == spec_thread_id(t)
        &&& forall|t: u64| self.spec_threads().contains_key(t) && t != self.spec_current()
            ==> (#[trigger] self.spec_threads()[t]).stack_frame is Some
                && self.spec_threads()[t].regs is Some
        &&& forall|i: int, j: int| 0 <= i < j < self.spec_queue().len()
            ==> self.spec_queue()[i] != self.spec_queue()[j]
        &&& forall|i: int| 0 <= i < self.spec_queue().len()
            ==> self.spec_threads().contains_key(#[trigger] self.spec_queue()[i])
                && self.spec_queue()[i] != self.spec_current()
        &&& self.spec_next_id() >= 1
        &&& forall|t: u64| #[trigger] self.spec_threads().contains_key(t)
            ==> t < self.spec_next_id()
    }

    /// A scheduler holding only the initial thread, which is current,
    /// with an empty queue.
    pub fn new() -> (r: Self)
        ensures
            r.wf(),
            r.spec_threads() == Map::<u64, Thread>::empty().insert(0, running_record(0)),
            r.spec_queue() == Seq::<u64>::empty(),
            r.spec_current() == 0,
            r.spec_next_id() == 1,
    {
        let root_thread = Thread::create_root_thread();
        let root_id = root_thread.tid.as_u64();
        let mut threads: BTreeMap<u64, Thread> = BTreeMap::new();
        threads.insert(root_id, root_thread);
        proof {
            crate::thread::lemma_thread_id_roundtrip(root_thread.tid);
        }
        Scheduler {
            threads,
            queue: VecDeque::new(),
            current: root_id,
            counter: ThreadIdCounter::new(),
        }
    }

    /// The identifier of the thread the CPU is executing.
    pub fn current_thread(&self) -> (r: ThreadId)
        ensures
            r == spec_thread_id(self.spec_current()),
            r.spec_as_u64() == self.spec_current(),
    {
        ThreadId::from_u64(self.current)
    }

    /// Inserts a freshly built, paused thread and queues it at the tail.
    pub fn register_thread(&mut self, thread: Thread)
        requires
            old(self).wf(),
            !old(self).spec_threads().contains_key(thread.tid.spec_as_u64()),
            thread.tid.spec_as_u64() < old(self).spec_next_id(),
            thread.stack_frame is Some,
            thread.regs is Some,
        ensures
            final(self).wf(),
            final(self).spec_threads() == old(self).spec_threads()
                .insert(thread.tid.spec_as_u64(), thread),
            final(self).spec_queue() == old(self).spec_queue().push(thread.tid.spec_as_u64()),
            final(self).spec_current() == old(self).spec_current(),
            final(self).spec_next_id() == old(self).spec_next_id(),
    {
        let tid = thread.tid.as_u64();
        let prev = self.threads.insert(tid, thread);
        proof {
            crate::thread::lemma_thread_id_roundtrip(thread.tid);
        }
        self.queue.push_back(tid);
        proof {
            let q0 = old(self).spec_queue();
            assert forall|i: int, j: int| 0 <= i < j < self.spec_queue().len()
                implies self.spec_queue()[i] != self.spec_queue()[j] by {
                if j < q0.len() {
                } else {
                    assert(self.spec_queue()[j] == tid);
                    assert(self.spec_queue()[i] == q0[i]);
                }
            }
        }
    }

    /// Pops the queue head and returns its record, or nothing while the
    /// queue is empty.
    pub fn schedule(&mut self) -> (r: Option<Thread>)
        requires
            old(self).wf(),
        ensures
            final(self).wf(),
            final(self).spec_threads() == old(self).spec_threads(),
            final(self).spec_current() == old(self).spec_current(),
            final(self).spec_next_id() == old(self).spec_next_id(),
            old(self).spec_queue().len() == 0 ==> r is None
                && final(self).spec_queue() == old(self).spec_queue(),
            old(self).spec_queue().len() > 0 ==> {
                &&& r == Some(old(self).spec_threads()[old(self).spec_queue()[0]])
                &&& final(self).spec_queue() == old(self).spec_queue().drop_first()
            },
    {
        let head = self.queue.pop_front();
        match head {
            Some(tid) => {
                proof {
                    assert(old(self).spec_queue()[0] == tid);
                    assert(self.spec_queue() =~= old(self).spec_queue().drop_first());
                }
                match self.threads.get(&tid) {
                    Some(t) => Some(*t),
                    None => vstd::pervasive::unreached(),
                }
            },
            None => None,
        }
    }

    /// Whether another thread is queued and ready to be switched to.
    pub fn has_ready_thread(&self) -> (r: bool)
        ensures
            r == (self.spec_queue().len() > 0),
    {
        self.queue.len() > 0
    }
}

/// The run queue after one preemption: the head is switched to, the
/// interrupted thread goes to the tail.
pub open spec fn preempt_queue(q: Seq<u64>, cur: u64) -> Seq<u64> {
    q.drop_first().push(cur)
}

/// The targets of `k` consecutive preemptions, starting from run queue
/// `q` with `cur` executing.
pub open spec fn window_targets(q: Seq<u64>, cur: u64, k: nat) -> Seq<u64>
    decreases k,
{
    if k == 0 {
        Seq::empty()
    } else {
        seq![q[0]] + window_targets(preempt_queue(q, cur), q[0], (k - 1) as nat)
    }
}

/// Consecutive preemptions switch to the queued threads in queue order.
pub proof fn lemma_window_targets(q: Seq<u64>, cur: u64, k: nat)
    requires
        k <= q.len(),
    ensures
        window_targets(q, cur, k).len() == k,
        forall|i: int| 0 <= i < k ==> #[trigger] window_targets(q, cur, k)[i] == q[i],
    decreases k,
{
    if k > 0 {
        let q1 = preempt_queue(q, cur);
        lemma_window_targets(q1, q[0], (k - 1) as nat);
        let w = window_targets(q, cur, k);
        let w1 = window_targets(q1, q[0], (k - 1) as nat);
        assert forall|i: int| 0 <= i < k implies #[trigger] w[i] == q[i] by {
            if i > 0 {
                assert(w[i] == w1[i - 1]);
                assert(w1[i - 1] == q1[i - 1]);
                assert(q1[i - 1] == q[i]);
            }
        }
    }
}

/// FIFO fairness: when three spawned threads fill the run queue, any
/// window of three consecutive preemptions switches to each of them
/// exactly once, in the order they were queued.
pub proof fn lemma_fifo_fairness(q: Seq<u64>, cur: u64)
    requires
        q.len() == 3,
        q[0] != q[1] && q[0] != q[2] && q[1] != q[2],
    ensures
        window_targets(q, cur, 3) == q,
        forall|i: int, j: int| 0 <= i < j < 3
            ==> window_targets(q, cur, 3)[i] != window_targets(q, cur, 3)[j],
{
    lemma_window_targets(q, cur, 3);
    assert(window_targets(q, cur, 3) =~= q);
}

/// Spawn identifiers: `n` spawns starting from counter value `next0`
/// receive `next0, next0 + 1, …`.
pub open spec fn spawned_ids(next0: u64, n: nat) -> Seq<u64> {
    Seq::new(n, |i: int| (next0 + i) as u64)
}

/// Identifier uniqueness: every finite sequence of spawns hands out
/// pairwise distinct, nonzero identifiers.
pub proof fn lemma_spawned_ids_distinct(next0: u64, n: nat)
    requires
        next0 >= 1,
        next0 + n <= u64::MAX + 1,
    ensures
        forall|i: int| 0 <= i < n ==> #[trigger] spawned_ids(next0, n)[i] != 0,
        forall|i: int, j: int| 0 <= i < j < n
            ==> #[trigger] spawned_ids(next0, n)[i] != #[trigger] spawned_ids(next0, n)[j],
{
}

/// Pauses the interrupted thread and resumes `thread` in its place:
/// saves `*stack_frame` and `*regs` — the outgoing thread's state as the
/// trampoline captured it — into the outgoing record, overwrites them
/// with the incoming thread's saved state so `iretq` resumes the
/// incoming thread, swaps `current`, and requeues the outgoing thread at
/// the tail.
pub fn add_paused_thread(
    stack_frame: &mut InterruptFrame,
    regs: &mut Registers,
    thread: Thread,
    sched: &mut Scheduler,
)
    requires
        old(sched).wf(),
        old(sched).spec_threads().contains_key(thread.tid.spec_as_u64()),
        thread.tid.spec_as_u64() != old(sched).spec_current(),
        !old(sched).spec_queue().contains(thread.tid.spec_as_u64()),
    ensures
        final(sched).wf(),
        final(sched).spec_current() == thread.tid.spec_as_u64(),
        final(sched).spec_next_id() == old(sched).spec_next_id(),
        final(sched).spec_threads() == old(sched).spec_threads()
            .insert(old(sched).spec_current(), paused_record(
                old(sched).spec_current(), *old(stack_frame), *old(regs)))
            .insert(thread.tid.spec_as_u64(), running_record(thread.tid.spec_as_u64())),
        final(sched).spec_queue() == old(sched).spec_queue().push(old(sched).spec_current()),
        old(sched).spec_threads()[thread.tid.spec_as_u64()].stack_frame
            == Some(*final(stack_frame)),
        old(sched).spec_threads()[thread.tid.spec_as_u64()].regs == Some(*final(regs)),
{
    let tid = thread.tid.as_u64();
    let current_tid = sched.current;
    sched.current = tid;

    let outgoing = Thread {
        tid: ThreadId::from_u64(current_tid),
        stack_frame: Some(*stack_frame),
        regs: Some(*regs),
    };
    sched.threads.insert(current_tid, outgoing);

    let incoming = match sched.threads.insert(tid, Thread {
        tid: thread.tid,
        stack_frame: None,
        regs: None,
    }) {
        Some(t) => t,
        None => vstd::pervasive::unreached(),
    };
    proof {
        crate::thread::lemma_thread_id_roundtrip(thread.tid);
    }

    *stack_frame = match incoming.stack_frame {
        Some(f) => f,
        None => vstd::pervasive::unreached(),
    };
    *regs = match incoming.regs {
        Some(r) => r,
        None => vstd::pervasive::unreached(),
    };

    sched.queue.push_back(current_tid);
    proof {
        let q0 = old(sched).spec_queue();
        assert forall|i: int, j: int| 0 <= i < j < sched.spec_queue().len()
            implies sched.spec_queue()[i] != sched.spec_queue()[j] by {
            if j < q0.len() {
            } else {
                assert(sched.spec_queue()[j] == current_tid);
                assert(sched.spec_queue()[i] == q0[i]);
            }
        }
        assert forall|i: int| 0 <= i < sched.spec_queue().len()
            implies sched.spec_threads().contains_key(#[trigger] sched.spec_queue()[i])
                && sched.spec_queue()[i] != sched.spec_current() by {
            if i < q0.len() {
                assert(sched.spec_queue()[i] == q0[i]);
            } else {
                assert(sched.spec_queue()[i] == current_tid);
            }
        }
    }
}

/// One timer tick: if a thread is queued, switch to it; otherwise keep
/// running the current thread. Returns whether a switch happened.
///
/// On a switch, the outgoing thread's captured state goes into its
/// record bit-for-bit, the incoming head's saved state comes out
/// bit-for-bit, and the queue rotates: head removed, outgoing requeued
/// at the tail.
pub fn timer_preempt(
    sched: &mut Scheduler,
    stack_frame: &mut InterruptFrame,
    regs: &mut Registers,
) -> (switched: bool)
    requires
        old(sched).wf(),
    ensures
        final(sched).wf(),
        final(sched).spec_next_id() == old(sched).spec_next_id(),
        switched == (old(sched).spec_queue().len() > 0),
        !switched ==> final(sched).spec_threads() == old(sched).spec_threads()
            && final(sched).spec_queue() == old(sched).spec_queue()
            && final(sched).spec_current() == old(sched).spec_current()
            && *final(stack_frame) == *old(stack_frame)
            && *final(regs) == *old(regs),
        switched ==> {
            &&& final(sched).spec_current() == old(sched).spec_queue()[0]
            &&& final(sched).spec_queue() == preempt_queue(
                old(sched).spec_queue(), old(sched).spec_current())
            &&& final(sched).spec_threads() == old(sched).spec_threads()
                .insert(old(sched).spec_current(), paused_record(
                    old(sched).spec_current(), *old(stack_frame), *old(regs)))
                .insert(old(sched).spec_queue()[0], running_record(old(sched).spec_queue()[0]))
            &&& old(sched).spec_threads()[old(sched).spec_queue()[0]].stack_frame
                == Some(*final(stack_frame))
            &&& old(sched).spec_threads()[old(sched).spec_queue()[0]].regs
                == Some(*final(regs))
            &&& preempt_snapshot(*final(sched), *final(stack_frame), *final(regs))
                == preempt_step(preempt_snapshot(*old(sched), *old(stack_frame), *old(regs)))
        },
{
    let next = sched.schedule();
    match next {
        Some(thread) => {
            proof {
                let q0 = old(sched).spec_queue();
                assert(thread.tid == spec_thread_id(q0[0]));
                crate::thread::lemma_thread_id_value(q0[0]);
                assert(!sched.spec_queue().contains(thread.tid.spec_as_u64())) by {
                    if sched.spec_queue().contains(q0[0]) {
                        let i = choose|i: int| 0 <= i < sched.spec_queue().len()
                            && sched.spec_queue()[i] == q0[0];
                        assert(q0[i + 1] == q0[0]);
                    }
                }
            }
            add_paused_thread(stack_frame, regs, thread, sched);
            proof {
                assert(sched.spec_queue()
                    =~= preempt_queue(old(sched).spec_queue(), old(sched).spec_current()));
            }
            true
        },
        None => false,
    }
}

/// A snapshot of the scheduler and the CPU state a preemption point
/// sees: the saved records, the run queue, the executing thread, and
/// the interrupted thread's interrupt frame and register file.
#[verifier::ext_equal]
pub struct PreemptState {
    pub threads: Map<u64, Thread>,
    pub queue: Seq<u64>,
    pub current: u64,
    pub frame: InterruptFrame,
    pub regs: Registers,
}

/// Queue entries are pairwise distinct and never the executing thread.
pub open spec fn preempt_state_wf(s: PreemptState) -> bool {
    &&& forall|i: int, j: int| 0 <= i < j < s.queue.len() ==> s.queue[i] != s.queue[j]
    &&& forall|i: int| 0 <= i < s.queue.len() ==> #[trigger] s.queue[i] != s.current
}

/// The snapshot a scheduler and CPU state form.
pub open spec fn preempt_snapshot(s: Scheduler, frame: InterruptFrame, regs: Registers) -> PreemptState {
    PreemptState {
        threads: s.spec_threads(),
        queue: s.spec_queue(),
        current: s.spec_current(),
        frame,
        regs,
    }
}

/// One preemption with a non-empty queue: the head is switched to, the
/// interrupted thread's state is saved into its record, the head's
/// saved state becomes the CPU state, and the interrupted thread joins
/// the tail.
pub open spec fn preempt_step(s: PreemptState) -> PreemptState {
    let t = s.queue[0];
    PreemptState {
        threads: s.threads.insert(s.current, paused_record(s.current, s.frame, s.regs)).insert(
            t,
            running_record(t),
        ),
        queue: preempt_queue(s.queue, s.current),
        current: t,
        frame: s.threads[t].stack_frame.unwrap(),
        regs: s.threads[t].regs.unwrap(),
    }
}

/// `k` consecutive preemptions.
pub open spec fn preempt_steps(s: PreemptState, k: nat) -> PreemptState
    decreases k,
{
    if k == 0 {
        s
    } else {
        preempt_step(preempt_steps(s, (k - 1) as nat))
    }
}

/// After `k` preemptions the targets so far came from the queue in
/// order, the interrupted thread sits `k - 1` places from the tail, and
/// its saved record is untouched.
proof fn lemma_rotation(s: PreemptState, k: int)
    requires
        preempt_state_wf(s),
        1 <= k <= s.queue.len(),
    ensures
        preempt_steps(s, k as nat).current == s.queue[k - 1],
        preempt_steps(s, k as nat).queue =~= s.queue.skip(k) + seq![s.current] + s.queue.take(k - 1),
        preempt_steps(s, k as nat).threads[s.current] == paused_record(s.current, s.frame, s.regs),
    decreases k,
{
    if k == 1 {
        assert(preempt_steps(s, 1) == preempt_step(preempt_steps(s, 0)));
        assert(preempt_steps(s, 0) == s);
        assert(preempt_step(s).queue =~= s.queue.skip(1) + seq![s.current] + s.queue.take(0));
    } else {
        lemma_rotation(s, k - 1);
        let prev = preempt_steps(s, (k - 1) as nat);
        assert(preempt_steps(s, k as nat) == preempt_step(prev));
        assert(prev.queue[0] == s.queue[k - 1]);
        assert(prev.current == s.queue[k - 2]);
        assert(preempt_step(prev).threads[s.current] == prev.threads[s.current]);
        assert(preempt_step(prev).queue =~= s.queue.skip(k) + seq![s.current] + s.queue.take(k - 1));
    }
}

/// Preemption transparency: once every other thread has had its turn,
/// the interrupted thread resumes with its interrupt frame and register
/// file restored bit-exactly — a thread computes the same result
/// whether or not preemptions occurred during its run.
pub proof fn lemma_preemption_transparency(s: PreemptState)
    requires
        preempt_state_wf(s),
        s.queue.len() >= 1,
    ensures
        preempt_steps(s, (s.queue.len() + 1) as nat).current == s.current,
        preempt_steps(s, (s.queue.len() + 1) as nat).frame == s.frame,
        preempt_steps(s, (s.queue.len() + 1) as nat).regs == s.regs,
{
    let n = s.queue.len() as int;
    lemma_rotation(s, n);
    let last = preempt_steps(s, n as nat);
    assert(last.queue[0] == s.current);
    assert(preempt_steps(s, (n + 1) as nat) == preempt_step(last));
}

/// Spawns a kernel thread that will enter `entrypoint` on a fresh
/// guard-paged stack in the kernel address space `cr3`, and queues it at
/// the tail. Fails exactly when the stack cannot be allocated; the
/// scheduler is unchanged then.
pub fn spawn(
    sched: &mut Scheduler,
    mapper: &mut KernelMapper,
    frame_allocator: &mut BootInfoFrameAllocator,
    stacks: &mut StackAllocator,
    entrypoint: u64,
    selectors: &Selectors,
    cr3: u64,
) -> (r: Result<(), MapError>)
    requires
        old(sched).wf(),
        old(sched).spec_next_id() < u64::MAX,
        old(stacks).wf(),
        old(mapper).wf(),
        old(frame_allocator).wf(),
        old(stacks).spec_next() + (KERNEL_STACK_PAGES + 1) * PAGE_SIZE <= u64::MAX,
        old(frame_allocator).cursor() + KERNEL_STACK_PAGES < usize::MAX,
    ensures
        final(sched).wf(),
        final(stacks).wf(),
        final(mapper).wf(),
        final(frame_allocator).wf(),
        r is Ok <==> old(frame_allocator).cursor() + KERNEL_STACK_PAGES
            <= old(frame_allocator).frame_seq().len()
            && stack_block_free(*old(mapper), old(stacks).spec_next(), KERNEL_STACK_PAGES as int),
        r is Ok ==> {
            &&& final(sched).spec_threads() == old(sched).spec_threads().insert(
                old(sched).spec_next_id(),
                paused_record(
                    old(sched).spec_next_id(),
                    kernel_entry_frame(
                        entrypoint,
                        (old(stacks).spec_next() + (KERNEL_STACK_PAGES + 1) * PAGE_SIZE) as u64,
                        *selectors,
                    ),
                    registers_with_cr3(cr3),
                ),
            )
            &&& final(sched).spec_queue() == old(sched).spec_queue().push(old(sched).spec_next_id())
            &&& final(sched).spec_current() == old(sched).spec_current()
            &&& final(sched).spec_next_id() == old(sched).spec_next_id() + 1
        },
        r is Err ==> *final(sched) == *old(sched),
        !old(mapper).is_mapped(old(stacks).spec_next())
            ==> !final(mapper).is_mapped(old(stacks).spec_next()),
{
    let thread = match Thread::create_entrypoint(
        mapper,
        frame_allocator,
        stacks,
        &mut sched.counter,
        entrypoint,
        selectors,
        cr3,
    ) {
        Ok(t) => t,
        Err(e) => { return Err(e); },
    };
    proof {
        crate::thread::lemma_thread_id_roundtrip(thread.tid);
        assert(sched.spec_threads() == old(sched).spec_threads());
        assert(sched.spec_queue() == old(sched).spec_queue());
        assert(sched.spec_current() == old(sched).spec_current());
        assert(sched.spec_next_id() == old(sched).spec_next_id() + 1);
        assert(sched.wf());
    }
    sched.register_thread(thread);
    Ok(())
}

/// Spawns a user thread in a fresh address space and queues it at the
/// tail, handing back the address space for the caller to install and
/// copy the thread's entry code into. Fails exactly when the memory map
/// has too few frames left; the scheduler is unchanged then.
pub fn spawn_user(
    sched: &mut Scheduler,
    mapper: &KernelMapper,
    frame_allocator: &mut BootInfoFrameAllocator,
    selectors: &Selectors,
) -> (r: Option<UserAddressSpace>)
    requires
        old(sched).wf(),
        old(sched).spec_next_id() < u64::MAX,
        mapper.wf(),
        old(frame_allocator).wf(),
        old(frame_allocator).cursor() + USER_SPACE_FRAMES < usize::MAX,
    ensures
        final(sched).wf(),
        final(frame_allocator).wf(),
        r is Some <==> old(frame_allocator).cursor() + USER_SPACE_FRAMES
            <= old(frame_allocator).frame_seq().len(),
        r matches Some(a) ==> {
            &&& crate::paging::is_user_space_for(
                a, mapper.spec_kernel_l3_data(), mapper.spec_kernel_l3_code())
            &&& final(sched).spec_threads() == old(sched).spec_threads().insert(
                old(sched).spec_next_id(),
                paused_record(
                    old(sched).spec_next_id(),
                    user_entry_frame(*selectors),
                    registers_with_cr3(a.l4_frame),
                ),
            )
            &&& final(sched).spec_queue() == old(sched).spec_queue().push(old(sched).spec_next_id())
            &&& final(sched).spec_current() == old(sched).spec_current()
            &&& final(sched).spec_next_id() == old(sched).spec_next_id() + 1
        },
        r is None ==> *final(sched) == *old(sched),
{
    let result = Thread::create_userspace_entrypoint(
        mapper,
        frame_allocator,
        &mut sched.counter,
        selectors,
    );
    let (thread, space) = match result {
        Some(p) => p,
        None => { return None; },
    };
    proof {
        crate::thread::lemma_thread_id_roundtrip(thread.tid);
        assert(sched.spec_threads() == old(sched).spec_threads());
        assert(sched.spec_queue() == old(sched).spec_queue());
        assert(sched.spec_current() == old(sched).spec_current());
        assert(sched.spec_next_id() == old(sched).spec_next_id() + 1);
        assert(sched.wf());
    }
    sched.register_thread(thread);
    Some(space)
}

} // verus!
