//! The keyboard scancode queue.
//!
//! The keyboard interrupt handler reads a scancode from the controller
//! port and enqueues it here; the asynchronous keyboard task drains the
//! queue. The queue is a bounded FIFO ring buffer: when it is full a
//! scancode is dropped, with no other effect.

use vstd::prelude::*;

use crossbeam_queue::ArrayQueue;

verus! {

/// Scancodes the queue can buffer before it drops input.
pub const SCANCODE_QUEUE_CAPACITY: usize = 100;

/// Declares crossbeam's bounded MPMC ring buffer to the verifier; its
/// contents and capacity are modelled by the two names below.
#[verifier::external_type_specification]
#[verifier::external_body]
#[verifier::reject_recursive_types(T)]
pub struct ExArrayQueue<T>(ArrayQueue<T>);

/// The scancodes a queue holds, head first.
pub uninterp spec fn scancode_queue_model(q: ArrayQueue<u8>) -> Seq<u8>;

/// The fixed capacity a queue was created with.
pub uninterp spec fn scancode_queue_capacity(q: ArrayQueue<u8>) -> nat;

/// Relies on crossbeam's ArrayQueue::new: an empty bounded queue of the
/// given capacity. It panics on a zero capacity and on one so large its
/// internal index arithmetic overflows; both are excluded here.
#[verifier::external_body]
fn queue_new(capacity: usize) -> (q: ArrayQueue<u8>)
    requires
        1 <= capacity <= 0x1000_0000,
    ensures
        scancode_queue_model(q) == Seq::<u8>::empty(),
        scancode_queue_capacity(q) == capacity,
{
    ArrayQueue::new(capacity)
}

/// Relies on crossbeam's ArrayQueue::push: enqueues at the tail, or
/// hands the value back exactly when the queue is full.
#[verifier::external_body]
fn queue_push(q: &mut ArrayQueue<u8>, value: u8) -> (r: Result<(), u8>)
    ensures
        r is Ok <==> scancode_queue_model(*old(q)).len() < scancode_queue_capacity(*old(q)),
        r is Ok ==> scancode_queue_model(*final(q))
            == scancode_queue_model(*old(q)).push(value)
            && scancode_queue_capacity(*final(q)) == scancode_queue_capacity(*old(q)),
        r is Err ==> scancode_queue_model(*final(q)) == scancode_queue_model(*old(q))
            && scancode_queue_capacity(*final(q)) == scancode_queue_capacity(*old(q)),
        r matches Err(v) ==> v == value,
{
    q.push(value)
}

/// Relies on crossbeam's ArrayQueue::pop: dequeues the head, or nothing
/// exactly when the queue is empty.
#[verifier::external_body]
fn queue_pop(q: &mut ArrayQueue<u8>) -> (r: Option<u8>)
    ensures
        r is Some <==> scancode_queue_model(*old(q)).len() > 0,
        r is None ==> scancode_queue_model(*final(q)) == scancode_queue_model(*old(q))
            && scancode_queue_capacity(*final(q)) == scancode_queue_capacity(*old(q)),
        r is Some ==> r == Some(scancode_queue_model(*old(q))[0])
            && scancode_queue_model(*final(q)) == scancode_queue_model(*old(q)).drop_first()
            && scancode_queue_capacity(*final(q)) == scancode_queue_capacity(*old(q)),
{
    q.pop()
}

/// The stream of scancodes the keyboard has produced and the keyboard
/// task has not yet consumed.
pub struct ScancodeStream {
    queue: ArrayQueue<u8>,
}

impl ScancodeStream {
    /// The buffered scancodes, head first.
    pub closed spec fn spec_scancodes(self) -> Seq<u8> {
        scancode_queue_model(self.queue)
    }

    /// How many scancodes fit.
    pub closed spec fn spec_capacity(self) -> nat {
        scancode_queue_capacity(self.queue)
    }

    /// An empty stream over a fresh ring buffer.
    pub fn new() -> (r: Self)
        ensures
            r.spec_scancodes() == Seq::<u8>::empty(),
            r.spec_capacity() == SCANCODE_QUEUE_CAPACITY,
    {
        ScancodeStream { queue: queue_new(SCANCODE_QUEUE_CAPACITY) }
    }

    /// Takes the oldest buffered scancode, or nothing exactly when the
    /// buffer is empty — the keyboard task then goes back to sleep until
    /// the interrupt handler's waker fires.
    pub fn poll_scancode(&mut self) -> (r: Option<u8>)
        ensures
            final(self).spec_capacity() == old(self).spec_capacity(),
            old(self).spec_scancodes().len() == 0 ==> r is None
                && final(self).spec_scancodes() == old(self).spec_scancodes(),
            old(self).spec_scancodes().len() > 0 ==> r == Some(old(self).spec_scancodes()[0])
                && final(self).spec_scancodes() == old(self).spec_scancodes().drop_first(),
    {
        queue_pop(&mut self.queue)
    }
}

/// Buffers one scancode from the keyboard interrupt handler. Returns
/// whether it was kept: a full queue drops the scancode — the caller
/// prints a warning — with no other effect.
pub fn add_scancode(stream: &mut ScancodeStream, scancode: u8) -> (queued: bool)
    ensures
        final(stream).spec_capacity() == old(stream).spec_capacity(),
        queued == (old(stream).spec_scancodes().len() < old(stream).spec_capacity()),
        queued ==> final(stream).spec_scancodes()
            == old(stream).spec_scancodes().push(scancode),
        !queued ==> final(stream).spec_scancodes() == old(stream).spec_scancodes(),
{
    match queue_push(&mut stream.queue, scancode) {
        Ok(()) => true,
        Err(_) => false,
    }
}

} // verus!
