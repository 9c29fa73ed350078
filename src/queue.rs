//! The bounded FIFO of slow operations waiting for the arm to rest.
use crate::protocol::Op;
use ringbuffer::{ConstGenericRingBuffer, RingBuffer};
use vstd::prelude::*;

verus! {

#[verifier::external_type_specification]
#[verifier::external_body]
#[verifier::reject_recursive_types(T)]
pub struct ExConstGenericRingBuffer<T, const CAP: usize>(ConstGenericRingBuffer<T, CAP>);

/// Most operations that wait at once.
pub const QUEUE_CAPACITY: usize = 32;

/// The operations that a ring holds, oldest first.
pub uninterp spec fn ring_items(q: ConstGenericRingBuffer<Op, 32>) -> Seq<Op>;

/// Relies on `ConstGenericRingBuffer::default`: an empty ring.
#[verifier::external_body]
fn ring_new() -> (r: ConstGenericRingBuffer<Op, 32>)
    ensures
        ring_items(r) == Seq::<Op>::empty(),
{
    ConstGenericRingBuffer::default()
}

/// Relies on `RingBuffer::len`: the number of items held, at most the capacity.
#[verifier::external_body]
fn ring_len(q: &ConstGenericRingBuffer<Op, 32>) -> (r: usize)
    ensures
        r == ring_items(*q).len(),
        r <= QUEUE_CAPACITY,
{
    q.len()
}

/// Relies on `RingBuffer::push`: on a ring that is not full it appends the
/// item at the back.
#[verifier::external_body]
fn ring_push(q: &mut ConstGenericRingBuffer<Op, 32>, op: Op)
    requires
        ring_items(*old(q)).len() < QUEUE_CAPACITY,
    ensures
        ring_items(*final(q)) == ring_items(*old(q)).push(op),
{
    q.push(op)
}

/// Relies on `RingBuffer::dequeue`: removes and returns the oldest item, or
/// `None` on an empty ring.
#[verifier::external_body]
fn ring_dequeue(q: &mut ConstGenericRingBuffer<Op, 32>) -> (r: Option<Op>)
    ensures
        ring_items(*old(q)).len() == 0 ==> r.is_none() && ring_items(*final(q)) == ring_items(*old(q)),
        ring_items(*old(q)).len() > 0 ==> r == Some(ring_items(*old(q))[0]) && ring_items(*final(q))
            == ring_items(*old(q)).drop_first(),
{
    q.dequeue()
}

/// Relies on `RingBuffer::clear`: removes every item.
#[verifier::external_body]
fn ring_clear(q: &mut ConstGenericRingBuffer<Op, 32>)
    ensures
        ring_items(*final(q)) == Seq::<Op>::empty(),
{
    q.clear()
}

/// Slow operations waiting, oldest first, at most [`QUEUE_CAPACITY`].
pub struct OpQueue {
    queue: ConstGenericRingBuffer<Op, 32>,
}

impl OpQueue {
    pub closed spec fn items(&self) -> Seq<Op> {
        ring_items(self.queue)
    }

    pub fn new() -> (r: OpQueue)
        ensures
            r.items() == Seq::<Op>::empty(),
    {
        OpQueue { queue: ring_new() }
    }

    pub fn len(&self) -> (r: usize)
        ensures
            r == self.items().len(),
            r <= QUEUE_CAPACITY,
    {
        ring_len(&self.queue)
    }

    /// Appends an operation, or hands it back, leaving the queue as it was,
    /// when the queue is full.
    pub fn enqueue(&mut self, op: Op) -> (r: Result<(), Op>)
        ensures
            old(self).items().len() < QUEUE_CAPACITY ==> r is Ok && final(self).items()
                == old(self).items().push(op),
            old(self).items().len() >= QUEUE_CAPACITY ==> r == Err::<(), Op>(op)
                && final(self).items() == old(self).items(),
    {
        if ring_len(&self.queue) >= QUEUE_CAPACITY {
            Err(op)
        } else {
            ring_push(&mut self.queue, op);
            Ok(())
        }
    }

    /// Removes and returns the oldest operation.
    pub fn dequeue(&mut self) -> (r: Option<Op>)
        ensures
            old(self).items().len() == 0 ==> r.is_none() && final(self).items() == old(self).items(),
            old(self).items().len() > 0 ==> r == Some(old(self).items()[0]) && final(self).items()
                == old(self).items().drop_first(),
    {
        ring_dequeue(&mut self.queue)
    }

    pub fn clear(&mut self)
        ensures
            final(self).items() == Seq::<Op>::empty(),
    {
        ring_clear(&mut self.queue)
    }
}

} // verus!
