//! Trusted boundary around `crossbeam_queue::SegQueue`, the lock-free buffer
//! that holds a conversation's pending request and answer strings.
//!
//! The queue is kept exactly as the outside crate provides it; verified code
//! reaches it only through the wrappers below, whose contracts speak of
//! [`queued`], the sequence of element views from head to tail.

use vstd::prelude::*;
use crossbeam_queue::SegQueue;

verus! {

#[verifier::external_type_specification]
#[verifier::external_body]
#[verifier::reject_recursive_types(T)]
pub struct ExSegQueue<T>(SegQueue<T>);

/// The strings currently held by the queue, head first.
pub uninterp spec fn queued(q: SegQueue<String>) -> Seq<Seq<char>>;

/// Relies on `crossbeam_queue::SegQueue::new`: creates an empty queue.
#[verifier::external_body]
pub(crate) fn queue_new() -> (q: SegQueue<String>)
    ensures
        queued(q) == Seq::<Seq<char>>::empty(),
{
    SegQueue::new()
}

/// Relies on `crossbeam_queue::SegQueue::push`: pushes the element to the
/// tail of the queue.
#[verifier::external_body]
pub(crate) fn queue_push(q: &mut SegQueue<String>, value: String)
    ensures
        queued(*final(q)) == queued(*old(q)).push(value@),
{
    q.push(value)
}

/// Relies on `crossbeam_queue::SegQueue::pop`: pops the head element, or
/// returns `None` when the queue is empty.
#[verifier::external_body]
pub(crate) fn queue_pop(q: &mut SegQueue<String>) -> (r: Option<String>)
    ensures
        queued(*old(q)).len() == 0 ==> r is None && queued(*final(q)) == queued(*old(q)),
        queued(*old(q)).len() > 0 ==> r is Some && queued(*final(q)) == queued(*old(q)).drop_first(),
        r matches Some(v) ==> queued(*old(q)).len() > 0 && v@ == queued(*old(q))[0],
{
    q.pop()
}

} // verus!
