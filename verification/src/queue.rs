//! The lock-free queues of `crossbeam` that a mailbox is made of, with the
//! contracts that are assumed of them.
//!
//! A queue is only ever reached through `&mut`, so no other thread can push
//! or pop between two calls; what the contracts below say of the contents
//! rests on that.

use crossbeam::queue::SegQueue;
use vstd::prelude::*;
use crate::envelope::Envelope;
use crate::inbox::Exit;

verus! {

/// `crossbeam::queue::SegQueue`, an unbounded first-in first-out queue.
#[verifier::external_type_specification]
#[verifier::external_body]
#[verifier::reject_recursive_types(T)]
pub struct ExSegQueue<T>(SegQueue<T>);

/// The envelopes in a message queue, head first.
pub uninterp spec fn queued_messages(queue: SegQueue<Envelope>) -> Seq<Envelope>;

/// The signals in an exit queue, head first.
pub uninterp spec fn queued_exits(queue: SegQueue<Exit>) -> Seq<Exit>;

/// Calls `SegQueue::new`.  Claims that a new queue is empty.
#[verifier::external_body]
pub(crate) fn message_queue_new() -> (queue: SegQueue<Envelope>)
    ensures
        queued_messages(queue) == Seq::<Envelope>::empty(),
{
    SegQueue::new()
}

/// Calls `SegQueue::push`.  Claims that the envelope goes to the tail and
/// that nothing else moves.
#[verifier::external_body]
pub(crate) fn message_queue_push(queue: &mut SegQueue<Envelope>, envelope: Envelope)
    ensures
        queued_messages(*final(queue)) == queued_messages(*old(queue)).push(envelope),
{
    queue.push(envelope)
}

/// Calls `SegQueue::pop`.  Claims that an empty queue gives `None` and
/// stays empty, and that any other gives its head and keeps the rest in
/// order.
#[verifier::external_body]
pub(crate) fn message_queue_pop(queue: &mut SegQueue<Envelope>) -> (head: Option<Envelope>)
    ensures
        queued_messages(*old(queue)).len() == 0 ==> head is None && queued_messages(*final(queue))
            == queued_messages(*old(queue)),
        queued_messages(*old(queue)).len() > 0 ==> head == Some(queued_messages(*old(queue))[0])
            && queued_messages(*final(queue)) == queued_messages(*old(queue)).skip(1),
{
    queue.pop()
}

/// Calls `SegQueue::new`.  Claims that a new queue is empty.
#[verifier::external_body]
pub(crate) fn exit_queue_new() -> (queue: SegQueue<Exit>)
    ensures
        queued_exits(queue) == Seq::<Exit>::empty(),
{
    SegQueue::new()
}

/// Calls `SegQueue::push`.  Claims that the signal goes to the tail and that
/// nothing else moves.
#[verifier::external_body]
pub(crate) fn exit_queue_push(queue: &mut SegQueue<Exit>, exit: Exit)
    ensures
        queued_exits(*final(queue)) == queued_exits(*old(queue)).push(exit),
{
    queue.push(exit)
}

/// Calls `SegQueue::pop`.  Claims that an empty queue gives `None` and
/// stays empty, and that any other gives its head and keeps the rest in
/// order.
#[verifier::external_body]
pub(crate) fn exit_queue_pop(queue: &mut SegQueue<Exit>) -> (head: Option<Exit>)
    ensures
        queued_exits(*old(queue)).len() == 0 ==> head is None && queued_exits(*final(queue))
            == queued_exits(*old(queue)),
        queued_exits(*old(queue)).len() > 0 ==> head == Some(queued_exits(*old(queue))[0])
            && queued_exits(*final(queue)) == queued_exits(*old(queue)).skip(1),
{
    queue.pop()
}

/// Calls `SegQueue::is_empty`.  Claims that the result is true exactly when
/// the queue holds no signal.
#[verifier::external_body]
pub(crate) fn exit_queue_is_empty(queue: &SegQueue<Exit>) -> (empty: bool)
    ensures
        empty == (queued_exits(*queue).len() == 0),
{
    queue.is_empty()
}

} // verus!
