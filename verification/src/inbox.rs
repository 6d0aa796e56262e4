//! Mailboxes: the message queue, the save queue of selective receive, and the
//! queue of exit signals, one set per process.

use std::collections::VecDeque;
use crossbeam::queue::SegQueue;
use dashmap::DashMap;
use vstd::prelude::*;
use crate::envelope::Envelope;
use crate::kernel::ExitReason;
use crate::pid::{myself, Binding, Pid};
use crate::queue::{
    exit_queue_is_empty, exit_queue_new, exit_queue_pop, exit_queue_push, message_queue_new,
    message_queue_pop, message_queue_push, queued_exits, queued_messages,
};
use crate::table::{
    inbox_entries, inbox_table_contains, inbox_table_insert, inbox_table_new, inbox_table_remove,
};

verus! {

/// An exit signal: the process it comes from and why that process terminated.
#[derive(Clone, Copy, Debug, PartialEq, Eq, Structural)]
pub struct Exit(pub Pid, pub ExitReason);

/// The messages a selective receive has set aside, most recent first.
pub type SaveQueue = VecDeque<Envelope>;

/// What a mailbox holds.
pub struct InboxView {
    /// The message queue, oldest first.
    pub messages: Seq<Envelope>,
    /// The save queue, front first.  Its back is delivered before anything
    /// in `messages`.
    pub saved: Seq<Envelope>,
    /// The pending exit signals, oldest first.
    pub exits: Seq<Exit>,
}

impl InboxView {
    /// A mailbox with nothing in it.
    pub open spec fn empty() -> InboxView {
        InboxView { messages: Seq::empty(), saved: Seq::empty(), exits: Seq::empty() }
    }

    /// The messages in the order in which plain receives hand them out: the
    /// save queue from its back, then the message queue from its head.
    pub open spec fn order(self) -> Seq<Envelope> {
        self.saved.reverse() + self.messages
    }

    /// The mailbox after `envelope` was sent to it.
    pub open spec fn enqueue(self, envelope: Envelope) -> InboxView {
        InboxView { messages: self.messages.push(envelope), ..self }
    }

    /// The mailbox after `exit` was signalled to it.
    pub open spec fn signal(self, exit: Exit) -> InboxView {
        InboxView { exits: self.exits.push(exit), ..self }
    }

    /// The mailbox after the set-aside messages `save` were given back.
    pub open spec fn restore(self, save: Seq<Envelope>) -> InboxView {
        InboxView { saved: self.saved + save, ..self }
    }

    /// Whether a pending exit signal keeps messages from being delivered.
    pub open spec fn preempted(self) -> bool {
        self.exits.len() > 0
    }

    /// Whether a receive would hand out a message now.
    pub open spec fn deliverable(self) -> bool {
        !self.preempted() && self.order().len() > 0
    }

    /// The mailbox after one message was delivered from it.
    pub open spec fn deliver(self) -> InboxView {
        if self.saved.len() > 0 {
            InboxView { saved: self.saved.drop_last(), ..self }
        } else {
            InboxView { messages: self.messages.skip(1), ..self }
        }
    }

    /// The mailbox after `n` messages were delivered from it, one after the
    /// other.
    pub open spec fn advance(self, n: nat) -> InboxView {
        if n <= self.saved.len() {
            InboxView { saved: self.saved.take(self.saved.len() - n), ..self }
        } else {
            InboxView {
                saved: Seq::empty(),
                messages: self.messages.skip(n - self.saved.len()),
                ..self
            }
        }
    }

    /// The mailbox after each envelope of `envelopes` was sent to it, in
    /// that order.
    pub open spec fn enqueue_all(self, envelopes: Seq<Envelope>) -> InboxView {
        InboxView { messages: self.messages + envelopes, ..self }
    }

    /// The mailbox after its oldest exit signal was taken.
    pub open spec fn acknowledge(self) -> InboxView {
        InboxView { exits: self.exits.skip(1), ..self }
    }
}

/// Sending puts a message behind everything that is still to be delivered.
pub proof fn lemma_enqueue_order(inbox: InboxView, envelope: Envelope)
    ensures
        inbox.enqueue(envelope).order() == inbox.order().push(envelope),
{
}

/// A delivery hands out the first message of the order of delivery and
/// leaves the rest in order.
pub proof fn lemma_deliver_order(inbox: InboxView)
    requires
        inbox.order().len() > 0,
    ensures
        inbox.deliver().order() == inbox.order().skip(1),
        inbox.deliver() == inbox.advance(1),
{
    assert(inbox.deliver().saved =~= inbox.advance(1).saved);
}

/// Delivering `n` messages hands out the first `n` of the order of delivery
/// and leaves the rest in order; one more delivery is one more step.
pub proof fn lemma_advance_order(inbox: InboxView, n: nat)
    requires
        n <= inbox.order().len(),
    ensures
        inbox.advance(n).order() == inbox.order().skip(n as int),
        inbox.advance(0) == inbox,
        n < inbox.order().len() ==> inbox.advance(n).deliver() == inbox.advance(n + 1),
{
    assert(inbox.saved.take(inbox.saved.len() as int) =~= inbox.saved);
    if n < inbox.order().len() {
        let now = inbox.advance(n);
        let next = inbox.advance(n + 1);
        assert(now.deliver().saved =~= next.saved);
        assert(now.deliver().messages =~= next.messages);
    }
}

/// Giving back set-aside messages puts them in front of the order of
/// delivery, the one set aside last (the front of `save`) going out last.
pub proof fn lemma_restore_order(inbox: InboxView, save: Seq<Envelope>)
    ensures
        inbox.restore(save).order() == save.reverse() + inbox.order(),
{
}

/// Messages are delivered in the order in which they were sent: of two
/// messages sent to one mailbox, with any others sent in between, the
/// first stands before the second in the order of delivery, behind what
/// was there before.
pub proof fn lemma_send_order(
    inbox: InboxView,
    first: Envelope,
    between: Seq<Envelope>,
    second: Envelope,
)
    ensures
        ({
            let sent = inbox.enqueue(first).enqueue_all(between).enqueue(second);
            let n = inbox.order().len() as int;
            &&& sent.order().len() == n + between.len() + 2
            &&& sent.order().take(n) == inbox.order()
            &&& sent.order()[n] == first
            &&& sent.order()[n + between.len() + 1] == second
        }),
{
}

/// The outcome of one attempt to receive.
pub enum Received {
    /// A message was delivered.
    Message(Envelope),
    /// An exit signal is pending: nothing is delivered until the process's
    /// supervisor has dealt with it.
    Preempted,
    /// There is nothing to deliver; the process waits to be woken.
    Empty,
}

/// The mailbox of one process.
pub struct Inbox {
    pub(crate) message_queue: SegQueue<Envelope>,
    pub(crate) save_queue: SaveQueue,
    pub(crate) exit_queue: SegQueue<Exit>,
}

impl Inbox {
    /// What the mailbox holds.
    pub open(crate) spec fn view(&self) -> InboxView {
        InboxView {
            messages: queued_messages(self.message_queue),
            saved: self.save_queue@,
            exits: queued_exits(self.exit_queue),
        }
    }

    /// A mailbox with nothing in it.
    pub fn new() -> (inbox: Inbox)
        ensures
            inbox@ == InboxView::empty(),
    {
        let message_queue = message_queue_new();
        let save_queue = SaveQueue::new();
        let exit_queue = exit_queue_new();
        Inbox { message_queue, save_queue, exit_queue }
    }

    /// Puts `envelope` at the tail of the message queue.
    pub fn push(&mut self, envelope: Envelope)
        ensures
            final(self)@ == old(self)@.enqueue(envelope),
    {
        message_queue_push(&mut self.message_queue, envelope);
    }

    /// Puts `exit` at the tail of the exit queue.
    pub fn push_exit(&mut self, exit: Exit)
        ensures
            final(self)@ == old(self)@.signal(exit),
    {
        exit_queue_push(&mut self.exit_queue, exit);
    }

    /// One attempt to receive.  A pending exit signal comes before any
    /// message; otherwise the back of the save queue is delivered, or else
    /// the head of the message queue.
    pub fn receive(&mut self) -> (received: Received)
        ensures
            old(self)@.preempted() ==> received is Preempted && final(self)@ == old(self)@,
            !old(self)@.preempted() && old(self)@.order().len() == 0 ==> received is Empty
                && final(self)@ == old(self)@,
            old(self)@.deliverable() ==> received == Received::Message(old(self)@.order()[0])
                && final(self)@ == old(self)@.deliver(),
    {
        if !exit_queue_is_empty(&self.exit_queue) {
            Received::Preempted
        } else {
            match self.save_queue.pop_back() {
                Some(envelope) => {
                    Received::Message(envelope)
                },
                None => {
                    match message_queue_pop(&mut self.message_queue) {
                        Some(envelope) => Received::Message(envelope),
                        None => Received::Empty,
                    }
                },
            }
        }
    }

    /// Gives back what a selective receive had set aside: `save` goes behind
    /// the save queue, so that it is delivered before what is already there
    /// and before the message queue.
    pub fn restore(&mut self, save: &mut SaveQueue)
        ensures
            final(self)@ == old(self)@.restore(old(save)@),
            final(save)@ == Seq::<Envelope>::empty(),
    {
        self.save_queue.append(save);
    }

    /// Takes the oldest pending exit signal, if there is one.
    pub fn receive_exit(&mut self) -> (exit: Option<Exit>)
        ensures
            old(self)@.exits.len() == 0 ==> exit is None && final(self)@ == old(self)@,
            old(self)@.exits.len() > 0 ==> exit == Some(old(self)@.exits[0])
                && final(self)@ == old(self)@.acknowledge(),
    {
        exit_queue_pop(&mut self.exit_queue)
    }
}

/// What a table of mailboxes holds after `envelope` was sent to `to`: the
/// envelope is at the tail of that process's message queue if the process has
/// a mailbox, and is dropped if not.
pub open spec fn posted(boxes: Map<Pid, InboxView>, to: Pid, envelope: Envelope) -> Map<
    Pid,
    InboxView,
> {
    if boxes.contains_key(to) {
        boxes.insert(to, boxes[to].enqueue(envelope))
    } else {
        boxes
    }
}

/// What a table of mailboxes holds after `exit` was signalled to `to`: the
/// signal is at the tail of that process's exit queue if the process has a
/// mailbox, and is dropped if not.
pub open spec fn signalled(boxes: Map<Pid, InboxView>, to: Pid, exit: Exit) -> Map<Pid, InboxView> {
    if boxes.contains_key(to) {
        boxes.insert(to, boxes[to].signal(exit))
    } else {
        boxes
    }
}

/// The table of mailboxes, one for each live process.
pub struct Inboxes {
    pub(crate) table: DashMap<u32, Inbox>,
}

impl Inboxes {
    /// What each process's mailbox holds.
    pub open(crate) spec fn view(&self) -> Map<Pid, InboxView> {
        Map::new(
            |pid: Pid| inbox_entries(self.table).contains_key(pid.0),
            |pid: Pid| inbox_entries(self.table)[pid.0]@,
        )
    }

    /// A table with no mailbox in it.
    pub fn new() -> (inboxes: Inboxes)
        ensures
            inboxes@ == Map::<Pid, InboxView>::empty(),
    {
        Inboxes { table: inbox_table_new() }
    }

    /// Whether `pid` has a mailbox.
    pub fn contains(&self, pid: &Pid) -> (found: bool)
        ensures
            found == self@.contains_key(*pid),
    {
        inbox_table_contains(&self.table, pid.number())
    }

    /// Takes the mailbox of `pid` out of the table, if it has one.
    pub(crate) fn take(&mut self, pid: Pid) -> (inbox: Option<Inbox>)
        ensures
            final(self)@ == old(self)@.remove(pid),
            old(self)@.contains_key(pid) ==> inbox is Some && inbox->0@ == old(self)@[pid],
            !old(self)@.contains_key(pid) ==> inbox is None,
    {
        inbox_table_remove(&mut self.table, pid.number())
    }

    /// Puts `inbox` into the table as the mailbox of `pid`, in place of any
    /// it had.
    pub(crate) fn put(&mut self, pid: Pid, inbox: Inbox)
        ensures
            final(self)@ == old(self)@.insert(pid, inbox@),
    {
        inbox_table_insert(&mut self.table, pid.number(), inbox);
    }
}

/// Gives `pid` an empty mailbox, in place of any it had.
pub fn create(inboxes: &mut Inboxes, pid: Pid)
    ensures
        final(inboxes)@ == old(inboxes)@.insert(pid, InboxView::empty()),
{
    inboxes.put(pid, Inbox::new());
}

/// Removes the mailbox of `pid` with all it holds.  Without a mailbox there
/// is nothing to do.
pub fn drop(inboxes: &mut Inboxes, pid: &Pid)
    ensures
        final(inboxes)@ == old(inboxes)@.remove(*pid),
{
    inboxes.take(*pid);
}

/// Sends `message` to `to`: wrapped in an envelope, it goes to the tail of
/// that process's message queue.  Returns whether `to` had a mailbox; if not,
/// the message is dropped.  A true result obliges the caller to wake `to`.
pub fn send<T: Send + 'static>(inboxes: &mut Inboxes, to: Pid, message: T) -> (delivered: bool)
    ensures
        delivered == old(inboxes)@.contains_key(to),
        !delivered ==> final(inboxes)@ == old(inboxes)@,
        delivered ==> ({
            let sent = final(inboxes)@[to].messages.last();
            &&& sent.spec_size() as nat == vstd::layout::size_of::<T>()
            &&& final(inboxes)@ == posted(old(inboxes)@, to, sent)
        }),
{
    send_raw(inboxes, to, Envelope::new(message))
}

/// Sends an envelope that is already made up to `to`: it goes to the tail of
/// that process's message queue.  Returns whether `to` had a mailbox; if not,
/// the envelope is dropped.  A true result obliges the caller to wake `to`.
pub fn send_raw(inboxes: &mut Inboxes, to: Pid, envelope: Envelope) -> (delivered: bool)
    ensures
        delivered == old(inboxes)@.contains_key(to),
        final(inboxes)@ == posted(old(inboxes)@, to, envelope),
{
    match inboxes.take(to) {
        Some(inbox) => {
            let mut inbox = inbox;
            inbox.push(envelope);
            inboxes.put(to, inbox);
            true
        },
        None => {
            false
        },
    }
}

/// Signals `exit` to `to`: it goes to the tail of that process's exit queue.
/// Returns whether `to` had a mailbox; if not, the signal is dropped.  A true
/// result obliges the caller to wake `to`.
pub fn send_exit(inboxes: &mut Inboxes, to: &Pid, exit: Exit) -> (delivered: bool)
    ensures
        delivered == old(inboxes)@.contains_key(*to),
        final(inboxes)@ == signalled(old(inboxes)@, *to, exit),
{
    match inboxes.take(*to) {
        Some(inbox) => {
            let mut inbox = inbox;
            inbox.push_exit(exit);
            inboxes.put(*to, inbox);
            true
        },
        None => {
            false
        },
    }
}

/// One attempt by the current process to receive.  While an exit signal is
/// pending nothing is delivered, so that the supervisor acts first.
/// Otherwise the back of the save queue is delivered, or else the head of the
/// message queue; with both empty the process has to wait to be woken.
pub fn __receive(inboxes: &mut Inboxes, me: &Binding) -> (received: Received)
    requires
        me.pid() is Some,
        old(inboxes)@.contains_key(me.pid()->0),
    ensures
        ({
            let pid = me.pid()->0;
            let inbox = old(inboxes)@[pid];
            &&& inbox.preempted() ==> received is Preempted && final(inboxes)@ == old(inboxes)@
            &&& !inbox.preempted() && inbox.order().len() == 0 ==> received is Empty
                && final(inboxes)@ == old(inboxes)@
            &&& inbox.deliverable() ==> received == Received::Message(inbox.order()[0])
                && final(inboxes)@ == old(inboxes)@.insert(pid, inbox.deliver())
        }),
{
    let pid = myself(me);
    match inboxes.take(pid) {
        Some(inbox) => {
            let mut inbox = inbox;
            let received = inbox.receive();
            inboxes.put(pid, inbox);
            received
        },
        None => vstd::pervasive::unreached(),
    }
}

/// Gives back to the current process what a selective receive had set aside.
/// The messages of `save` are delivered, last first, before anything that is
/// in the mailbox now.
pub fn __selective_restore(inboxes: &mut Inboxes, me: &Binding, save: SaveQueue)
    requires
        me.pid() is Some,
        old(inboxes)@.contains_key(me.pid()->0),
    ensures
        final(inboxes)@ == old(inboxes)@.insert(
            me.pid()->0,
            old(inboxes)@[me.pid()->0].restore(save@),
        ),
{
    let pid = myself(me);
    let mut save = save;
    match inboxes.take(pid) {
        Some(inbox) => {
            let mut inbox = inbox;
            inbox.restore(&mut save);
            inboxes.put(pid, inbox);
        },
        None => vstd::pervasive::unreached(),
    }
}

/// Takes the oldest exit signal that is pending for `pid`, if there is one.
pub fn receive_exit(inboxes: &mut Inboxes, pid: Pid) -> (exit: Option<Exit>)
    requires
        old(inboxes)@.contains_key(pid),
    ensures
        ({
            let inbox = old(inboxes)@[pid];
            &&& inbox.exits.len() == 0 ==> exit is None && final(inboxes)@ == old(inboxes)@
            &&& inbox.exits.len() > 0 ==> exit == Some(inbox.exits[0])
                && final(inboxes)@ == old(inboxes)@.insert(pid, inbox.acknowledge())
        }),
{
    match inboxes.take(pid) {
        Some(inbox) => {
            let mut inbox = inbox;
            let exit = inbox.receive_exit();
            inboxes.put(pid, inbox);
            exit
        },
        None => vstd::pervasive::unreached(),
    }
}

} // verus!
