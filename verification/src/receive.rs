//! Selective receive: taking the first message that one of a list of clauses
//! accepts, and keeping every message that none accepts for later receives.

use std::any::TypeId;
use vstd::prelude::*;
use crate::envelope::{type_id_of, Envelope};
use crate::inbox::{
    lemma_advance_order, lemma_restore_order, Inbox, InboxView, Inboxes, Received, SaveQueue,
};
use crate::pid::{myself, Binding};

verus! {

/// One clause of a selective receive: it accepts the messages of one type,
/// or, as a wildcard, every message.
pub struct Pattern {
    type_pattern: Option<TypeId>,
}

impl Pattern {
    /// The type whose messages the clause accepts; `None` for a wildcard.
    pub closed spec fn type_pattern(&self) -> Option<TypeId> {
        self.type_pattern
    }

    /// Whether the clause accepts `envelope`.
    pub open spec fn accepts(&self, envelope: Envelope) -> bool {
        match self.type_pattern() {
            Some(id) => envelope.type_id() == id,
            None => true,
        }
    }

    /// A clause for the messages of the type that `id` identifies.
    pub fn typed(id: TypeId) -> (pattern: Pattern)
        ensures
            pattern.type_pattern() == Some(id),
    {
        Pattern { type_pattern: Some(id) }
    }

    /// A clause for the messages of type `T`: the identity of `T` is looked
    /// up and handed to [`Pattern::typed`].
    pub fn of<T: 'static>() -> (pattern: Pattern)
        ensures
            pattern.type_pattern() is Some,
    {
        Pattern::typed(type_id_of::<T>())
    }

    /// A wildcard clause, which accepts every message.
    pub fn any() -> (pattern: Pattern)
        ensures
            pattern.type_pattern() is None,
    {
        Pattern { type_pattern: None }
    }

    /// Whether the clause accepts `envelope`.
    pub fn matches(&self, envelope: &Envelope) -> (accepted: bool)
        ensures
            accepted == self.accepts(*envelope),
    {
        match self.type_pattern {
            Some(id) => envelope.has_type(id),
            None => true,
        }
    }
}

/// Whether clause `clause` is the first of `patterns` that accepts
/// `envelope`.
pub open spec fn is_first_clause(patterns: Seq<Pattern>, envelope: Envelope, clause: int) -> bool {
    &&& 0 <= clause < patterns.len()
    &&& patterns[clause].accepts(envelope)
    &&& forall|earlier: int| 0 <= earlier < clause ==> !(#[trigger] patterns[earlier]).accepts(envelope)
}

/// Whether some clause of `patterns` accepts `envelope`.
pub open spec fn claimed(patterns: Seq<Pattern>, envelope: Envelope) -> bool {
    exists|clause: int| 0 <= clause < patterns.len() && (#[trigger] patterns[clause]).accepts(envelope)
}

/// Whether the message at `index` is the first of `order` that some clause of
/// `patterns` accepts.
pub open spec fn is_first_match(patterns: Seq<Pattern>, order: Seq<Envelope>, index: int) -> bool {
    &&& 0 <= index < order.len()
    &&& claimed(patterns, order[index])
    &&& forall|earlier: int| 0 <= earlier < index ==> !claimed(patterns, #[trigger] order[earlier])
}

/// Whether no clause of `patterns` accepts any message of `order`.
pub open spec fn unmatched(patterns: Seq<Pattern>, order: Seq<Envelope>) -> bool {
    forall|index: int| 0 <= index < order.len() ==> !claimed(patterns, #[trigger] order[index])
}

/// Finds the first clause that accepts `envelope`, trying the clauses in the
/// order in which they are written.
pub fn clause_for(patterns: &Vec<Pattern>, envelope: &Envelope) -> (clause: Option<usize>)
    ensures
        match clause {
            Some(clause) => is_first_clause(patterns@, *envelope, clause as int),
            None => !claimed(patterns@, *envelope),
        },
{
    let mut i: usize = 0;
    while i < patterns.len()
        invariant
            i <= patterns.len(),
            forall|earlier: int| 0 <= earlier < i ==> !(#[trigger] patterns@[earlier]).accepts(*envelope),
        decreases patterns.len() - i,
    {
        if patterns[i].matches(envelope) {
            return Some(i);
        }
        i = i + 1;
    }
    None
}

/// The outcome of one run of a selective receive.
pub enum Selected {
    /// A message was accepted: by which clause, and the message.
    Matched { clause: usize, envelope: Envelope },
    /// An exit signal is pending: nothing is delivered until the process's
    /// supervisor has dealt with it.
    Preempted,
    /// No message in the mailbox is accepted by any clause.  All of them are
    /// set aside; the process waits to be woken.
    Empty,
}

/// What a selective receive with the clauses `patterns` does to a mailbox
/// `inbox` while `held` is already set aside: the outcome `selected`, the
/// mailbox `after` and what is set aside then, `kept`.
///
/// Messages are tried in their order of delivery.  Those that no clause
/// accepts are set aside, the latest in front.  At the first that a clause
/// accepts, everything set aside is given back to the mailbox.
pub open spec fn selection(
    patterns: Seq<Pattern>,
    inbox: InboxView,
    held: Seq<Envelope>,
    selected: Selected,
    after: InboxView,
    kept: Seq<Envelope>,
) -> bool {
    let order = inbox.order();
    match selected {
        Selected::Preempted => inbox.preempted() && after == inbox && kept == held,
        Selected::Empty => {
            &&& !inbox.preempted()
            &&& unmatched(patterns, order)
            &&& after == inbox.advance(order.len())
            &&& kept == order.reverse() + held
        },
        Selected::Matched { clause, envelope } => {
            &&& !inbox.preempted()
            &&& is_first_clause(patterns, envelope, clause as int)
            &&& kept == Seq::<Envelope>::empty()
            &&& exists|index: int|
                {
                    &&& #[trigger] is_first_match(patterns, order, index)
                    &&& envelope == order[index]
                    &&& after == inbox.advance((index + 1) as nat).restore(
                        order.take(index).reverse() + held,
                    )
                }
        },
    }
}

/// Setting one more message aside puts it in front of what is set aside.
proof fn lemma_set_aside(order: Seq<Envelope>, tried: int, held: Seq<Envelope>)
    requires
        0 <= tried < order.len(),
    ensures
        seq![order[tried]] + (order.take(tried).reverse() + held) == order.take(tried + 1).reverse()
            + held,
{
}

impl Inbox {
    /// One run of a selective receive on this mailbox; see [`select`].
    pub fn select(&mut self, patterns: &Vec<Pattern>, save: &mut SaveQueue) -> (selected: Selected)
        ensures
            selection(patterns@, old(self)@, old(save)@, selected, final(self)@, final(save)@),
    {
        let ghost inbox = old(self)@;
        let ghost order = inbox.order();
        let ghost held = old(save)@;
        let ghost mut tried: nat = 0;
        proof {
            lemma_advance_order(inbox, 0);
        }
        loop
            invariant
                inbox == old(self)@,
                order == inbox.order(),
                held == old(save)@,
                tried <= order.len(),
                tried > 0 ==> !inbox.preempted(),
                self@ == inbox.advance(tried),
                save@ == order.take(tried as int).reverse() + held,
                forall|earlier: int|
                    0 <= earlier < tried ==> !claimed(patterns@, #[trigger] order[earlier]),
            decreases order.len() - tried,
        {
            proof {
                lemma_advance_order(inbox, tried);
            }
            match self.receive() {
                Received::Preempted => {
                    return Selected::Preempted;
                },
                Received::Empty => {
                    proof {
                        assert(order.take(tried as int) =~= order);
                    }
                    return Selected::Empty;
                },
                Received::Message(envelope) => {
                    match clause_for(patterns, &envelope) {
                        Some(clause) => {
                            self.restore(save);
                            proof {
                                assert(is_first_match(patterns@, order, tried as int));
                            }
                            return Selected::Matched { clause, envelope };
                        },
                        None => {
                            save.push_front(envelope);
                            proof {
                                lemma_set_aside(order, tried as int, held);
                                tried = tried + 1;
                            }
                        },
                    }
                },
            }
        }
    }
}

/// One run of a selective receive for the current process.  `save` holds what
/// earlier runs of the same receive have set aside, and is empty when the
/// receive begins.  After [`Selected::Matched`] the receive is over and
/// `save` is empty again.  After [`Selected::Preempted`] and
/// [`Selected::Empty`] the process waits, keeps `save`, and runs the receive
/// again when woken.
pub fn select(
    inboxes: &mut Inboxes,
    me: &Binding,
    patterns: &Vec<Pattern>,
    save: &mut SaveQueue,
) -> (selected: Selected)
    requires
        me.pid() is Some,
        old(inboxes)@.contains_key(me.pid()->0),
    ensures
        final(inboxes)@.contains_key(me.pid()->0),
        selection(
            patterns@,
            old(inboxes)@[me.pid()->0],
            old(save)@,
            selected,
            final(inboxes)@[me.pid()->0],
            final(save)@,
        ),
        final(inboxes)@ == old(inboxes)@.insert(me.pid()->0, final(inboxes)@[me.pid()->0]),
{
    let pid = myself(me);
    match inboxes.take(pid) {
        Some(inbox) => {
            let mut inbox = inbox;
            let selected = inbox.select(patterns, save);
            inboxes.put(pid, inbox);
            selected
        },
        None => vstd::pervasive::unreached(),
    }
}

/// The closing clause of a selective receive: how long to wait for a message
/// that some clause accepts.
#[derive(Clone, Copy, Debug)]
pub struct After {
    duration: u128,
}

impl After {
    /// The time to wait, in nanoseconds, counted from the start of the
    /// receive.
    pub closed spec fn duration(&self) -> u128 {
        self.duration
    }

    /// Whether the wait is over once `elapsed` nanoseconds have passed since
    /// the start of the receive.
    pub open spec fn expired(&self, elapsed: u128) -> bool {
        elapsed >= self.duration()
    }

    /// A closing clause that waits `duration` nanoseconds.
    pub fn new(duration: u128) -> (after: After)
        ensures
            after.duration() == duration,
    {
        After { duration }
    }

    /// The time that is left to wait once `elapsed` nanoseconds have passed:
    /// the rest of the duration, and zero from the deadline on.
    pub fn remaining(&self, elapsed: u128) -> (left: u128)
        ensures
            left == if self.expired(elapsed) {
                0
            } else {
                self.duration() - elapsed
            },
    {
        if elapsed >= self.duration {
            0
        } else {
            self.duration - elapsed
        }
    }
}

/// A selective receive as written: its clauses in order, and the closing
/// timeout clause if it has one.
pub struct Receive {
    patterns: Vec<Pattern>,
    after: Option<After>,
}

/// The outcome of one run of a selective receive with a timeout.
pub enum Progress {
    /// A message was accepted: by which clause, and the message.
    Matched { clause: usize, envelope: Envelope },
    /// The wait is over and no message was accepted.  Everything set aside
    /// is back in the mailbox.
    TimedOut,
    /// An exit signal is pending and the wait is not over.
    Preempted,
    /// No message in the mailbox is accepted by any clause, and the wait is
    /// not over.
    Empty,
}

impl Receive {
    /// The clauses, in the order in which they are tried.
    pub closed spec fn patterns(&self) -> Seq<Pattern> {
        self.patterns@
    }

    /// The closing timeout clause, if there is one.
    pub closed spec fn after(&self) -> Option<After> {
        self.after
    }

    /// Whether the receive has a timeout that is over once `elapsed`
    /// nanoseconds have passed since its start.
    pub open spec fn expired(&self, elapsed: u128) -> bool {
        self.after() is Some && (self.after()->0).expired(elapsed)
    }

    /// A selective receive with the clauses `patterns`, closed by `after`.
    pub fn new(patterns: Vec<Pattern>, after: Option<After>) -> (receive: Receive)
        ensures
            receive.patterns() == patterns@,
            receive.after() == after,
    {
        Receive { patterns, after }
    }

    /// The time that is left to wait once `elapsed` nanoseconds have passed
    /// since the start of the receive; `None` where the receive has no
    /// timeout and waits as long as it takes.
    pub fn remaining(&self, elapsed: u128) -> (left: Option<u128>)
        ensures
            self.after() is None ==> left is None,
            self.after() is Some ==> left == Some(
                if self.expired(elapsed) {
                    0u128
                } else {
                    ((self.after()->0).duration() - elapsed) as u128
                },
            ),
    {
        match &self.after {
            Some(after) => Some(after.remaining(elapsed)),
            None => None,
        }
    }

    /// What one run of this receive does to a mailbox `inbox` while `held` is
    /// already set aside and `elapsed` nanoseconds have passed: the outcome
    /// `progress`, the mailbox `after` and what is set aside then, `kept`.
    ///
    /// The mailbox is searched first, as [`selection`] says.  Only where
    /// nothing is accepted does the timeout count: once it is over, all that
    /// is set aside is given back and the receive ends.
    pub open spec fn progression(
        &self,
        inbox: InboxView,
        held: Seq<Envelope>,
        elapsed: u128,
        progress: Progress,
        after: InboxView,
        kept: Seq<Envelope>,
    ) -> bool {
        let order = inbox.order();
        match progress {
            Progress::Matched { clause, envelope } => selection(
                self.patterns(),
                inbox,
                held,
                Selected::Matched { clause, envelope },
                after,
                kept,
            ),
            Progress::Preempted => !self.expired(elapsed) && selection(
                self.patterns(),
                inbox,
                held,
                Selected::Preempted,
                after,
                kept,
            ),
            Progress::Empty => !self.expired(elapsed) && selection(
                self.patterns(),
                inbox,
                held,
                Selected::Empty,
                after,
                kept,
            ),
            Progress::TimedOut => {
                &&& self.expired(elapsed)
                &&& kept == Seq::<Envelope>::empty()
                &&& if inbox.preempted() {
                    after == inbox.restore(held)
                } else {
                    &&& unmatched(self.patterns(), order)
                    &&& after == inbox.advance(order.len()).restore(order.reverse() + held)
                }
            },
        }
    }
}

/// One run of the selective receive `clauses` for the current process, when
/// `elapsed` nanoseconds have passed since the receive began.  `save` holds
/// what earlier runs of the same receive have set aside, and is empty when
/// the receive begins.  After [`Progress::Matched`] and
/// [`Progress::TimedOut`] the receive is over and `save` is empty again.
/// After [`Progress::Preempted`] and [`Progress::Empty`] the process waits,
/// for no longer than [`Receive::remaining`] says, keeps `save`, and runs the
/// receive again.
pub fn receive(
    inboxes: &mut Inboxes,
    me: &Binding,
    clauses: &Receive,
    save: &mut SaveQueue,
    elapsed: u128,
) -> (progress: Progress)
    requires
        me.pid() is Some,
        old(inboxes)@.contains_key(me.pid()->0),
    ensures
        final(inboxes)@.contains_key(me.pid()->0),
        clauses.progression(
            old(inboxes)@[me.pid()->0],
            old(save)@,
            elapsed,
            progress,
            final(inboxes)@[me.pid()->0],
            final(save)@,
        ),
        final(inboxes)@ == old(inboxes)@.insert(me.pid()->0, final(inboxes)@[me.pid()->0]),
{
    let pid = myself(me);
    match inboxes.take(pid) {
        Some(inbox) => {
            let mut inbox = inbox;
            let selected = inbox.select(&clauses.patterns, save);
            let expired = match &clauses.after {
                Some(after) => after.remaining(elapsed) == 0,
                None => false,
            };
            let progress = match selected {
                Selected::Matched { clause, envelope } => Progress::Matched { clause, envelope },
                Selected::Preempted => {
                    if expired {
                        inbox.restore(save);
                        Progress::TimedOut
                    } else {
                        Progress::Preempted
                    }
                },
                Selected::Empty => {
                    if expired {
                        inbox.restore(save);
                        Progress::TimedOut
                    } else {
                        Progress::Empty
                    }
                },
            };
            inboxes.put(pid, inbox);
            progress
        },
        None => vstd::pervasive::unreached(),
    }
}

/// One clause of a selective receive as it is written down: an ordinary
/// clause, or the closing timeout clause.  What a clause of either kind
/// consists of is the writer's business.
pub enum Clause<P, A> {
    /// An ordinary clause.
    Pattern(P),
    /// The timeout clause.
    After(A),
}

/// A timeout clause stands before the end of a selective receive: the clause
/// at `index` is one and is followed by another clause.
#[derive(Clone, Copy, Debug, PartialEq, Eq, Structural)]
pub struct AfterNotLast {
    pub index: usize,
}

/// Whether the clause at `index` is a timeout clause that is not the last
/// clause.
pub open spec fn misplaced<P, A>(clauses: Seq<Clause<P, A>>, index: int) -> bool {
    0 <= index < clauses.len() - 1 && clauses[index] is After
}

/// The number of ordinary clauses in a list that has no misplaced timeout
/// clause: all of them but a closing timeout clause.
pub open spec fn ordinary_len<P, A>(clauses: Seq<Clause<P, A>>) -> int {
    if clauses.len() > 0 && clauses.last() is After {
        clauses.len() - 1
    } else {
        clauses.len() as int
    }
}

/// Sorts the clauses of a selective receive into the ordinary clauses, in the
/// order in which they are written, and the timeout clause.  A timeout
/// clause may only stand last; the first one that does not is reported.
pub fn arrange<P, A>(clauses: Vec<Clause<P, A>>) -> (arranged: Result<(Vec<P>, Option<A>), AfterNotLast>)
    ensures
        match arranged {
            Ok((patterns, after)) => {
                &&& forall|index: int| !misplaced(clauses@, index)
                &&& patterns@.len() == ordinary_len(clauses@)
                &&& forall|index: int|
                    0 <= index < patterns@.len() ==> clauses@[index] == Clause::<P, A>::Pattern(
                        #[trigger] patterns@[index],
                    )
                &&& match after {
                    Some(after) => clauses@.len() > 0 && clauses@.last() == Clause::<P, A>::After(after),
                    None => clauses@.len() == 0 || clauses@.last() is Pattern,
                }
            },
            Err(error) => {
                &&& misplaced(clauses@, error.index as int)
                &&& forall|index: int| 0 <= index < error.index ==> !misplaced(clauses@, index)
            },
        },
{
    let ghost written = clauses@;
    let mut clauses = clauses;
    let mut after: Option<A> = None;
    let mut reversed: Vec<P> = Vec::new();
    let mut misplaced_at: Option<usize> = None;
    match clauses.pop() {
        None => {
            return Ok((Vec::new(), None));
        },
        Some(Clause::After(last)) => {
            after = Some(last);
        },
        Some(Clause::Pattern(last)) => {
            reversed.push(last);
        },
    }
    let ghost end = ordinary_len(written);
    while clauses.len() > 0
        invariant
            written.len() > 0,
            end == ordinary_len(written),
            clauses@.len() < written.len(),
            clauses@ == written.take(clauses@.len() as int),
            match misplaced_at {
                Some(found) => {
                    &&& clauses@.len() <= found
                    &&& misplaced(written, found as int)
                    &&& forall|index: int| clauses@.len() <= index < found ==> !misplaced(written, index)
                },
                None => {
                    &&& forall|index: int| clauses@.len() <= index ==> !misplaced(written, index)
                    &&& reversed@.len() == end - clauses@.len()
                    &&& forall|index: int|
                        0 <= index < reversed@.len() ==> written[end - 1 - index]
                            == Clause::<P, A>::Pattern(#[trigger] reversed@[index])
                },
            },
        decreases clauses.len(),
    {
        let clause = clauses.pop();
        match clause {
            Some(Clause::After(_)) => {
                misplaced_at = Some(clauses.len());
            },
            Some(Clause::Pattern(pattern)) => {
                if misplaced_at.is_none() {
                    reversed.push(pattern);
                }
            },
            None => {},
        }
    }
    match misplaced_at {
        Some(index) => Err(AfterNotLast { index }),
        None => {
            let mut patterns: Vec<P> = Vec::new();
            let ghost turned = reversed@;
            while reversed.len() > 0
                invariant
                    reversed@ == turned.take(reversed@.len() as int),
                    patterns@.len() == turned.len() - reversed@.len(),
                    forall|index: int|
                        0 <= index < patterns@.len() ==> #[trigger] patterns@[index] == turned[turned.len()
                            - 1 - index],
                decreases reversed.len(),
            {
                let pattern = reversed.pop();
                match pattern {
                    Some(pattern) => {
                        patterns.push(pattern);
                    },
                    None => {},
                }
            }
            Ok((patterns, after))
        },
    }
}

/// A selective receive that accepts nothing gives everything back: once all
/// the messages of a mailbox are set aside and then restored, they are
/// delivered in the order they had, behind what was set aside before.
pub proof fn lemma_unmatched_round_trip(inbox: InboxView, held: Seq<Envelope>)
    ensures
        inbox.advance(inbox.order().len()).restore(inbox.order().reverse() + held).order()
            == held.reverse() + inbox.order(),
{
    let order = inbox.order();
    let after = inbox.advance(order.len());
    lemma_advance_order(inbox, order.len());
    lemma_restore_order(after, order.reverse() + held);
}

/// A selective receive takes out the message it accepts and nothing else:
/// after the message at `index` was accepted, the others are delivered in
/// the order they had, behind what was set aside before.  In particular a
/// message that stood before the accepted one is the next to be delivered.
pub proof fn lemma_match_keeps_order(inbox: InboxView, held: Seq<Envelope>, index: int)
    requires
        0 <= index < inbox.order().len(),
    ensures
        inbox.advance((index + 1) as nat).restore(inbox.order().take(index).reverse() + held).order()
            == held.reverse() + inbox.order().remove(index),
        index > 0 && held.len() == 0 ==> inbox.advance((index + 1) as nat).restore(
            inbox.order().take(index).reverse() + held,
        ).order()[0] == inbox.order()[0],
{
    let order = inbox.order();
    let after = inbox.advance((index + 1) as nat);
    let aside = order.take(index).reverse() + held;
    lemma_advance_order(inbox, (index + 1) as nat);
    lemma_restore_order(after, aside);
}

} // verus!
