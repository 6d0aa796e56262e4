//! Creating processes, supervising them while they run, and tearing them
//! down.

use vstd::prelude::*;
use crate::envelope::Envelope;
use crate::inbox::{
    create, drop, receive_exit, send_exit, send_raw, signalled, Exit, Inbox, InboxView, Inboxes,
};
use crate::kernel::{place, remove, ExitReason, Kernel, KernelView, Kernels};
use crate::pid::{id_space, myself, Binding, MonitorGen, MonitorRef, Pid, PidGen};

verus! {

/// The state of the runtime: the two identifier counters and the two tables.
pub struct Runtime {
    /// The counter that process identifiers are drawn from.
    pub pids: PidGen,
    /// The counter that monitor references are drawn from.
    pub monitors: MonitorGen,
    /// The control block of each live process.
    pub kernels: Kernels,
    /// The mailbox of each live process.
    pub inboxes: Inboxes,
}

impl Runtime {
    /// Every process that has a control block has a mailbox, and the other
    /// way round.
    pub open spec fn wf(&self) -> bool {
        forall|pid: Pid| self.kernels@.contains_key(pid) <==> self.inboxes@.contains_key(pid)
    }

    /// Whether `pid` names a live process.
    pub open spec fn alive(&self, pid: Pid) -> bool {
        self.kernels@.contains_key(pid) && self.inboxes@.contains_key(pid)
    }

    /// Whether `pid` names a live process.
    pub fn is_alive(&self, pid: &Pid) -> (alive: bool)
        ensures
            alive == self.alive(*pid),
    {
        self.kernels.contains(pid) && self.inboxes.contains(pid)
    }

    /// A runtime without processes, both counters at zero.
    pub fn new() -> (rt: Runtime)
        ensures
            rt.wf(),
            rt.pids.peek() == 0,
            rt.monitors.peek() == 0,
            rt.kernels@ == Map::<Pid, KernelView>::empty(),
            rt.inboxes@ == Map::<Pid, InboxView>::empty(),
    {
        Runtime {
            pids: PidGen::new(),
            monitors: MonitorGen::new(),
            kernels: Kernels::new(),
            inboxes: Inboxes::new(),
        }
    }
}

/// The control blocks after a process `pid` was created, linked to `link_to`
/// and monitored as `monitor` says.  A link to a peer that has no control
/// block is not made.
pub open spec fn spawned_kernels(
    kernels: Map<Pid, KernelView>,
    pid: Pid,
    link_to: Option<Pid>,
    monitor: Option<(MonitorRef, Pid)>,
) -> Map<Pid, KernelView> {
    let fresh = KernelView::fresh(pid);
    let linked = match link_to {
        Some(peer) => if kernels.contains_key(peer) {
            fresh.link(peer)
        } else {
            fresh
        },
        None => fresh,
    };
    let own = match monitor {
        Some((monitor_ref, watcher)) => linked.monitor(monitor_ref, watcher),
        None => linked,
    };
    let peers = match link_to {
        Some(peer) => if kernels.contains_key(peer) {
            kernels.insert(peer, kernels[peer].link(pid))
        } else {
            kernels
        },
        None => kernels,
    };
    peers.insert(pid, own)
}

/// The mailboxes after a process `pid` was created with a link to `link_to`.
/// The new mailbox is empty, unless the peer to link to had no control block:
/// then it holds one exit signal, from the new process itself, with the
/// reason `NoProc`.
pub open spec fn spawned_inboxes(
    inboxes: Map<Pid, InboxView>,
    kernels: Map<Pid, KernelView>,
    pid: Pid,
    link_to: Option<Pid>,
) -> Map<Pid, InboxView> {
    let inbox = match link_to {
        Some(peer) => if kernels.contains_key(peer) {
            InboxView::empty()
        } else {
            InboxView::empty().signal(Exit(pid, ExitReason::NoProc(peer)))
        },
        None => InboxView::empty(),
    };
    inboxes.insert(pid, inbox)
}

/// Creates a process: draws its identifier, builds its control block with
/// the link and the monitor asked for, and installs the block and an empty
/// mailbox.  A link is made in both directions.  Where `link_to` names no
/// process, no link is made and the new process finds an exit signal from
/// itself with the reason `NoProc(link_to)`.
pub fn spawn_int(
    rt: &mut Runtime,
    link_to: Option<Pid>,
    monitor: Option<(MonitorRef, Pid)>,
) -> (pid: Pid)
    ensures
        pid.value() == old(rt).pids.peek(),
        final(rt).pids.peek() as int == (old(rt).pids.peek() + 1) % id_space(),
        final(rt).monitors.peek() == old(rt).monitors.peek(),
        final(rt).kernels@ == spawned_kernels(old(rt).kernels@, pid, link_to, monitor),
        final(rt).inboxes@ == spawned_inboxes(old(rt).inboxes@, old(rt).kernels@, pid, link_to),
        old(rt).wf() ==> final(rt).wf(),
{
    let pid = Pid::new(&mut rt.pids);
    let mut context = Kernel::new(pid);
    let mut missing: Option<Pid> = None;
    if let Some(link_to) = link_to {
        match rt.kernels.take(link_to) {
            Some(peer) => {
                let mut peer = peer;
                peer.link(pid);
                rt.kernels.put(link_to, peer);
                context.link(link_to);
            },
            None => {
                missing = Some(link_to);
            },
        }
    }
    if let Some((monitor_ref, monitor_pid)) = monitor {
        context.monitor(monitor_ref, monitor_pid);
    }
    place(&mut rt.kernels, pid, context);
    create(&mut rt.inboxes, pid);
    if let Some(peer) = missing {
        send_exit(&mut rt.inboxes, &pid, Exit(pid, ExitReason::NoProc(peer)));
    }
    pid
}

/// What to ask for when creating a process.
#[derive(Debug)]
pub struct SpawnOpt {
    link: bool,
    monitor: bool,
}

impl SpawnOpt {
    /// Whether the new process is to be linked to its creator.
    pub closed spec fn wants_link(&self) -> bool {
        self.link
    }

    /// Whether the creator is to monitor the new process.
    pub closed spec fn wants_monitor(&self) -> bool {
        self.monitor
    }
}

impl SpawnOpt {
    /// Whether the new process is to be linked to its creator.
    pub fn link(&self) -> (link: bool)
        ensures
            link == self.wants_link(),
    {
        self.link
    }

    /// Whether the creator is to monitor the new process.
    pub fn monitor(&self) -> (monitor: bool)
        ensures
            monitor == self.wants_monitor(),
    {
        self.monitor
    }
}

/// Collects what to ask for when creating a process; what is not set is not
/// asked for.
#[derive(Clone, Copy, Debug)]
pub struct SpawnOptBuilder {
    link: Option<bool>,
    monitor: Option<bool>,
}

impl SpawnOptBuilder {
    /// What was set for the link, if anything.
    pub closed spec fn chosen_link(&self) -> Option<bool> {
        self.link
    }

    /// What was set for the monitor, if anything.
    pub closed spec fn chosen_monitor(&self) -> Option<bool> {
        self.monitor
    }

    /// Sets whether the new process is to be linked to its creator.
    pub fn link(self, value: bool) -> (builder: SpawnOptBuilder)
        ensures
            builder.chosen_link() == Some(value),
            builder.chosen_monitor() == self.chosen_monitor(),
    {
        SpawnOptBuilder { link: Some(value), monitor: self.monitor }
    }

    /// Sets whether the creator is to monitor the new process.
    pub fn monitor(self, value: bool) -> (builder: SpawnOptBuilder)
        ensures
            builder.chosen_monitor() == Some(value),
            builder.chosen_link() == self.chosen_link(),
    {
        SpawnOptBuilder { link: self.link, monitor: Some(value) }
    }

    /// The options as collected, with `false` for what was not set.  There is
    /// nothing that must be set, so this does not fail.
    pub fn build(&self) -> (built: Result<SpawnOpt, String>)
        ensures
            built is Ok,
            (built->Ok_0).wants_link() == (self.chosen_link() == Some(true)),
            (built->Ok_0).wants_monitor() == (self.chosen_monitor() == Some(true)),
    {
        let link = match self.link {
            Some(value) => value,
            None => false,
        };
        let monitor = match self.monitor {
            Some(value) => value,
            None => false,
        };
        Ok(SpawnOpt { link, monitor })
    }
}

impl Default for SpawnOptBuilder {
    /// Nothing set.
    fn default() -> (builder: SpawnOptBuilder)
        ensures
            builder.chosen_link() is None,
            builder.chosen_monitor() is None,
    {
        SpawnOptBuilder { link: None, monitor: None }
    }
}

impl Default for SpawnOpt {
    /// Neither a link nor a monitor.
    fn default() -> (opt: SpawnOpt)
        ensures
            !opt.wants_link(),
            !opt.wants_monitor(),
    {
        SpawnOpt { link: false, monitor: false }
    }
}

/// The link that a process created with `opt` by `me` gets.
pub open spec fn opted_link(me: &Binding, opt: &SpawnOpt) -> Option<Pid> {
    if opt.wants_link() {
        Some(me.pid()->0)
    } else {
        None
    }
}

/// The monitor that a process created with `opt` by `me` gets, when the next
/// monitor reference to be drawn is `next`.
pub open spec fn opted_monitor(me: &Binding, opt: &SpawnOpt, next: MonitorRef) -> Option<
    (MonitorRef, Pid),
> {
    if opt.wants_monitor() {
        Some((next, me.pid()->0))
    } else {
        None
    }
}

/// Creates a process as `opt` asks: linked to the current process, monitored
/// by it under a freshly drawn reference, both or neither.  Returns the new
/// identifier and the monitor reference, if one was drawn.  Without a link
/// and without a monitor there need be no current process.
pub fn __spawn_opt(
    rt: &mut Runtime,
    me: &Binding,
    opt: SpawnOpt,
) -> (spawned: (Pid, Option<MonitorRef>))
    requires
        opt.wants_link() || opt.wants_monitor() ==> me.pid() is Some,
    ensures
        spawned.0.value() == old(rt).pids.peek(),
        final(rt).pids.peek() as int == (old(rt).pids.peek() + 1) % id_space(),
        opt.wants_monitor() ==> spawned.1 is Some && (spawned.1->0).value() == old(rt).monitors.peek()
            && final(rt).monitors.peek() as int == (old(rt).monitors.peek() + 1) % id_space(),
        !opt.wants_monitor() ==> spawned.1 is None
            && final(rt).monitors.peek() == old(rt).monitors.peek(),
        final(rt).kernels@ == spawned_kernels(
            old(rt).kernels@,
            spawned.0,
            opted_link(me, &opt),
            opted_monitor(me, &opt, old(rt).monitors.issued(0)),
        ),
        final(rt).inboxes@ == spawned_inboxes(
            old(rt).inboxes@,
            old(rt).kernels@,
            spawned.0,
            opted_link(me, &opt),
        ),
        old(rt).wf() ==> final(rt).wf(),
{
    let link = if opt.link {
        Some(myself(me))
    } else {
        None
    };
    if opt.monitor {
        let monitor_ref = MonitorRef::new(&mut rt.monitors);
        let pid = spawn_int(rt, link, Some((monitor_ref, myself(me))));
        (pid, Some(monitor_ref))
    } else {
        let pid = spawn_int(rt, link, None);
        (pid, None)
    }
}

/// Creates a process as `opt` asks and returns its identifier.
pub fn spawn_opt(rt: &mut Runtime, me: &Binding, opt: SpawnOpt) -> (pid: Pid)
    requires
        opt.wants_link() || opt.wants_monitor() ==> me.pid() is Some,
    ensures
        pid.value() == old(rt).pids.peek(),
        final(rt).pids.peek() as int == (old(rt).pids.peek() + 1) % id_space(),
        final(rt).monitors.peek() as int == if opt.wants_monitor() {
            (old(rt).monitors.peek() + 1) % id_space()
        } else {
            old(rt).monitors.peek() as int
        },
        final(rt).kernels@ == spawned_kernels(
            old(rt).kernels@,
            pid,
            opted_link(me, &opt),
            opted_monitor(me, &opt, old(rt).monitors.issued(0)),
        ),
        final(rt).inboxes@ == spawned_inboxes(
            old(rt).inboxes@,
            old(rt).kernels@,
            pid,
            opted_link(me, &opt),
        ),
        old(rt).wf() ==> final(rt).wf(),
{
    __spawn_opt(rt, me, opt).0
}

/// Creates a process with no link and no monitor.
pub fn spawn(rt: &mut Runtime) -> (pid: Pid)
    ensures
        pid.value() == old(rt).pids.peek(),
        final(rt).pids.peek() as int == (old(rt).pids.peek() + 1) % id_space(),
        final(rt).monitors.peek() == old(rt).monitors.peek(),
        final(rt).kernels@ == old(rt).kernels@.insert(pid, KernelView::fresh(pid)),
        final(rt).inboxes@ == old(rt).inboxes@.insert(pid, InboxView::empty()),
        old(rt).wf() ==> final(rt).wf(),
{
    spawn_int(rt, None, None)
}

/// Creates a process linked to the current one.
pub fn spawn_link(rt: &mut Runtime, me: &Binding) -> (pid: Pid)
    requires
        me.pid() is Some,
    ensures
        pid.value() == old(rt).pids.peek(),
        final(rt).pids.peek() as int == (old(rt).pids.peek() + 1) % id_space(),
        final(rt).monitors.peek() == old(rt).monitors.peek(),
        final(rt).kernels@ == spawned_kernels(old(rt).kernels@, pid, me.pid(), None),
        final(rt).inboxes@ == spawned_inboxes(old(rt).inboxes@, old(rt).kernels@, pid, me.pid()),
        old(rt).wf() ==> final(rt).wf(),
{
    spawn_int(rt, Some(myself(me)), None)
}

/// What a supervisor does with an exit signal.
#[derive(Clone, Copy, Debug, PartialEq, Eq, Structural)]
pub enum Verdict {
    /// The signal is dropped.
    Ignore,
    /// The process terminates with the signal's reason.
    Terminate,
    /// The signal is handed to the process as an ordinary message.
    Deliver,
}

/// The rule by which exit signals are arbitrated.  A process that does not
/// trap exits ignores `Normal` and terminates on anything else.  A process
/// that traps exits terminates on `Kill` and is handed anything else as a
/// message.
pub open spec fn arbitration(trap_exit: bool, reason: ExitReason) -> Verdict {
    if trap_exit {
        if reason == ExitReason::Kill {
            Verdict::Terminate
        } else {
            Verdict::Deliver
        }
    } else {
        if reason == ExitReason::Normal {
            Verdict::Ignore
        } else {
            Verdict::Terminate
        }
    }
}

/// Arbitrates one exit signal with the reason `reason` for a process whose
/// trap-exit flag is `trap_exit`.
pub fn arbitrate(trap_exit: bool, reason: ExitReason) -> (verdict: Verdict)
    ensures
        verdict == arbitration(trap_exit, reason),
{
    if trap_exit {
        if reason == ExitReason::Kill {
            Verdict::Terminate
        } else {
            Verdict::Deliver
        }
    } else {
        if reason != ExitReason::Normal {
            Verdict::Terminate
        } else {
            Verdict::Ignore
        }
    }
}

/// The reason with which a process terminates when its own code comes to an
/// end: `Panic` if the code aborted, `Normal` if it ran to completion.
pub fn concluded(panicked: bool) -> (reason: ExitReason)
    ensures
        reason == if panicked {
            ExitReason::Panic
        } else {
            ExitReason::Normal
        },
{
    if panicked {
        ExitReason::Panic
    } else {
        ExitReason::Normal
    }
}

/// The outcome of one step of supervision.
#[derive(Clone, Copy, Debug, PartialEq, Eq, Structural)]
pub enum Step {
    /// The process terminates with this reason.
    Exit(ExitReason),
    /// An exit signal was taken and dropped.
    Ignored,
    /// An exit signal was taken and put into the process's message queue.
    Trapped,
    /// No signal is pending: the process's own code may run.
    Idle,
}

/// What one step of supervision does to a process with the control block
/// `kernel` and the mailbox `inbox`: the outcome `step` and the mailbox
/// `after`.  The process's own request to terminate comes first, then the
/// oldest pending exit signal, arbitrated by [`arbitration`]; with neither,
/// the step is idle.
pub open spec fn supervised(
    kernel: KernelView,
    inbox: InboxView,
    step: Step,
    after: InboxView,
) -> bool {
    match kernel.self_exit {
        Some(reason) => step == Step::Exit(reason) && after == inbox,
        None => if inbox.exits.len() == 0 {
            step == Step::Idle && after == inbox
        } else {
            let exit = inbox.exits[0];
            match arbitration(kernel.trap_exit, exit.1) {
                Verdict::Terminate => step == Step::Exit(exit.1) && after == inbox.acknowledge(),
                Verdict::Ignore => step == Step::Ignored && after == inbox.acknowledge(),
                Verdict::Deliver => {
                    &&& step == Step::Trapped
                    &&& after.messages.len() > 0
                    &&& after.messages.last().exit_notice() == Some(exit)
                    &&& after == inbox.acknowledge().enqueue(after.messages.last())
                },
            }
        },
    }
}

/// One step of supervision for the process `pid`.  A [`Step::Exit`] ends the
/// process: the caller goes on to [`terminate`].  After [`Step::Ignored`] and
/// [`Step::Trapped`] the caller supervises again; after [`Step::Idle`] it
/// lets the process's own code run.
pub fn supervise(rt: &mut Runtime, pid: Pid) -> (step: Step)
    requires
        old(rt).alive(pid),
    ensures
        final(rt).inboxes@.contains_key(pid),
        supervised(old(rt).kernels@[pid], old(rt).inboxes@[pid], step, final(rt).inboxes@[pid]),
        final(rt).inboxes@ == old(rt).inboxes@.insert(pid, final(rt).inboxes@[pid]),
        final(rt).kernels@ == old(rt).kernels@,
        final(rt).pids.peek() == old(rt).pids.peek(),
        final(rt).monitors.peek() == old(rt).monitors.peek(),
        old(rt).wf() ==> final(rt).wf(),
{
    let kernel = remove(&mut rt.kernels, &pid);
    let self_exit = kernel.self_exit();
    let trap_exit = kernel.get_trap_exit();
    place(&mut rt.kernels, pid, kernel);
    if let Some(reason) = self_exit {
        return Step::Exit(reason);
    }
    match receive_exit(&mut rt.inboxes, pid) {
        None => Step::Idle,
        Some(exit) => match arbitrate(trap_exit, exit.1) {
            Verdict::Terminate => Step::Exit(exit.1),
            Verdict::Ignore => Step::Ignored,
            Verdict::Deliver => {
                send_raw(&mut rt.inboxes, pid, Envelope::from_exit(exit));
                Step::Trapped
            },
        },
    }
}

/// Whether `index` is where supervision stops in the pending signals `exits`
/// of a process whose trap-exit flag is `trap_exit`: at the first signal that
/// terminates the process, or behind the last signal if none does.
pub open spec fn is_first_fatal(trap_exit: bool, exits: Seq<Exit>, index: int) -> bool {
    &&& 0 <= index <= exits.len()
    &&& index < exits.len() ==> arbitration(trap_exit, exits[index].1) == Verdict::Terminate
    &&& forall|earlier: int|
        0 <= earlier < index ==> arbitration(trap_exit, (#[trigger] exits[earlier]).1)
            != Verdict::Terminate
}

/// Whether the message queue `after` is the queue `before` with one message
/// behind it for each signal of `signals`, in order, each holding its
/// signal.
pub open spec fn carried(before: Seq<Envelope>, after: Seq<Envelope>, signals: Seq<Exit>) -> bool {
    &&& after.len() == before.len() + signals.len()
    &&& after.take(before.len() as int) == before
    &&& forall|index: int|
        0 <= index < signals.len() ==> (#[trigger] after[before.len() + index]).exit_notice()
            == Some(signals[index])
}

/// Where supervision stops and what it leaves behind, spelled out for the
/// index `index` at which it stops.
pub open spec fn settled_at(
    trap_exit: bool,
    inbox: InboxView,
    exit: Option<ExitReason>,
    after: InboxView,
    index: int,
) -> bool {
    &&& is_first_fatal(trap_exit, inbox.exits, index)
    &&& exit == if index < inbox.exits.len() {
        Some(inbox.exits[index].1)
    } else {
        None
    }
    &&& after.exits == if index < inbox.exits.len() {
        inbox.exits.skip(index + 1)
    } else {
        Seq::empty()
    }
    &&& after.saved == inbox.saved
    &&& carried(
        inbox.messages,
        after.messages,
        if trap_exit {
            inbox.exits.take(index)
        } else {
            Seq::empty()
        },
    )
}

/// What taking the pending signals of a mailbox `inbox` does, for a process
/// whose trap-exit flag is `trap_exit`: the reason to terminate with, if
/// any, and the mailbox `after`.
///
/// The signals are taken oldest first, up to and including the first that
/// terminates the process.  Those before it are dropped if the process does
/// not trap exits; if it does, they are put into the message queue in
/// order.  With no signal that terminates, all are taken and there is no
/// reason to terminate.
pub open spec fn signals_settled(
    trap_exit: bool,
    inbox: InboxView,
    exit: Option<ExitReason>,
    after: InboxView,
) -> bool {
    exists|index: int| settled_at(trap_exit, inbox, exit, after, index)
}

/// What supervising a process until it comes to rest does, for a process
/// with the control block `kernel` and the mailbox `inbox`: the reason to
/// terminate with, if any, and the mailbox `after`.  The process's own
/// request to terminate comes first and leaves the mailbox as it is;
/// without one, the pending signals are taken as [`signals_settled`] says.
pub open spec fn settled(
    kernel: KernelView,
    inbox: InboxView,
    exit: Option<ExitReason>,
    after: InboxView,
) -> bool {
    match kernel.self_exit {
        Some(reason) => exit == Some(reason) && after == inbox,
        None => signals_settled(kernel.trap_exit, inbox, exit, after),
    }
}

impl Inbox {
    /// Takes pending exit signals, oldest first, until one terminates the
    /// process or none is left; see [`settle`].
    pub fn settle(&mut self, trap_exit: bool) -> (exit: Option<ExitReason>)
        ensures
            signals_settled(trap_exit, old(self)@, exit, final(self)@),
    {
        let ghost inbox = old(self)@;
        let ghost mut taken: int = 0;
        proof {
            assert(inbox.messages.take(inbox.messages.len() as int) =~= inbox.messages);
        }
        loop
            invariant
                inbox == old(self)@,
                0 <= taken <= inbox.exits.len(),
                forall|earlier: int|
                    0 <= earlier < taken ==> arbitration(trap_exit, (#[trigger] inbox.exits[earlier]).1)
                        != Verdict::Terminate,
                self@.exits == inbox.exits.skip(taken),
                self@.saved == inbox.saved,
                carried(
                    inbox.messages,
                    self@.messages,
                    if trap_exit {
                        inbox.exits.take(taken)
                    } else {
                        Seq::empty()
                    },
                ),
            decreases inbox.exits.len() - taken,
        {
            let ghost messages = self@.messages;
            match self.receive_exit() {
                None => {
                    proof {
                        assert(self@.exits =~= Seq::<Exit>::empty());
                        assert(settled_at(trap_exit, inbox, None, self@, taken));
                    }
                    return None;
                },
                Some(exit) => {
                    proof {
                        assert(self@.exits =~= inbox.exits.skip(taken + 1));
                    }
                    match arbitrate(trap_exit, exit.1) {
                        Verdict::Terminate => {
                            proof {
                                assert(settled_at(trap_exit, inbox, Some(exit.1), self@, taken));
                            }
                            return Some(exit.1);
                        },
                        Verdict::Ignore => {},
                        Verdict::Deliver => {
                            self.push(Envelope::from_exit(exit));
                            proof {
                                let n = inbox.messages.len() as int;
                                assert(self@.messages.take(n) =~= messages.take(n));
                            }
                        },
                    }
                    proof {
                        taken = taken + 1;
                    }
                },
            }
        }
    }
}

/// Supervises the process `pid` until it comes to rest: takes the steps of
/// [`supervise`] one after the other, as long as they take a signal and the
/// process lives.  Returns the reason with which the process terminates, on
/// which the caller goes on to [`terminate`]; or `None`, on which the caller
/// lets the process's own code run.
pub fn settle(rt: &mut Runtime, pid: Pid) -> (exit: Option<ExitReason>)
    requires
        old(rt).alive(pid),
    ensures
        final(rt).inboxes@.contains_key(pid),
        settled(old(rt).kernels@[pid], old(rt).inboxes@[pid], exit, final(rt).inboxes@[pid]),
        final(rt).inboxes@ == old(rt).inboxes@.insert(pid, final(rt).inboxes@[pid]),
        final(rt).kernels@ == old(rt).kernels@,
        final(rt).pids.peek() == old(rt).pids.peek(),
        final(rt).monitors.peek() == old(rt).monitors.peek(),
        old(rt).wf() ==> final(rt).wf(),
{
    let kernel = remove(&mut rt.kernels, &pid);
    let self_exit = kernel.self_exit();
    let trap_exit = kernel.get_trap_exit();
    place(&mut rt.kernels, pid, kernel);
    if let Some(reason) = self_exit {
        return Some(reason);
    }
    match rt.inboxes.take(pid) {
        Some(inbox) => {
            let mut inbox = inbox;
            let exit = inbox.settle(trap_exit);
            rt.inboxes.put(pid, inbox);
            exit
        },
        None => vstd::pervasive::unreached(),
    }
}

/// What a table of mailboxes holds after `exit` was signalled to every
/// process in `peers`: each of them that has a mailbox has the signal at the
/// tail of its exit queue, once, and nothing else has changed.
pub open spec fn notified(boxes: Map<Pid, InboxView>, peers: Set<Pid>, exit: Exit) -> Map<
    Pid,
    InboxView,
> {
    Map::new(
        |pid: Pid| boxes.contains_key(pid),
        |pid: Pid|
            if peers.contains(pid) {
                boxes[pid].signal(exit)
            } else {
                boxes[pid]
            },
    )
}

/// Tears the process `pid` down after it terminated with `reason`: removes
/// its mailbox and its control block, then signals `Exit(pid, reason)` to
/// every peer it was linked to.  Peers that are gone are passed over.
/// Returns the peers that were signalled, each once; the caller is obliged to
/// wake them.
pub fn terminate(rt: &mut Runtime, pid: Pid, reason: ExitReason) -> (woken: Vec<Pid>)
    requires
        old(rt).kernels@.contains_key(pid),
    ensures
        final(rt).kernels@ == old(rt).kernels@.remove(pid),
        final(rt).inboxes@ == notified(
            old(rt).inboxes@.remove(pid),
            old(rt).kernels@[pid].linked,
            Exit(pid, reason),
        ),
        woken@.no_duplicates(),
        woken@.to_set() == old(rt).kernels@[pid].linked.intersect(
            old(rt).inboxes@.remove(pid).dom(),
        ),
        final(rt).pids.peek() == old(rt).pids.peek(),
        final(rt).monitors.peek() == old(rt).monitors.peek(),
        old(rt).wf() ==> final(rt).wf(),
{
    drop(&mut rt.inboxes, &pid);
    let context = remove(&mut rt.kernels, &pid);
    let peers = context.linked_peers();
    let exit = Exit(pid, reason);
    let ghost base = rt.inboxes@;
    let mut woken: Vec<Pid> = Vec::new();
    let mut i: usize = 0;
    while i < peers.len()
        invariant
            i <= peers.len(),
            peers@.no_duplicates(),
            rt.inboxes@ == notified(base, peers@.take(i as int).to_set(), exit),
            woken@.no_duplicates(),
            woken@.to_set() == peers@.take(i as int).to_set().intersect(base.dom()),
            rt.kernels@ == old(rt).kernels@.remove(pid),
            rt.pids.peek() == old(rt).pids.peek(),
            rt.monitors.peek() == old(rt).monitors.peek(),
        decreases peers.len() - i,
    {
        let peer = peers[i];
        let ghost before = woken@;
        proof {
            assert(peers@.take(i as int + 1) =~= peers@.take(i as int).push(peer));
            peers@.take(i as int).lemma_push_to_set_commute(peer);
        }
        if send_exit(&mut rt.inboxes, &peer, exit) {
            woken.push(peer);
            proof {
                before.lemma_push_to_set_commute(peer);
                assert(!before.contains(peer)) by {
                    assert(before.to_set().contains(peer) == before.contains(peer));
                }
            }
        }
        i = i + 1;
    }
    proof {
        assert(peers@.take(peers.len() as int) =~= peers@);
    }
    woken
}

/// When a process terminates, each peer it was linked to that still has a
/// mailbox receives the exit signal exactly once, at the tail of its exit
/// queue, and nothing else in any mailbox changes.
pub proof fn lemma_each_peer_signalled_once(
    boxes: Map<Pid, InboxView>,
    peers: Set<Pid>,
    exit: Exit,
    pid: Pid,
)
    requires
        boxes.contains_key(pid),
    ensures
        notified(boxes, peers, exit).contains_key(pid),
        peers.contains(pid) ==> notified(boxes, peers, exit)[pid].exits == boxes[pid].exits.push(exit),
        peers.contains(pid) ==> notified(boxes, peers, exit)[pid].messages == boxes[pid].messages,
        peers.contains(pid) ==> notified(boxes, peers, exit)[pid].saved == boxes[pid].saved,
        !peers.contains(pid) ==> notified(boxes, peers, exit)[pid] == boxes[pid],
{
}

/// A process that is signalled the exit of a linked peer, for a reason other
/// than `Normal`, terminates with the same reason if it does not trap exits;
/// if it traps exits and the reason is not `Kill`, it does not terminate and
/// finds a message that holds the signal at the tail of its message queue.
///
/// This is said of a process that has not asked to terminate itself and has
/// no earlier signal pending that terminates it: those are dealt with
/// first.
pub proof fn lemma_linked_exit_propagates(
    kernel: KernelView,
    inbox: InboxView,
    exit: Exit,
    reason: Option<ExitReason>,
    after: InboxView,
)
    requires
        exit.1 != ExitReason::Normal,
        kernel.self_exit is None,
        forall|earlier: int|
            0 <= earlier < inbox.exits.len() ==> arbitration(
                kernel.trap_exit,
                (#[trigger] inbox.exits[earlier]).1,
            ) != Verdict::Terminate,
        settled(kernel, inbox.signal(exit), reason, after),
    ensures
        !kernel.trap_exit ==> reason == Some(exit.1),
        kernel.trap_exit && exit.1 != ExitReason::Kill ==> reason is None && after.messages.len() > 0
            && after.messages.last().exit_notice() == Some(exit),
{
    let pending = inbox.signal(exit).exits;
    let last = inbox.exits.len() as int;
    let stop = choose|index: int| settled_at(kernel.trap_exit, inbox.signal(exit), reason, after, index);
    assert(pending[last] == exit);
    assert forall|earlier: int| 0 <= earlier < last implies pending[earlier] == inbox.exits[earlier] by {}
    if kernel.trap_exit && exit.1 != ExitReason::Kill {
        assert(stop == last + 1);
        assert(pending.take(stop)[last] == exit);
        let n = inbox.messages.len() as int;
        assert(after.messages.len() == n + last + 1);
        assert(after.messages[n + last].exit_notice() == Some(pending.take(stop)[last]));
    } else if !kernel.trap_exit {
        assert(stop == last);
    }
}

/// `Kill` cannot be trapped: a process whose oldest pending signal carries
/// it, and that has not asked to terminate for a reason of its own,
/// terminates with `Kill` whatever its trap-exit flag says.
pub proof fn lemma_kill_terminates(kernel: KernelView, inbox: InboxView, step: Step, after: InboxView)
    requires
        kernel.self_exit is None,
        inbox.exits.len() > 0,
        inbox.exits[0].1 == ExitReason::Kill,
        supervised(kernel, inbox, step, after),
    ensures
        arbitration(kernel.trap_exit, ExitReason::Kill) == Verdict::Terminate,
        step == Step::Exit(ExitReason::Kill),
{
}

/// A pending `Kill` always terminates: a process that has a signal with
/// this reason pending, and that has not asked to terminate for a reason of
/// its own, does not come to rest without a reason to terminate, whatever
/// its trap-exit flag says.
pub proof fn lemma_pending_kill_terminates(
    kernel: KernelView,
    inbox: InboxView,
    at: int,
    exit: Option<ExitReason>,
    after: InboxView,
)
    requires
        kernel.self_exit is None,
        0 <= at < inbox.exits.len(),
        inbox.exits[at].1 == ExitReason::Kill,
        settled(kernel, inbox, exit, after),
    ensures
        exit is Some,
        inbox.exits.len() > 0 && inbox.exits[0].1 == ExitReason::Kill ==> exit == Some(
            ExitReason::Kill,
        ),
{
}

/// A process that is gone is out of reach: once it was torn down, what is
/// sent or signalled to it is dropped and changes no mailbox.
pub proof fn lemma_terminated_is_out_of_reach(
    boxes: Map<Pid, InboxView>,
    peers: Set<Pid>,
    exit: Exit,
    pid: Pid,
    envelope: Envelope,
    signal: Exit,
)
    ensures
        !notified(boxes.remove(pid), peers, exit).contains_key(pid),
        crate::inbox::posted(notified(boxes.remove(pid), peers, exit), pid, envelope) == notified(
            boxes.remove(pid),
            peers,
            exit,
        ),
        signalled(notified(boxes.remove(pid), peers, exit), pid, signal) == notified(
            boxes.remove(pid),
            peers,
            exit,
        ),
{
}

/// Coming to rest is taking single steps: a step that ends the process or
/// finds nothing pending is where supervision rests; after a step that took
/// a signal and went on, supervision rests where it rests from there.
pub proof fn lemma_rest_is_made_of_steps(
    kernel: KernelView,
    inbox: InboxView,
    step: Step,
    next: InboxView,
    exit: Option<ExitReason>,
    after: InboxView,
)
    requires
        supervised(kernel, inbox, step, next),
    ensures
        step matches Step::Exit(reason) ==> settled(kernel, inbox, Some(reason), next),
        step == Step::Idle ==> settled(kernel, inbox, None, next),
        (step == Step::Ignored || step == Step::Trapped) && settled(kernel, next, exit, after)
            ==> settled(kernel, inbox, exit, after),
{
    if kernel.self_exit is None {
        let trap = kernel.trap_exit;
        let n = inbox.messages.len() as int;
        if inbox.exits.len() == 0 {
            assert(next.messages.take(n) =~= inbox.messages);
            assert(inbox.exits =~= Seq::<Exit>::empty());
            assert(settled_at(trap, inbox, None, next, 0));
        } else if step is Exit {
            assert(next.messages.take(n) =~= inbox.messages);
            assert(settled_at(trap, inbox, Some(inbox.exits[0].1), next, 0));
        } else if settled(kernel, next, exit, after) {
            let rest = choose|index: int| settled_at(trap, next, exit, after, index);
            assert forall|earlier: int| 0 <= earlier < rest + 1 implies arbitration(
                trap,
                (#[trigger] inbox.exits[earlier]).1,
            ) != Verdict::Terminate by {
                if earlier > 0 {
                    assert(next.exits[earlier - 1] == inbox.exits[earlier]);
                }
            }
            if rest < next.exits.len() {
                assert(next.exits.skip(rest + 1) =~= inbox.exits.skip(rest + 2));
            }
            if trap {
                assert(after.messages.take(n) =~= next.messages.take(n));
                assert(next.messages.take(n) =~= inbox.messages);
                assert forall|index: int| 0 <= index < rest + 1 implies (#[trigger] after.messages[n
                    + index]).exit_notice() == Some(inbox.exits.take(rest + 1)[index]) by {
                    if index > 0 {
                        assert(after.messages[n + 1 + (index - 1)].exit_notice() == Some(
                            next.exits.take(rest)[index - 1],
                        ));
                    }
                }
            }
            assert(settled_at(trap, inbox, exit, after, rest + 1));
        }
    }
}

} // verus!
