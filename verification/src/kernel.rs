//! The per-process control block: links, monitors, the trap-exit flag and the
//! process's own request to terminate.

use dashmap::DashMap;
use dashmap::DashSet;
use vstd::prelude::*;
use crate::inbox::{send_exit, signalled, Exit, Inboxes};
use crate::pid::{myself, Binding, MonitorRef, Pid};
use crate::table::{
    kernel_entries, kernel_table_contains, kernel_table_insert, kernel_table_new,
    kernel_table_remove, linked_numbers,
    linked_set_insert, linked_set_members, linked_set_new, monitor_entries, monitor_table_get,
    monitor_table_insert, monitor_table_new,
};

verus! {

/// Why a process terminated.
#[derive(Clone, Copy, Debug, PartialEq, Eq, Structural)]
pub enum ExitReason {
    /// The process ran to completion, or asked to stop without a fault.
    Normal,
    /// A reason of the application's own.
    Custom,
    /// The process linked to the given identifier, which named no process.
    NoProc(Pid),
    /// The process's code aborted.
    Panic,
    /// The process was killed; this reason cannot be trapped.
    Kill,
    /// The task that ran the process could not be joined.
    JoinError,
}

/// What a control block holds.
pub struct KernelView {
    /// The process the block belongs to.
    pub pid: Pid,
    /// The peers to notify when the process terminates.
    pub linked: Set<Pid>,
    /// The monitors on the process: from each reference to the process that
    /// monitors.
    pub monitors: Map<MonitorRef, Pid>,
    /// Whether incoming exit signals are handed to the process as messages.
    pub trap_exit: bool,
    /// The reason with which the process asked to terminate, once it has.
    pub self_exit: Option<ExitReason>,
}

impl KernelView {
    /// The block of a process that was just created.
    pub open spec fn fresh(pid: Pid) -> KernelView {
        KernelView {
            pid,
            linked: Set::empty(),
            monitors: Map::empty(),
            trap_exit: false,
            self_exit: None,
        }
    }

    /// The block after `peer` was added to the linked peers.
    pub open spec fn link(self, peer: Pid) -> KernelView {
        KernelView { linked: self.linked.insert(peer), ..self }
    }

    /// The block after a monitor by `watcher` was recorded under `monitor`.
    pub open spec fn monitor(self, monitor: MonitorRef, watcher: Pid) -> KernelView {
        KernelView { monitors: self.monitors.insert(monitor, watcher), ..self }
    }

    /// The block after the trap-exit flag was set to `value`.
    pub open spec fn trap(self, value: bool) -> KernelView {
        KernelView { trap_exit: value, ..self }
    }

    /// The block after the process asked to terminate with `reason`.
    pub open spec fn exit(self, reason: ExitReason) -> KernelView {
        KernelView { self_exit: Some(reason), ..self }
    }
}

/// The control block of one process.
pub struct Kernel {
    pub(crate) pid: Pid,
    pub(crate) linked: DashSet<u32>,
    pub(crate) monitors: DashMap<u32, u32>,
    pub(crate) self_exit: Option<ExitReason>,
    pub(crate) trap_exit: bool,
}

impl Kernel {
    /// What the block holds.
    pub open(crate) spec fn view(&self) -> KernelView {
        KernelView {
            pid: self.pid,
            linked: Set::new(|peer: Pid| linked_numbers(self.linked).contains(peer.0)),
            monitors: Map::new(
                |monitor: MonitorRef| monitor_entries(self.monitors).contains_key(monitor.0),
                |monitor: MonitorRef| Pid(monitor_entries(self.monitors)[monitor.0]),
            ),
            trap_exit: self.trap_exit,
            self_exit: self.self_exit,
        }
    }

    /// The block of a new process: no links, no monitors, exits not trapped,
    /// no request to terminate.
    pub fn new(pid: Pid) -> (kernel: Kernel)
        ensures
            kernel@ == KernelView::fresh(pid),
    {
        let kernel = Kernel {
            pid,
            linked: linked_set_new(),
            monitors: monitor_table_new(),
            trap_exit: false,
            self_exit: None,
        };
        assert(kernel@.linked =~= Set::<Pid>::empty());
        assert(kernel@.monitors =~= Map::<MonitorRef, Pid>::empty());
        kernel
    }

    /// The process the block belongs to.
    pub fn pid(&self) -> (pid: Pid)
        ensures
            pid == self@.pid,
    {
        self.pid
    }

    /// Sets the trap-exit flag.
    pub fn trap_exit(&mut self, trap_exit: bool)
        ensures
            final(self)@ == old(self)@.trap(trap_exit),
    {
        self.trap_exit = trap_exit;
    }

    /// Reads the trap-exit flag.
    pub fn get_trap_exit(&self) -> (trap_exit: bool)
        ensures
            trap_exit == self@.trap_exit,
    {
        self.trap_exit
    }

    /// Records the process's request to terminate with `reason`.  A process
    /// asks once: after asking it never runs again.
    pub fn exit(&mut self, reason: ExitReason)
        requires
            old(self)@.self_exit is None,
        ensures
            final(self)@ == old(self)@.exit(reason),
    {
        match self.self_exit {
            Some(_) => vstd::pervasive::unreached(),
            None => {
                self.self_exit = Some(reason);
            },
        }
    }

    /// The reason with which the process asked to terminate, once it has.
    pub fn self_exit(&self) -> (reason: Option<ExitReason>)
        ensures
            reason == self@.self_exit,
    {
        self.self_exit
    }

    /// Adds `pid` to the peers of this block.  The other half of the link,
    /// this process among the peers of `pid`, is the caller's to add.
    pub fn link(&mut self, pid: Pid)
        ensures
            final(self)@ == old(self)@.link(pid),
    {
        linked_set_insert(&mut self.linked, pid.number());
        assert(final(self)@.linked =~= old(self)@.linked.insert(pid));
    }

    /// The linked peers, each once, in no particular order.
    pub fn linked_peers(&self) -> (peers: Vec<Pid>)
        ensures
            peers@.no_duplicates(),
            peers@.to_set() == self@.linked,
    {
        let numbers = linked_set_members(&self.linked);
        let mut peers: Vec<Pid> = Vec::new();
        let mut i: usize = 0;
        while i < numbers.len()
            invariant
                i <= numbers.len(),
                peers.len() == i,
                forall|k: int| 0 <= k < i ==> (#[trigger] peers[k]).0 == numbers[k],
            decreases numbers.len() - i,
        {
            peers.push(Pid(numbers[i]));
            i = i + 1;
        }
        proof {
            assert forall|peer: Pid| peers@.to_set().contains(peer) <==> self@.linked.contains(
                peer,
            ) by {
                if self@.linked.contains(peer) {
                    let k = choose|k: int| 0 <= k < numbers.len() && numbers[k] == peer.0;
                    assert(peers[k] == peer);
                }
            }
        }
        peers
    }

    /// Calls `f` on each linked peer, once, in no particular order.
    pub fn for_each_linked<F: Fn(&Pid)>(&self, f: F)
        requires
            forall|peer: Pid| self@.linked.contains(peer) ==> f.requires((&peer,)),
    {
        let peers = self.linked_peers();
        let mut i: usize = 0;
        while i < peers.len()
            invariant
                i <= peers.len(),
                peers@.to_set() == self@.linked,
                forall|peer: Pid| self@.linked.contains(peer) ==> f.requires((&peer,)),
            decreases peers.len() - i,
        {
            assert(peers@.to_set().contains(peers@[i as int]));
            f(&peers[i]);
            i = i + 1;
        }
    }

    /// The process that monitors this one under `monitor_ref`, if there is
    /// such a monitor.
    pub fn monitored_by(&self, monitor_ref: MonitorRef) -> (watcher: Option<Pid>)
        ensures
            watcher == if self@.monitors.contains_key(monitor_ref) {
                Some(self@.monitors[monitor_ref])
            } else {
                None
            },
    {
        match monitor_table_get(&self.monitors, monitor_ref.number()) {
            Some(number) => Some(Pid(number)),
            None => None,
        }
    }

    /// Records a monitor on this process by `monitor_pid`, known under
    /// `monitor_ref`.
    pub fn monitor(&mut self, monitor_ref: MonitorRef, monitor_pid: Pid)
        ensures
            final(self)@ == old(self)@.monitor(monitor_ref, monitor_pid),
    {
        monitor_table_insert(&mut self.monitors, monitor_ref.number(), monitor_pid.number());
        assert(final(self)@.monitors =~= old(self)@.monitors.insert(monitor_ref, monitor_pid));
    }
}

/// What a table of control blocks holds after `a` and `b` were linked: each
/// is among the peers of the other.  Both must have a block.
pub open spec fn connected(kernels: Map<Pid, KernelView>, a: Pid, b: Pid) -> Map<Pid, KernelView> {
    let half = kernels.insert(b, kernels[b].link(a));
    half.insert(a, half[a].link(b))
}

/// The table of control blocks, one for each live process.
pub struct Kernels {
    pub(crate) table: DashMap<u32, Kernel>,
}

impl Kernels {
    /// What each process's control block holds.
    pub open(crate) spec fn view(&self) -> Map<Pid, KernelView> {
        Map::new(
            |pid: Pid| kernel_entries(self.table).contains_key(pid.0),
            |pid: Pid| kernel_entries(self.table)[pid.0]@,
        )
    }

    /// A table with no control block in it.
    pub fn new() -> (kernels: Kernels)
        ensures
            kernels@ == Map::<Pid, KernelView>::empty(),
    {
        Kernels { table: kernel_table_new() }
    }

    /// Whether `pid` has a control block.
    pub fn contains(&self, pid: &Pid) -> (found: bool)
        ensures
            found == self@.contains_key(*pid),
    {
        kernel_table_contains(&self.table, pid.number())
    }

    /// Takes the control block of `pid` out of the table, if it has one.
    pub(crate) fn take(&mut self, pid: Pid) -> (kernel: Option<Kernel>)
        ensures
            final(self)@ == old(self)@.remove(pid),
            old(self)@.contains_key(pid) ==> kernel is Some && kernel->0@ == old(self)@[pid],
            !old(self)@.contains_key(pid) ==> kernel is None,
    {
        kernel_table_remove(&mut self.table, pid.number())
    }

    /// Puts `kernel` into the table as the control block of `pid`, in place
    /// of any it had.
    pub(crate) fn put(&mut self, pid: Pid, kernel: Kernel)
        ensures
            final(self)@ == old(self)@.insert(pid, kernel@),
    {
        kernel_table_insert(&mut self.table, pid.number(), kernel);
    }
}

/// Installs `kernel` as the control block of `pid`, in place of any it had.
pub fn place(kernels: &mut Kernels, pid: Pid, kernel: Kernel)
    ensures
        final(kernels)@ == old(kernels)@.insert(pid, kernel@),
{
    kernels.put(pid, kernel);
}

/// Removes the control block of `pid` and hands it out.  The process must
/// have one.
pub fn remove(kernels: &mut Kernels, pid: &Pid) -> (kernel: Kernel)
    requires
        old(kernels)@.contains_key(*pid),
    ensures
        kernel@ == old(kernels)@[*pid],
        final(kernels)@ == old(kernels)@.remove(*pid),
{
    match kernels.take(*pid) {
        Some(kernel) => kernel,
        None => vstd::pervasive::unreached(),
    }
}

/// Links the current process to `to`, in both directions.  Where `to` names
/// no process, nothing is linked; instead the current process is sent an
/// exit signal from itself with the reason `NoProc(to)`.  Returns whether
/// the link was made; a false result obliges the caller to wake the current
/// process.
pub fn link(kernels: &mut Kernels, inboxes: &mut Inboxes, me: &Binding, to: Pid) -> (linked: bool)
    requires
        me.pid() is Some,
        old(kernels)@.contains_key(to) ==> old(kernels)@.contains_key(me.pid()->0),
    ensures
        linked == old(kernels)@.contains_key(to),
        linked ==> final(kernels)@ == connected(old(kernels)@, me.pid()->0, to) && final(inboxes)@
            == old(inboxes)@,
        !linked ==> final(kernels)@ == old(kernels)@ && final(inboxes)@ == signalled(
            old(inboxes)@,
            me.pid()->0,
            Exit(me.pid()->0, ExitReason::NoProc(to)),
        ),
{
    let myself = myself(me);
    match kernels.take(to) {
        Some(peer) => {
            let mut peer = peer;
            peer.link(myself);
            kernels.put(to, peer);
            match kernels.take(myself) {
                Some(own) => {
                    let mut own = own;
                    own.link(to);
                    kernels.put(myself, own);
                },
                None => vstd::pervasive::unreached(),
            }
            true
        },
        None => {
            send_exit(inboxes, &myself, Exit(myself, ExitReason::NoProc(to)));
            false
        },
    }
}

/// Sets the trap-exit flag of the current process.
pub fn trap_exit(kernels: &mut Kernels, me: &Binding, value: bool)
    requires
        me.pid() is Some,
        old(kernels)@.contains_key(me.pid()->0),
    ensures
        final(kernels)@ == old(kernels)@.insert(
            me.pid()->0,
            old(kernels)@[me.pid()->0].trap(value),
        ),
{
    let myself = myself(me);
    let mut kernel = remove(kernels, &myself);
    kernel.trap_exit(value);
    kernels.put(myself, kernel);
}

/// Reads the trap-exit flag of the current process.
pub fn get_trap_exit(kernels: &mut Kernels, me: &Binding) -> (value: bool)
    requires
        me.pid() is Some,
        old(kernels)@.contains_key(me.pid()->0),
    ensures
        value == old(kernels)@[me.pid()->0].trap_exit,
        final(kernels)@ == old(kernels)@,
{
    let myself = myself(me);
    let kernel = remove(kernels, &myself);
    let value = kernel.get_trap_exit();
    kernels.put(myself, kernel);
    value
}

/// Records the current process's request to terminate with `reason`.  The
/// supervisor acts on it at its next step, for which the caller is obliged
/// to wake it; the process itself must not run on, and a process asks once.
pub fn exit(kernels: &mut Kernels, me: &Binding, reason: ExitReason)
    requires
        me.pid() is Some,
        old(kernels)@.contains_key(me.pid()->0),
        old(kernels)@[me.pid()->0].self_exit is None,
    ensures
        final(kernels)@ == old(kernels)@.insert(
            me.pid()->0,
            old(kernels)@[me.pid()->0].exit(reason),
        ),
{
    let myself = myself(me);
    let mut kernel = remove(kernels, &myself);
    kernel.exit(reason);
    kernels.put(myself, kernel);
}

} // verus!
