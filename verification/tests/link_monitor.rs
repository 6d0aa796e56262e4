use hastur::{
    __receive, arbitrate, concluded, get_trap_exit, link, send, spawn, spawn_link, supervise,
    terminate, trap_exit, Binding, Exit, ExitReason, Pid, Received, Runtime, Step, Verdict,
};

fn acting_as(pid: Pid) -> Binding {
    let mut binding = Binding::new();
    binding.set(pid);
    binding
}

#[test]
fn spawn_nolink_panic() {
    let mut rt = Runtime::new();
    let outer = spawn(&mut rt);
    assert_eq!(supervise(&mut rt, outer), Step::Idle);
    let inner = spawn(&mut rt);

    // tick 1: the inner process panics
    assert_eq!(supervise(&mut rt, inner), Step::Idle);
    let inner_reason = concluded(true);
    let woken = terminate(&mut rt, inner, inner_reason);
    assert!(woken.is_empty());
    assert_eq!(inner_reason, ExitReason::Panic);

    // the outer process is not linked and goes on to return
    assert_eq!(supervise(&mut rt, outer), Step::Idle);
    let outer_reason = concluded(false);
    terminate(&mut rt, outer, outer_reason);
    assert_eq!(outer_reason, ExitReason::Normal);
}

#[test]
fn spawn_link_normal() {
    let mut rt = Runtime::new();
    let parent = spawn(&mut rt);
    assert_eq!(supervise(&mut rt, parent), Step::Idle);
    let child = spawn_link(&mut rt, &acting_as(parent));

    // the child waits for a message
    assert_eq!(supervise(&mut rt, child), Step::Idle);
    assert!(matches!(__receive(&mut rt.inboxes, &acting_as(child)), Received::Empty));

    // tick 1: the parent sends it
    assert!(send(&mut rt.inboxes, child, ()));
    assert_eq!(supervise(&mut rt, child), Step::Idle);
    assert!(matches!(__receive(&mut rt.inboxes, &acting_as(child)), Received::Message(_)));
    let child_reason = concluded(false);
    let woken = terminate(&mut rt, child, child_reason);
    assert_eq!(woken, vec![parent]);
    assert_eq!(child_reason, ExitReason::Normal);

    // the parent is signalled the normal exit, ignores it and returns
    assert_eq!(supervise(&mut rt, parent), Step::Ignored);
    assert_eq!(supervise(&mut rt, parent), Step::Idle);
    let parent_reason = concluded(false);
    terminate(&mut rt, parent, parent_reason);
    assert_eq!(parent_reason, ExitReason::Normal);
}

#[test]
fn spawn_link_panic() {
    let mut rt = Runtime::new();
    let parent = spawn(&mut rt);
    assert_eq!(supervise(&mut rt, parent), Step::Idle);
    let child = spawn_link(&mut rt, &acting_as(parent));

    // the parent waits for a message that never comes
    assert!(matches!(__receive(&mut rt.inboxes, &acting_as(parent)), Received::Empty));

    // tick 1: the child panics
    assert_eq!(supervise(&mut rt, child), Step::Idle);
    let woken = terminate(&mut rt, child, concluded(true));
    assert_eq!(woken, vec![parent]);

    // the parent's receive does not complete; the parent terminates
    assert!(matches!(__receive(&mut rt.inboxes, &acting_as(parent)), Received::Preempted));
    let step = supervise(&mut rt, parent);
    assert_eq!(step, Step::Exit(ExitReason::Panic));
    terminate(&mut rt, parent, ExitReason::Panic);
}

#[test]
fn link_is_made_in_both_directions() {
    let mut rt = Runtime::new();
    let a = spawn(&mut rt);
    let b = spawn(&mut rt);
    assert!(link(&mut rt.kernels, &mut rt.inboxes, &acting_as(a), b));
    let woken = terminate(&mut rt, b, ExitReason::Custom);
    assert_eq!(woken, vec![a]);
    assert_eq!(supervise(&mut rt, a), Step::Exit(ExitReason::Custom));
}

#[test]
fn link_to_nobody_signals_noproc_to_the_linker() {
    let mut rt = Runtime::new();
    let a = spawn(&mut rt);
    let gone = spawn(&mut rt);
    terminate(&mut rt, gone, ExitReason::Normal);
    assert!(!link(&mut rt.kernels, &mut rt.inboxes, &acting_as(a), gone));
    assert_eq!(
        hastur::inbox::receive_exit(&mut rt.inboxes, a),
        Some(Exit(a, ExitReason::NoProc(gone)))
    );
}

#[test]
fn link_to_nobody_terminates_a_linker_that_does_not_trap() {
    let mut rt = Runtime::new();
    let a = spawn(&mut rt);
    let gone = spawn(&mut rt);
    terminate(&mut rt, gone, ExitReason::Normal);
    assert!(!link(&mut rt.kernels, &mut rt.inboxes, &acting_as(a), gone));
    assert_eq!(supervise(&mut rt, a), Step::Exit(ExitReason::NoProc(gone)));
}

#[test]
fn every_linked_peer_is_signalled_once() {
    let mut rt = Runtime::new();
    let p = spawn(&mut rt);
    let peers: Vec<Pid> = (0..5).map(|_| spawn_link(&mut rt, &acting_as(p))).collect();
    let bystander = spawn(&mut rt);
    // Linking twice changes nothing.
    assert!(link(&mut rt.kernels, &mut rt.inboxes, &acting_as(peers[0]), p));
    // One peer is gone by the time p terminates.
    terminate(&mut rt, peers[4], ExitReason::Normal);
    assert_eq!(
        hastur::inbox::receive_exit(&mut rt.inboxes, p),
        Some(Exit(peers[4], ExitReason::Normal))
    );

    let mut woken = terminate(&mut rt, p, ExitReason::Custom);
    woken.sort();
    assert_eq!(woken, peers[..4].to_vec());
    for peer in &peers[..4] {
        assert_eq!(
            hastur::inbox::receive_exit(&mut rt.inboxes, *peer),
            Some(Exit(p, ExitReason::Custom))
        );
        assert_eq!(hastur::inbox::receive_exit(&mut rt.inboxes, *peer), None);
    }
    assert_eq!(hastur::inbox::receive_exit(&mut rt.inboxes, bystander), None);
}

#[test]
fn trapped_exit_arrives_as_a_message() {
    let mut rt = Runtime::new();
    let l = spawn(&mut rt);
    let me = acting_as(l);
    trap_exit(&mut rt.kernels, &me, true);
    assert!(get_trap_exit(&mut rt.kernels, &me));
    let p = spawn_link(&mut rt, &me);
    terminate(&mut rt, p, ExitReason::Panic);

    assert_eq!(supervise(&mut rt, l), Step::Trapped);
    assert_eq!(supervise(&mut rt, l), Step::Idle);
    match __receive(&mut rt.inboxes, &me) {
        Received::Message(envelope) => {
            assert!(envelope.is::<Exit>());
            assert_eq!(envelope.as_exit(), Some(Exit(p, ExitReason::Panic)));
            assert_eq!(envelope, Exit(p, ExitReason::Panic));
        },
        _ => panic!("the trapped signal was due"),
    }
}

#[test]
fn trapped_normal_exit_arrives_as_a_message_too() {
    let mut rt = Runtime::new();
    let l = spawn(&mut rt);
    let me = acting_as(l);
    trap_exit(&mut rt.kernels, &me, true);
    let p = spawn_link(&mut rt, &me);
    terminate(&mut rt, p, ExitReason::Normal);
    assert_eq!(supervise(&mut rt, l), Step::Trapped);
    match __receive(&mut rt.inboxes, &me) {
        Received::Message(envelope) => assert_eq!(envelope, Exit(p, ExitReason::Normal)),
        _ => panic!("the trapped signal was due"),
    }
}

#[test]
fn kill_cannot_be_trapped() {
    let mut rt = Runtime::new();
    let l = spawn(&mut rt);
    let me = acting_as(l);
    trap_exit(&mut rt.kernels, &me, true);
    let p = spawn_link(&mut rt, &me);
    terminate(&mut rt, p, ExitReason::Kill);
    assert_eq!(supervise(&mut rt, l), Step::Exit(ExitReason::Kill));

    let q = spawn(&mut rt);
    assert!(hastur::send_exit(&mut rt.inboxes, &q, Exit(l, ExitReason::Kill)));
    assert_eq!(supervise(&mut rt, q), Step::Exit(ExitReason::Kill));
}

#[test]
fn trap_exit_can_be_switched_off_again() {
    let mut rt = Runtime::new();
    let l = spawn(&mut rt);
    let me = acting_as(l);
    assert!(!get_trap_exit(&mut rt.kernels, &me));
    trap_exit(&mut rt.kernels, &me, true);
    assert!(get_trap_exit(&mut rt.kernels, &me));
    trap_exit(&mut rt.kernels, &me, false);
    assert!(!get_trap_exit(&mut rt.kernels, &me));
    assert!(hastur::send_exit(&mut rt.inboxes, &l, Exit(l, ExitReason::JoinError)));
    assert_eq!(supervise(&mut rt, l), Step::Exit(ExitReason::JoinError));
}

#[test]
fn arbitration_follows_the_table() {
    let reasons = [
        ExitReason::Normal,
        ExitReason::Custom,
        ExitReason::NoProc(Pid::new(&mut hastur::PidGen::new())),
        ExitReason::Panic,
        ExitReason::Kill,
        ExitReason::JoinError,
    ];
    for reason in reasons {
        let untrapped = arbitrate(false, reason);
        let trapped = arbitrate(true, reason);
        if reason == ExitReason::Normal {
            assert_eq!(untrapped, Verdict::Ignore);
        } else {
            assert_eq!(untrapped, Verdict::Terminate);
        }
        if reason == ExitReason::Kill {
            assert_eq!(trapped, Verdict::Terminate);
        } else {
            assert_eq!(trapped, Verdict::Deliver);
        }
    }
}

#[test]
fn kernel_keeps_what_it_is_told() {
    let mut ids = hastur::PidGen::new();
    let mut refs = hastur::MonitorGen::new();
    let own = Pid::new(&mut ids);
    let peer = Pid::new(&mut ids);
    let watcher = Pid::new(&mut ids);
    let monitor = hastur::MonitorRef::new(&mut refs);
    let mut kernel = hastur::Kernel::new(own);
    assert_eq!(kernel.pid(), own);
    assert!(!kernel.get_trap_exit());
    assert_eq!(kernel.self_exit(), None);
    assert!(kernel.linked_peers().is_empty());
    assert_eq!(kernel.monitored_by(monitor), None);

    kernel.trap_exit(true);
    kernel.link(peer);
    kernel.link(peer);
    kernel.monitor(monitor, watcher);
    kernel.exit(ExitReason::Custom);
    assert!(kernel.get_trap_exit());
    assert_eq!(kernel.linked_peers(), vec![peer]);
    assert_eq!(kernel.monitored_by(monitor), Some(watcher));
    assert_eq!(kernel.self_exit(), Some(ExitReason::Custom));

    let mut kernels = hastur::Kernels::new();
    hastur::kernel::place(&mut kernels, own, kernel);
    let kernel = hastur::kernel::remove(&mut kernels, &own);
    assert_eq!(kernel.linked_peers(), vec![peer]);
}

#[test]
fn each_linked_peer_is_visited_once() {
    let mut ids = hastur::PidGen::new();
    let own = Pid::new(&mut ids);
    let mut kernel = hastur::Kernel::new(own);
    let peers: Vec<Pid> = (0..4).map(|_| Pid::new(&mut ids)).collect();
    for peer in &peers {
        kernel.link(*peer);
    }
    kernel.link(peers[2]);

    let seen = std::cell::RefCell::new(Vec::new());
    kernel.for_each_linked(|peer| seen.borrow_mut().push(*peer));
    let mut seen = seen.into_inner();
    seen.sort();
    assert_eq!(seen, peers);

    let nobody = hastur::Kernel::new(own);
    let calls = std::cell::Cell::new(0);
    nobody.for_each_linked(|_| calls.set(calls.get() + 1));
    assert_eq!(calls.get(), 0);
}
