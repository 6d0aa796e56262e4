use hastur::{
    select, send, spawn, supervise, terminate, Binding, ExitReason, Pattern, Pid, Runtime, SaveQueue,
    Selected, Step,
};

fn bound(pid: Pid) -> Binding {
    let mut binding = Binding::new();
    binding.set(pid);
    binding
}

fn receive_number(rt: &mut Runtime, me: &Binding) -> usize {
    let patterns = vec![Pattern::of::<usize>()];
    let mut save = SaveQueue::new();
    match select(&mut rt.inboxes, me, &patterns, &mut save) {
        Selected::Matched { envelope, .. } => envelope.downcast::<usize>().unwrap(),
        _ => panic!("a number was due"),
    }
}

// Runs the process `pid` to its end: a leaf reports its number, any other
// process spawns `div` children, lets them run, and reports the sum of what
// they send.
fn skynet_process(rt: &mut Runtime, pid: Pid, parent: Pid, num: usize, size: usize, div: usize) {
    assert_eq!(supervise(rt, pid), Step::Idle);
    if size == 1 {
        assert!(send(&mut rt.inboxes, parent, num));
    } else {
        let new_size = size / div;
        let children: Vec<Pid> = (0..div).map(|_| spawn(rt)).collect();
        for (n, child) in children.into_iter().enumerate() {
            skynet_process(rt, child, pid, num + n * new_size, new_size, div);
        }
        let me = bound(pid);
        let mut sum = 0usize;
        for _ in 0..div {
            sum += receive_number(rt, &me);
        }
        assert!(send(&mut rt.inboxes, parent, sum));
    }
    assert!(terminate(rt, pid, ExitReason::Normal).is_empty());
}

fn skynet(size: usize, div: usize) -> usize {
    let mut rt = Runtime::new();
    let root = spawn(&mut rt);
    let first = spawn(&mut rt);
    skynet_process(&mut rt, first, root, 0, size, div);
    let control = receive_number(&mut rt, &bound(root));
    terminate(&mut rt, root, ExitReason::Normal);
    control
}

#[test]
fn skynet_thousand() {
    assert_eq!(skynet(1000, 10), 499500);
}

#[test]
fn skynet_hundred_thousand() {
    assert_eq!(skynet(100000, 10), 4999950000);
}

#[test]
fn skynet_million() {
    assert_eq!(skynet(1000000, 10), 499999500000);
}
