use std::any::TypeId;

use hastur::receive::clause_for;
use hastur::{
    __receive, __selective_restore, arrange, receive, select, send, send_exit, spawn, After,
    AfterNotLast, Binding, Clause, Envelope, Exit, ExitReason, Pattern, Pid, Progress, Receive,
    Received, Runtime, SaveQueue, Selected,
};

fn receiver(pid: Pid) -> Binding {
    let mut binding = Binding::new();
    binding.set(pid);
    binding
}

fn next_message(rt: &mut Runtime, me: &Binding) -> Envelope {
    match __receive(&mut rt.inboxes, me) {
        Received::Message(envelope) => envelope,
        _ => panic!("a message was due"),
    }
}

#[test]
fn later_match_leaves_earlier_message_next() {
    let mut rt = Runtime::new();
    let pid = spawn(&mut rt);
    let me = receiver(pid);
    assert!(send(&mut rt.inboxes, pid, "early"));
    assert!(send(&mut rt.inboxes, pid, 7u32));

    let patterns = vec![Pattern::of::<u32>()];
    let mut save = SaveQueue::new();
    match select(&mut rt.inboxes, &me, &patterns, &mut save) {
        Selected::Matched { clause, envelope } => {
            assert_eq!(clause, 0);
            assert_eq!(envelope.downcast::<u32>(), Some(7));
        },
        _ => panic!("the number was due"),
    }
    assert!(save.is_empty());

    // A wildcard receive now sees the earlier message.
    let wildcard = vec![Pattern::any()];
    match select(&mut rt.inboxes, &me, &wildcard, &mut save) {
        Selected::Matched { clause, envelope } => {
            assert_eq!(clause, 0);
            assert_eq!(envelope, "early");
        },
        _ => panic!("the earlier message was due"),
    }
    assert!(matches!(__receive(&mut rt.inboxes, &me), Received::Empty));
}

#[test]
fn unmatched_messages_keep_their_order() {
    let mut rt = Runtime::new();
    let pid = spawn(&mut rt);
    let me = receiver(pid);
    for n in 1u8..=3 {
        assert!(send(&mut rt.inboxes, pid, n));
    }
    assert!(send(&mut rt.inboxes, pid, 'x'));
    for n in 4u8..=5 {
        assert!(send(&mut rt.inboxes, pid, n));
    }

    let patterns = vec![Pattern::of::<char>()];
    let mut save = SaveQueue::new();
    match select(&mut rt.inboxes, &me, &patterns, &mut save) {
        Selected::Matched { clause, envelope } => {
            assert_eq!(clause, 0);
            assert_eq!(envelope, 'x');
        },
        _ => panic!("the character was due"),
    }
    for n in 1u8..=5 {
        assert_eq!(next_message(&mut rt, &me), n);
    }
    assert!(matches!(__receive(&mut rt.inboxes, &me), Received::Empty));
}

#[test]
fn nothing_accepted_and_given_back_changes_nothing() {
    let mut rt = Runtime::new();
    let pid = spawn(&mut rt);
    let me = receiver(pid);
    for n in 1u8..=4 {
        assert!(send(&mut rt.inboxes, pid, n));
    }

    let patterns = vec![Pattern::of::<String>()];
    let mut save = SaveQueue::new();
    assert!(matches!(select(&mut rt.inboxes, &me, &patterns, &mut save), Selected::Empty));
    // Everything is set aside, the latest in front.
    assert_eq!(save.len(), 4);
    assert_eq!(save[0], 4u8);
    assert_eq!(save[3], 1u8);
    assert!(matches!(__receive(&mut rt.inboxes, &me), Received::Empty));

    __selective_restore(&mut rt.inboxes, &me, save);
    for n in 1u8..=4 {
        assert_eq!(next_message(&mut rt, &me), n);
    }
    assert!(matches!(__receive(&mut rt.inboxes, &me), Received::Empty));
}

#[test]
fn receive_goes_on_where_it_had_to_wait() {
    let mut rt = Runtime::new();
    let pid = spawn(&mut rt);
    let me = receiver(pid);
    assert!(send(&mut rt.inboxes, pid, 1u8));
    assert!(send(&mut rt.inboxes, pid, 2u8));

    let patterns = vec![Pattern::of::<u64>()];
    let mut save = SaveQueue::new();
    assert!(matches!(select(&mut rt.inboxes, &me, &patterns, &mut save), Selected::Empty));
    assert_eq!(save.len(), 2);

    // While the process waits, more arrives.
    assert!(send(&mut rt.inboxes, pid, 3u8));
    assert!(send(&mut rt.inboxes, pid, 99u64));
    assert!(send(&mut rt.inboxes, pid, 4u8));
    match select(&mut rt.inboxes, &me, &patterns, &mut save) {
        Selected::Matched { clause, envelope } => {
            assert_eq!(clause, 0);
            assert_eq!(envelope, 99u64);
        },
        _ => panic!("the wide number was due"),
    }
    assert!(save.is_empty());
    for n in 1u8..=4 {
        assert_eq!(next_message(&mut rt, &me), n);
    }
}

#[test]
fn first_clause_that_accepts_wins() {
    let patterns = vec![Pattern::of::<u8>(), Pattern::of::<u32>(), Pattern::any(), Pattern::of::<char>()];
    assert_eq!(clause_for(&patterns, &Envelope::new(1u8)), Some(0));
    assert_eq!(clause_for(&patterns, &Envelope::new(1u32)), Some(1));
    assert_eq!(clause_for(&patterns, &Envelope::new('c')), Some(2));
    assert_eq!(clause_for(&patterns, &Envelope::new(())), Some(2));

    let typed = vec![Pattern::of::<u8>(), Pattern::typed(TypeId::of::<u32>())];
    assert_eq!(clause_for(&typed, &Envelope::new(1u32)), Some(1));
    assert_eq!(clause_for(&typed, &Envelope::new(1u64)), None);
    assert_eq!(clause_for(&Vec::new(), &Envelope::new(1u64)), None);
}

#[test]
fn patterns_accept_by_type() {
    let envelope = Envelope::new(5i16);
    assert!(Pattern::of::<i16>().matches(&envelope));
    assert!(!Pattern::of::<u16>().matches(&envelope));
    assert!(Pattern::typed(TypeId::of::<i16>()).matches(&envelope));
    assert!(!Pattern::typed(TypeId::of::<i32>()).matches(&envelope));
    assert!(Pattern::any().matches(&envelope));
}

#[test]
fn pending_exit_preempts_a_selective_receive() {
    let mut rt = Runtime::new();
    let pid = spawn(&mut rt);
    let me = receiver(pid);
    assert!(send(&mut rt.inboxes, pid, 1u8));
    assert!(send_exit(&mut rt.inboxes, &pid, Exit(pid, ExitReason::Custom)));
    let patterns = vec![Pattern::any()];
    let mut save = SaveQueue::new();
    assert!(matches!(select(&mut rt.inboxes, &me, &patterns, &mut save), Selected::Preempted));
    assert!(save.is_empty());
    // Once the signal is taken, the message is there.
    assert_eq!(hastur::inbox::receive_exit(&mut rt.inboxes, pid), Some(Exit(pid, ExitReason::Custom)));
    assert!(matches!(
        select(&mut rt.inboxes, &me, &patterns, &mut save),
        Selected::Matched { clause: 0, .. }
    ));
}

#[test]
fn timeout_counts_only_where_nothing_is_accepted() {
    let mut rt = Runtime::new();
    let pid = spawn(&mut rt);
    let me = receiver(pid);
    let clauses = Receive::new(vec![Pattern::of::<u32>()], Some(After::new(1_000)));
    let mut save = SaveQueue::new();

    assert!(send(&mut rt.inboxes, pid, 'a'));
    assert!(send(&mut rt.inboxes, pid, 'b'));
    assert!(matches!(receive(&mut rt.inboxes, &me, &clauses, &mut save, 0), Progress::Empty));
    assert_eq!(save.len(), 2);
    assert!(matches!(receive(&mut rt.inboxes, &me, &clauses, &mut save, 999), Progress::Empty));

    // Past the deadline a message that is accepted is still taken.
    assert!(send(&mut rt.inboxes, pid, 5u32));
    match receive(&mut rt.inboxes, &me, &clauses, &mut save, 5_000) {
        Progress::Matched { clause, envelope } => {
            assert_eq!(clause, 0);
            assert_eq!(envelope, 5u32);
        },
        _ => panic!("the number was due"),
    }
    assert!(save.is_empty());
    assert_eq!(next_message(&mut rt, &me), 'a');
    assert_eq!(next_message(&mut rt, &me), 'b');
}

#[test]
fn timeout_gives_back_what_was_set_aside() {
    let mut rt = Runtime::new();
    let pid = spawn(&mut rt);
    let me = receiver(pid);
    let clauses = Receive::new(vec![Pattern::of::<u32>()], Some(After::new(1_000)));
    let mut save = SaveQueue::new();

    assert!(send(&mut rt.inboxes, pid, 'a'));
    assert!(matches!(receive(&mut rt.inboxes, &me, &clauses, &mut save, 10), Progress::Empty));
    assert!(send(&mut rt.inboxes, pid, 'b'));
    assert!(matches!(receive(&mut rt.inboxes, &me, &clauses, &mut save, 1_000), Progress::TimedOut));
    assert!(save.is_empty());
    assert_eq!(next_message(&mut rt, &me), 'a');
    assert_eq!(next_message(&mut rt, &me), 'b');
    assert!(matches!(__receive(&mut rt.inboxes, &me), Received::Empty));
}

#[test]
fn timeout_ends_a_preempted_receive_too() {
    let mut rt = Runtime::new();
    let pid = spawn(&mut rt);
    let me = receiver(pid);
    let clauses = Receive::new(vec![Pattern::any()], Some(After::new(50)));
    let mut save = SaveQueue::new();
    assert!(send_exit(&mut rt.inboxes, &pid, Exit(pid, ExitReason::Normal)));
    assert!(matches!(receive(&mut rt.inboxes, &me, &clauses, &mut save, 49), Progress::Preempted));
    assert!(matches!(receive(&mut rt.inboxes, &me, &clauses, &mut save, 50), Progress::TimedOut));
}

#[test]
fn without_timeout_a_receive_waits_on() {
    let mut rt = Runtime::new();
    let pid = spawn(&mut rt);
    let me = receiver(pid);
    let clauses = Receive::new(vec![Pattern::any()], None);
    let mut save = SaveQueue::new();
    assert_eq!(clauses.remaining(0), None);
    assert_eq!(clauses.remaining(u128::MAX), None);
    assert!(matches!(
        receive(&mut rt.inboxes, &me, &clauses, &mut save, u128::MAX),
        Progress::Empty
    ));
}

#[test]
fn remaining_time_runs_down_to_zero() {
    let after = After::new(1_500);
    assert_eq!(after.remaining(0), 1_500);
    assert_eq!(after.remaining(1_499), 1);
    assert_eq!(after.remaining(1_500), 0);
    assert_eq!(after.remaining(9_000), 0);
    let clauses = Receive::new(Vec::new(), Some(after));
    assert_eq!(clauses.remaining(500), Some(1_000));
    assert_eq!(clauses.remaining(2_000), Some(0));
    assert_eq!(After::new(0).remaining(0), 0);
}

#[test]
fn clauses_are_sorted_with_the_timeout_last() {
    let written: Vec<Clause<&str, u32>> =
        vec![Clause::Pattern("a"), Clause::Pattern("b"), Clause::After(30)];
    assert_eq!(arrange(written), Ok((vec!["a", "b"], Some(30))));

    let written: Vec<Clause<&str, u32>> = vec![Clause::Pattern("a"), Clause::Pattern("b")];
    assert_eq!(arrange(written), Ok((vec!["a", "b"], None)));

    let written: Vec<Clause<&str, u32>> = vec![Clause::After(30)];
    assert_eq!(arrange(written), Ok((Vec::new(), Some(30))));

    let written: Vec<Clause<&str, u32>> = Vec::new();
    assert_eq!(arrange(written), Ok((Vec::new(), None)));
}

#[test]
fn timeout_before_the_end_is_refused() {
    let written: Vec<Clause<&str, u32>> =
        vec![Clause::Pattern("a"), Clause::After(30), Clause::Pattern("b")];
    assert_eq!(arrange(written), Err(AfterNotLast { index: 1 }));

    // The first misplaced one is reported.
    let written: Vec<Clause<&str, u32>> =
        vec![Clause::After(1), Clause::After(2), Clause::Pattern("b"), Clause::After(3)];
    assert_eq!(arrange(written), Err(AfterNotLast { index: 0 }));

    let written: Vec<Clause<&str, u32>> = vec![Clause::After(1), Clause::After(2)];
    assert_eq!(arrange(written), Err(AfterNotLast { index: 0 }));
}
