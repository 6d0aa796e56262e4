//! Process and monitor identifiers, their allocators, and the binding of a task
//! to the process it runs for.

use vstd::prelude::*;

verus! {

/// The number of distinct identifiers a 32-bit counter can hand out.
pub open spec fn id_space() -> int {
    0x1_0000_0000
}

/// Identifies one process.  The number inside is opaque to callers; two
/// identifiers are the same process exactly when their numbers agree.
#[derive(Clone, Copy, Debug, PartialEq, Eq, Hash, PartialOrd, Ord, Structural)]
pub struct Pid(pub(crate) u32);

/// Identifies one monitor.  Drawn from a counter of its own, and a type of its
/// own, so that it cannot stand in for a [`Pid`].
#[derive(Clone, Copy, Debug, PartialEq, Eq, Hash, PartialOrd, Ord, Structural)]
pub struct MonitorRef(pub(crate) u32);

/// The counter that process identifiers are drawn from.
pub struct PidGen {
    next: u32,
}

/// The counter that monitor references are drawn from.
pub struct MonitorGen {
    next: u32,
}

impl Pid {
    /// The number this identifier carries.
    pub open(crate) spec fn value(self) -> u32 {
        self.0
    }

    /// Draws a fresh identifier: the counter's current value, after which the
    /// counter moves on by one (and back to zero after the last value).
    pub fn new(ids: &mut PidGen) -> (pid: Pid)
        ensures
            pid == old(ids).issued(0),
            pid.value() == old(ids).peek(),
            final(ids).peek() as int == (old(ids).peek() + 1) % id_space(),
    {
        let pid = Pid(ids.next);
        ids.next = ids.next.wrapping_add(1);
        pid
    }

    /// The number this identifier carries.
    pub(crate) fn number(&self) -> (n: u32)
        ensures
            n == self.value(),
    {
        self.0
    }
}

impl MonitorRef {
    /// The number this reference carries.
    pub open(crate) spec fn value(self) -> u32 {
        self.0
    }

    /// Draws a fresh reference: the counter's current value, after which the
    /// counter moves on by one (and back to zero after the last value).
    pub fn new(refs: &mut MonitorGen) -> (monitor: MonitorRef)
        ensures
            monitor == old(refs).issued(0),
            monitor.value() == old(refs).peek(),
            final(refs).peek() as int == (old(refs).peek() + 1) % id_space(),
    {
        let monitor = MonitorRef(refs.next);
        refs.next = refs.next.wrapping_add(1);
        monitor
    }

    /// The number this reference carries.
    pub(crate) fn number(&self) -> (n: u32)
        ensures
            n == self.value(),
    {
        self.0
    }
}

impl PidGen {
    /// The value the next allocation will hand out.
    pub closed spec fn peek(&self) -> u32 {
        self.next
    }

    /// The identifier that the allocation `n` steps from now hands out
    /// (`n == 0` is the next one).
    pub open(crate) spec fn issued(&self, n: nat) -> Pid {
        Pid(((self.peek() + n) % id_space()) as u32)
    }

    /// A counter that starts at zero.
    pub fn new() -> (ids: PidGen)
        ensures
            ids.peek() == 0,
    {
        PidGen { next: 0 }
    }
}

impl MonitorGen {
    /// The value the next allocation will hand out.
    pub closed spec fn peek(&self) -> u32 {
        self.next
    }

    /// The reference that the allocation `n` steps from now hands out
    /// (`n == 0` is the next one).
    pub open(crate) spec fn issued(&self, n: nat) -> MonitorRef {
        MonitorRef(((self.peek() + n) % id_space()) as u32)
    }

    /// A counter that starts at zero.
    pub fn new() -> (refs: MonitorGen)
        ensures
            refs.peek() == 0,
    {
        MonitorGen { next: 0 }
    }
}

/// Reads the process counter without drawing from it.
pub fn cpid(ids: &PidGen) -> (n: u32)
    ensures
        n == ids.peek(),
{
    ids.next
}

/// The process a task is running for, if any.  A scheduler binds it before
/// each step of a process's code.
pub struct Binding {
    pid: Option<Pid>,
}

impl Binding {
    /// The bound process, if there is one.
    pub closed spec fn pid(&self) -> Option<Pid> {
        self.pid
    }

    /// A binding to no process.
    pub fn new() -> (binding: Binding)
        ensures
            binding.pid() is None,
    {
        Binding { pid: None }
    }

    /// Binds the task to `pid`, replacing any earlier binding.
    pub fn set(&mut self, pid: Pid)
        ensures
            final(self).pid() == Some(pid),
    {
        self.pid = Some(pid);
    }

    /// The bound process, if there is one.
    pub fn current(&self) -> (pid: Option<Pid>)
        ensures
            pid == self.pid(),
    {
        self.pid
    }
}

/// The process the calling task runs for.  There must be one: outside a
/// process there is no answer to give.
pub fn myself(binding: &Binding) -> (pid: Pid)
    requires
        binding.pid() is Some,
    ensures
        binding.pid() == Some(pid),
{
    match binding.pid {
        Some(pid) => pid,
        None => vstd::pervasive::unreached(),
    }
}

/// The character that stands for the digit `digit`, which is below ten.
pub open spec fn digit_char(digit: nat) -> char {
    if digit == 0 {
        '0'
    } else if digit == 1 {
        '1'
    } else if digit == 2 {
        '2'
    } else if digit == 3 {
        '3'
    } else if digit == 4 {
        '4'
    } else if digit == 5 {
        '5'
    } else if digit == 6 {
        '6'
    } else if digit == 7 {
        '7'
    } else if digit == 8 {
        '8'
    } else {
        '9'
    }
}

/// The decimal numeral of `n`, without leading zeros.
pub open spec fn decimal(n: nat) -> Seq<char>
    decreases n,
{
    if n < 10 {
        seq![digit_char(n)]
    } else {
        decimal(n / 10).push(digit_char(n % 10))
    }
}

/// How an identifier of the kind `kind` with the number `n` is written: the
/// kind, then the number in angle brackets.
pub open spec fn label(kind: Seq<char>, n: nat) -> Seq<char> {
    kind + seq!['<'] + decimal(n) + seq!['>']
}

/// The letters of `Pid`.
pub open spec fn pid_kind() -> Seq<char> {
    seq!['P', 'i', 'd']
}

/// The letters of `MonitorRef`.
pub open spec fn monitor_kind() -> Seq<char> {
    seq!['M', 'o', 'n', 'i', 't', 'o', 'r', 'R', 'e', 'f']
}

/// Collects characters into a `String` with `Iterator::collect`.  Claims that
/// the string holds the same characters in the same order.
#[verifier::external_body]
fn string_of(chars: &Vec<char>) -> (text: String)
    ensures
        text@ == chars@,
{
    chars.iter().collect()
}

/// Appends the character of the digit `digit` to `out`.
fn push_digit(digit: u32, out: &mut Vec<char>)
    requires
        digit < 10,
    ensures
        final(out)@ == old(out)@.push(digit_char(digit as nat)),
{
    let c = if digit == 0 {
        '0'
    } else if digit == 1 {
        '1'
    } else if digit == 2 {
        '2'
    } else if digit == 3 {
        '3'
    } else if digit == 4 {
        '4'
    } else if digit == 5 {
        '5'
    } else if digit == 6 {
        '6'
    } else if digit == 7 {
        '7'
    } else if digit == 8 {
        '8'
    } else {
        '9'
    };
    out.push(c);
}

/// Appends the decimal numeral of `n` to `out`.
fn push_decimal(n: u32, out: &mut Vec<char>)
    ensures
        final(out)@ == old(out)@ + decimal(n as nat),
    decreases n,
{
    if n >= 10 {
        push_decimal(n / 10, out);
    }
    push_digit(n % 10, out);
}

/// Writes `n` in angle brackets behind what `out` holds.
fn push_bracketed(n: u32, out: &mut Vec<char>)
    ensures
        final(out)@ == label(old(out)@, n as nat),
{
    out.push('<');
    push_decimal(n, out);
    out.push('>');
}

impl Pid {
    /// The identifier as text: `Pid<N>`, with the number `N` in decimal.
    pub fn to_string(&self) -> (text: String)
        ensures
            text@ == label(pid_kind(), self.value() as nat),
    {
        let mut chars: Vec<char> = Vec::new();
        chars.push('P');
        chars.push('i');
        chars.push('d');
        push_bracketed(self.0, &mut chars);
        string_of(&chars)
    }
}

impl MonitorRef {
    /// The reference as text: `MonitorRef<N>`, with the number `N` in
    /// decimal.
    pub fn to_string(&self) -> (text: String)
        ensures
            text@ == label(monitor_kind(), self.value() as nat),
    {
        let mut chars: Vec<char> = Vec::new();
        chars.push('M');
        chars.push('o');
        chars.push('n');
        chars.push('i');
        chars.push('t');
        chars.push('o');
        chars.push('r');
        chars.push('R');
        chars.push('e');
        chars.push('f');
        push_bracketed(self.0, &mut chars);
        string_of(&chars)
    }
}

/// Allocating moves the sequence of future identifiers along by one.
pub proof fn lemma_issued_after_allocation(before: PidGen, after: PidGen, n: nat)
    requires
        after.peek() as int == (before.peek() + 1) % id_space(),
    ensures
        after.issued(n) == before.issued(n + 1),
{
}

/// No identifier is handed out twice: two allocations from the same counter,
/// fewer than 2^32 apart, yield identifiers with different numbers.
pub proof fn lemma_allocated_pids_distinct(ids: PidGen, i: nat, j: nat)
    requires
        i < j,
        j - i < id_space(),
    ensures
        ids.issued(i) != ids.issued(j),
        ids.issued(i).value() != ids.issued(j).value(),
{
    lemma_offsets_distinct(ids.peek() as int, i, j);
}

/// No monitor reference is handed out twice: two allocations from the same
/// counter, fewer than 2^32 apart, yield references with different numbers.
pub proof fn lemma_allocated_monitors_distinct(refs: MonitorGen, i: nat, j: nat)
    requires
        i < j,
        j - i < id_space(),
    ensures
        refs.issued(i) != refs.issued(j),
        refs.issued(i).value() != refs.issued(j).value(),
{
    lemma_offsets_distinct(refs.peek() as int, i, j);
}

/// Two offsets less than 2^32 apart land on different residues.
proof fn lemma_offsets_distinct(start: int, i: nat, j: nat)
    requires
        0 <= start,
        i < j,
        j - i < id_space(),
    ensures
        (start + i) % id_space() != (start + j) % id_space(),
        0 <= (start + i) % id_space() < id_space(),
        0 <= (start + j) % id_space() < id_space(),
{
    let m = id_space();
    let x = start + i;
    let y = start + j;
    vstd::arithmetic::div_mod::lemma_fundamental_div_mod(x, m);
    vstd::arithmetic::div_mod::lemma_fundamental_div_mod(y, m);
    vstd::arithmetic::div_mod::lemma_mod_bound(x, m);
    vstd::arithmetic::div_mod::lemma_mod_bound(y, m);
    if x % m == y % m {
        let qx = x / m;
        let qy = y / m;
        assert(false) by (nonlinear_arith)
            requires
                0 < m * (qy - qx) < m,
                m > 0,
        ;
    }
}

} // verus!
