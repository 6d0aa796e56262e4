//! An actor runtime in the Erlang style, written as a sequential core.
//!
//! Processes are identified by a [`Pid`], own a mailbox, and observe one
//! another's termination through links.  Every operation of the runtime is a
//! function from the current tables to the next ones: delivering a message,
//! receiving selectively, arbitrating an exit signal, tearing a process down.
//! A scheduler drives these functions; the functions themselves never block,
//! and each says in its result whom the scheduler has to wake.

pub mod envelope;
pub mod inbox;
pub mod kernel;
pub mod pid;
pub mod queue;
pub mod receive;
pub mod spawn;
pub mod table;

pub use envelope::Envelope;
pub use inbox::{
    __receive, __selective_restore, send, send_exit, send_raw, Exit, Inbox, InboxView, Inboxes,
    Received, SaveQueue,
};
pub use kernel::{exit, get_trap_exit, link, trap_exit, ExitReason, Kernel, KernelView, Kernels};
pub use pid::{cpid, myself, Binding, MonitorGen, MonitorRef, Pid, PidGen};
pub use receive::{
    arrange, receive, select, After, AfterNotLast, Clause, Pattern, Progress, Receive, Selected,
};
pub use spawn::{
    __spawn_opt, arbitrate, concluded, settle, spawn, spawn_link, spawn_opt, supervise, terminate,
    Runtime, SpawnOpt, SpawnOptBuilder, Step, Verdict,
};
