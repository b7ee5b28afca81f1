//! The supervisor's bookkeeping while it traces a process tree: which
//! processes it follows, which of them are inside an overridden system call,
//! and what the exit code of the root process was.
//!
//! The caller waits for the next stop of a traced process, turns it into a
//! `WaitEvent`, lets `Tracer::handle_event` decide, and carries out the
//! `TraceAction` it gets back (running an override's entry or exit handler,
//! resuming the process, reporting).

use vstd::prelude::*;
use std::collections::HashMap;
use crate::syscall_override::{OverrideData, HandlerData, OverrideRegistry, SyscallNo, first_match, lemma_first_match_is_first};

verus! {

broadcast use vstd::std_specs::hash::group_hash_axioms;

/// The number of `SIGSTOP` on Linux.
pub const SIGSTOP: i32 = 19;

/// The number of `ESRCH` ("no such process") on Linux.
pub const ESRCH: i32 = 3;

/// A stop of a traced process, as `wait` reports it.
#[derive(Clone, Copy, Debug, PartialEq, Eq, Structural)]
pub enum WaitEvent {
    /// The process exited with `code`.
    Exited { pid: i32, code: i8 },
    /// The process stopped at the entry or the exit of a system call;
    /// `orig_rax` is what its `ORIG_RAX` register held. At an entry that is
    /// the system call number; at the exit of an overridden call a negative
    /// value is taken as the mark of a failed call.
    SyscallStop { pid: i32, orig_rax: i64 },
    /// The process stopped at a ptrace event (a fork, a clone, ...).
    PtraceEvent { pid: i32 },
    /// The process stopped on `signal`.
    Stopped { pid: i32, signal: i32 },
}

/// What the supervisor is to do about a stop.
#[derive(Clone, Copy, Debug, PartialEq, Eq, Structural)]
pub enum TraceAction {
    /// The process is gone: report its exit code; it is not resumed.
    Quit { pid: i32, code: i8 },
    /// Run the entry handler of override `index` (which matches
    /// `syscall_no`), hand what it returns to `Tracer::record_enter`, and
    /// resume the process.
    Enter { pid: i32, syscall_no: SyscallNo, index: usize },
    /// Run the exit handler of override `index` with `data`, and resume the
    /// process.
    Exit { pid: i32, index: usize, data: OverrideData },
    /// The exit stop of an overridden system call came with a negative
    /// `orig_rax`, which marks the call as failed: report it, leave its
    /// outcome alone, and resume the process.
    FailedSyscall { pid: i32, syscall_no: SyscallNo },
    /// Resume the process.
    Resume { pid: i32 },
    /// A new process joined the traced tree: resume it.
    NewProcess { pid: i32 },
    /// The process received a signal: report it and resume the process.
    Signal { pid: i32, signal: i32 },
}

/// The traced processes: each one maps to the override that it is inside
/// of, if any.
pub type ProcInfo = Map<i32, Option<OverrideData>>;

/// Every process that is inside an overridden system call is inside one
/// that `syscalls` holds an override for.
pub open spec fn overrides_known(procs: ProcInfo, syscalls: Seq<SyscallNo>) -> bool {
    forall|pid: i32|
        #![trigger procs[pid]]
        procs.contains_key(pid) && procs[pid] is Some ==> first_match(
            syscalls,
            procs[pid]->0.syscall_no,
        ) is Some
}

/// What a system call stop of `pid` does to the processes, and the action
/// it asks for.
pub open spec fn syscall_stop_outcome(
    procs: ProcInfo,
    syscalls: Seq<SyscallNo>,
    pid: i32,
    orig_rax: i64,
) -> (ProcInfo, TraceAction) {
    let after = procs.insert(pid, None);
    match procs[pid] {
        None => match first_match(syscalls, orig_rax) {
            Some(i) => (after, TraceAction::Enter { pid, syscall_no: orig_rax, index: i as usize }),
            None => (after, TraceAction::Resume { pid }),
        },
        Some(d) => if orig_rax < 0 {
            (after, TraceAction::FailedSyscall { pid, syscall_no: d.syscall_no })
        } else {
            (
                after,
                TraceAction::Exit {
                    pid,
                    index: first_match(syscalls, d.syscall_no)->0 as usize,
                    data: d,
                },
            )
        },
    }
}

/// What an event does to the processes and to the exit code, and the
/// action it asks for.
pub open spec fn event_outcome(
    procs: ProcInfo,
    root: i32,
    exitcode: Option<i8>,
    syscalls: Seq<SyscallNo>,
    ev: WaitEvent,
) -> (ProcInfo, Option<i8>, TraceAction) {
    match ev {
        WaitEvent::Exited { pid, code } => (
            procs.remove(pid),
            if pid == root {
                Some(code)
            } else {
                exitcode
            },
            TraceAction::Quit { pid, code },
        ),
        WaitEvent::SyscallStop { pid, orig_rax } => {
            let (after, action) = syscall_stop_outcome(procs, syscalls, pid, orig_rax);
            (after, exitcode, action)
        },
        WaitEvent::PtraceEvent { pid } => (procs, exitcode, TraceAction::Resume { pid }),
        WaitEvent::Stopped { pid, signal } => if signal == SIGSTOP && !procs.contains_key(pid) {
            (procs.insert(pid, None), exitcode, TraceAction::NewProcess { pid })
        } else {
            (procs, exitcode, TraceAction::Signal { pid, signal })
        },
    }
}

/// The events that the supervisor can take in a state: a system call stop
/// only of a process it traces, and an exit of the root process only while
/// its exit code is still unknown.
pub open spec fn event_allowed(procs: ProcInfo, root: i32, exitcode: Option<i8>, ev: WaitEvent) -> bool {
    &&& ev matches WaitEvent::SyscallStop { pid, .. } ==> procs.contains_key(pid)
    &&& ev matches WaitEvent::Exited { pid, .. } ==> (pid == root ==> exitcode is None)
}

/// The supervisor's state.
pub struct Tracer {
    /// The process the tracing started with.
    pub root: i32,
    /// The traced processes.
    pub procs: HashMap<i32, Option<OverrideData>>,
    /// The exit code of the root process, once it exited.
    pub exitcode: Option<i8>,
}

impl Tracer {
    /// Starts tracing with `root` as the only process, outside any system
    /// call.
    pub fn new(root: i32) -> (t: Tracer)
        ensures
            t.root == root,
            t.procs@ == Map::<i32, Option<OverrideData>>::empty().insert(root, None),
            t.exitcode is None,
    {
        let mut procs: HashMap<i32, Option<OverrideData>> = HashMap::new();
        procs.insert(root, None);
        Tracer { root, procs, exitcode: None }
    }

    /// Whether any traced process is left.
    pub fn is_tracing(&self) -> (tracing: bool)
        ensures
            tracing == (self.procs@.len() > 0),
    {
        self.procs.len() > 0
    }

    /// Whether `pid` is a traced process.
    pub fn traces(&self, pid: i32) -> (traced: bool)
        ensures
            traced == self.procs@.contains_key(pid),
    {
        self.procs.contains_key(&pid)
    }

    /// Decides what to do about the stop `ev`, with the overrides of `reg`.
    pub fn handle_event<E, X>(&mut self, reg: &OverrideRegistry<E, X>, ev: WaitEvent) -> (action:
        TraceAction)
        requires
            overrides_known(old(self).procs@, reg.syscalls()),
            event_allowed(old(self).procs@, old(self).root, old(self).exitcode, ev),
        ensures
            ({
                let (procs, exitcode, expected) = event_outcome(
                    old(self).procs@,
                    old(self).root,
                    old(self).exitcode,
                    reg.syscalls(),
                    ev,
                );
                &&& final(self).procs@ == procs
                &&& final(self).exitcode == exitcode
                &&& action == expected
            }),
            final(self).root == old(self).root,
            overrides_known(final(self).procs@, reg.syscalls()),
    {
        match ev {
            WaitEvent::Exited { pid, code } => {
                self.procs.remove(&pid);
                if pid == self.root {
                    self.exitcode = Some(code);
                }
                TraceAction::Quit { pid, code }
            },
            WaitEvent::SyscallStop { pid, orig_rax } => {
                let prev = self.procs.insert(pid, None);
                match prev {
                    Some(Some(d)) => {
                        if orig_rax < 0 {
                            TraceAction::FailedSyscall { pid, syscall_no: d.syscall_no }
                        } else {
                            match reg.find_index(d.syscall_no) {
                                Some(index) => TraceAction::Exit { pid, index, data: d },
                                None => {
                                    assert(false);
                                    TraceAction::Resume { pid }
                                },
                            }
                        }
                    },
                    _ => {
                        match reg.find_index(orig_rax) {
                            Some(index) => TraceAction::Enter { pid, syscall_no: orig_rax, index },
                            None => TraceAction::Resume { pid },
                        }
                    },
                }
            },
            WaitEvent::PtraceEvent { pid } => TraceAction::Resume { pid },
            WaitEvent::Stopped { pid, signal } => {
                if signal == SIGSTOP && !self.procs.contains_key(&pid) {
                    self.procs.insert(pid, None);
                    TraceAction::NewProcess { pid }
                } else {
                    TraceAction::Signal { pid, signal }
                }
            },
        }
    }

    /// Notes that the entry handler of the override of `syscall_no` ran for
    /// `pid` and returned `data`, to be handed to its exit handler.
    pub fn record_enter<E, X>(
        &mut self,
        reg: &OverrideRegistry<E, X>,
        pid: i32,
        syscall_no: SyscallNo,
        data: HandlerData,
    )
        requires
            overrides_known(old(self).procs@, reg.syscalls()),
            first_match(reg.syscalls(), syscall_no) is Some,
        ensures
            final(self).procs@ == old(self).procs@.insert(
                pid,
                Some(OverrideData { syscall_no, data }),
            ),
            final(self).root == old(self).root,
            final(self).exitcode == old(self).exitcode,
            overrides_known(final(self).procs@, reg.syscalls()),
    {
        self.procs.insert(pid, Some(OverrideData { syscall_no, data }));
    }
}

/// Whether an error of a ptrace request only says that the process is gone
/// (it died while its stop was being handled), which the supervisor reports
/// and carries on from; any other error stops the supervisor.
pub fn is_vanished_process(errno: i32) -> (vanished: bool)
    ensures
        vanished == (errno == ESRCH),
{
    errno == ESRCH
}

/// The process that an event is about.
pub open spec fn event_pid(ev: WaitEvent) -> i32 {
    match ev {
        WaitEvent::Exited { pid, .. } => pid,
        WaitEvent::SyscallStop { pid, .. } => pid,
        WaitEvent::PtraceEvent { pid } => pid,
        WaitEvent::Stopped { pid, .. } => pid,
    }
}

/// An overridden system call is entered and then left (its exit stop
/// reports a non-negative `ORIG_RAX`): the entry asks for the entry handler
/// of the first override of the call, the exit hands the exit handler of
/// that same override exactly what the entry handler returned, and
/// afterwards the process is outside any override again.
pub proof fn lemma_enter_then_exit(
    procs: ProcInfo,
    syscalls: Seq<SyscallNo>,
    pid: i32,
    no: SyscallNo,
    data: HandlerData,
    exit_orig_rax: i64,
)
    requires
        procs.contains_key(pid),
        procs[pid] is None,
        first_match(syscalls, no) is Some,
        exit_orig_rax >= 0,
    ensures
        ({
            let index = first_match(syscalls, no)->0 as usize;
            let (entered, enter_action) = syscall_stop_outcome(procs, syscalls, pid, no);
            let recorded = entered.insert(pid, Some(OverrideData { syscall_no: no, data }));
            let (left, exit_action) = syscall_stop_outcome(recorded, syscalls, pid, exit_orig_rax);
            &&& enter_action == TraceAction::Enter { pid, syscall_no: no, index }
            &&& exit_action == TraceAction::Exit {
                pid,
                index,
                data: OverrideData { syscall_no: no, data },
            }
            &&& left == procs
        }),
{
    let (entered, _) = syscall_stop_outcome(procs, syscalls, pid, no);
    let recorded = entered.insert(pid, Some(OverrideData { syscall_no: no, data }));
    let (left, _) = syscall_stop_outcome(recorded, syscalls, pid, exit_orig_rax);
    assert(left =~= procs);
}

/// When the exit stop of an overridden system call reports a negative
/// `ORIG_RAX`, the call counts as failed and its exit handler is not run:
/// the failure is reported and the process is outside any override again.
pub proof fn lemma_failed_call_untouched(
    procs: ProcInfo,
    syscalls: Seq<SyscallNo>,
    pid: i32,
    no: SyscallNo,
    data: HandlerData,
    exit_orig_rax: i64,
)
    requires
        procs.contains_key(pid),
        procs[pid] is None,
        exit_orig_rax < 0,
    ensures
        ({
            let recorded = procs.insert(pid, Some(OverrideData { syscall_no: no, data }));
            let (left, action) = syscall_stop_outcome(recorded, syscalls, pid, exit_orig_rax);
            &&& action == TraceAction::FailedSyscall { pid, syscall_no: no }
            &&& left == procs
        }),
{
    let recorded = procs.insert(pid, Some(OverrideData { syscall_no: no, data }));
    let (left, _) = syscall_stop_outcome(recorded, syscalls, pid, exit_orig_rax);
    assert(left =~= procs);
}

/// A system call without an override passes through: the process is only
/// resumed and nothing is noted.
pub proof fn lemma_unmatched_call_passes(
    procs: ProcInfo,
    syscalls: Seq<SyscallNo>,
    pid: i32,
    no: SyscallNo,
)
    requires
        procs.contains_key(pid),
        procs[pid] is None,
        first_match(syscalls, no) is None,
    ensures
        syscall_stop_outcome(procs, syscalls, pid, no) == (procs, TraceAction::Resume { pid }),
{
    assert(procs.insert(pid, None) =~= procs);
}

/// The exit code changes only when the root process exits, and then it
/// becomes the root's exit code.
pub proof fn lemma_exitcode_from_root_only(
    procs: ProcInfo,
    root: i32,
    exitcode: Option<i8>,
    syscalls: Seq<SyscallNo>,
    ev: WaitEvent,
)
    ensures
        ({
            let (_, after, _) = event_outcome(procs, root, exitcode, syscalls, ev);
            after != exitcode ==> (ev matches WaitEvent::Exited { pid, code } && pid == root && after
                == Some(code))
        }),
{
}

/// The traced processes change only at an exit, which drops the process,
/// and at the first `SIGSTOP` of a process, which adds it; every other event
/// keeps the set of traced processes. No event changes what is noted for
/// another process.
pub proof fn lemma_traced_set(
    procs: ProcInfo,
    root: i32,
    exitcode: Option<i8>,
    syscalls: Seq<SyscallNo>,
    ev: WaitEvent,
    other: i32,
)
    requires
        event_allowed(procs, root, exitcode, ev),
        other != event_pid(ev),
    ensures
        ({
            let (after, _, _) = event_outcome(procs, root, exitcode, syscalls, ev);
            let pid = event_pid(ev);
            &&& after.dom() == match ev {
                WaitEvent::Exited { .. } => procs.dom().remove(pid),
                WaitEvent::Stopped { signal, .. } => if signal == SIGSTOP {
                    procs.dom().insert(pid)
                } else {
                    procs.dom()
                },
                _ => procs.dom(),
            }
            &&& after.contains_key(other) == procs.contains_key(other)
            &&& procs.contains_key(other) ==> after[other] == procs[other]
        }),
{
    let (after, _, _) = event_outcome(procs, root, exitcode, syscalls, ev);
    let pid = event_pid(ev);
    match ev {
        WaitEvent::Exited { .. } => {
            assert(after.dom() =~= procs.dom().remove(pid));
        },
        WaitEvent::Stopped { signal, .. } => {
            if signal == SIGSTOP {
                assert(after.dom() =~= procs.dom().insert(pid));
            } else {
                assert(after.dom() =~= procs.dom());
            }
        },
        WaitEvent::SyscallStop { .. } => {
            assert(after.dom() =~= procs.dom());
        },
        _ => {},
    }
}

/// The process that an action is about.
pub open spec fn action_pid(action: TraceAction) -> i32 {
    match action {
        TraceAction::Quit { pid, .. } => pid,
        TraceAction::Enter { pid, .. } => pid,
        TraceAction::Exit { pid, .. } => pid,
        TraceAction::FailedSyscall { pid, .. } => pid,
        TraceAction::Resume { pid } => pid,
        TraceAction::NewProcess { pid } => pid,
        TraceAction::Signal { pid, .. } => pid,
    }
}

/// Every action is about the process of the event, and the process is left
/// stopped (`Quit`) exactly when the event is its exit: every other stop is
/// answered by resuming it.
pub proof fn lemma_only_exit_quits(
    procs: ProcInfo,
    root: i32,
    exitcode: Option<i8>,
    syscalls: Seq<SyscallNo>,
    ev: WaitEvent,
)
    ensures
        ({
            let (_, _, action) = event_outcome(procs, root, exitcode, syscalls, ev);
            &&& action_pid(action) == event_pid(ev)
            &&& (action is Quit <==> ev is Exited)
            &&& ev matches WaitEvent::Exited { pid, code } ==> action == TraceAction::Quit {
                pid,
                code,
            }
        }),
{
}

/// When the root process exits with code `code` (any code, 0 included)
/// while its exit code is unknown, the exit code becomes `code`; the exit of
/// any other process leaves the exit code as it was.
pub proof fn lemma_root_exit_sets_code(
    procs: ProcInfo,
    root: i32,
    exitcode: Option<i8>,
    syscalls: Seq<SyscallNo>,
    pid: i32,
    code: i8,
)
    ensures
        ({
            let (after, new_code, _) = event_outcome(
                procs,
                root,
                exitcode,
                syscalls,
                WaitEvent::Exited { pid, code },
            );
            &&& pid == root ==> new_code == Some(code)
            &&& pid != root ==> new_code == exitcode
            &&& !after.contains_key(pid)
        }),
{
}

/// A signal stop never ends the tracing of a process: the first `SIGSTOP`
/// of an untraced process adopts it (outside any system call) and resumes
/// it; any other signal stop is reported and resumed. Neither changes the
/// exit code.
pub proof fn lemma_signal_stop_resumes(
    procs: ProcInfo,
    root: i32,
    exitcode: Option<i8>,
    syscalls: Seq<SyscallNo>,
    pid: i32,
    signal: i32,
)
    ensures
        ({
            let (after, new_code, action) = event_outcome(
                procs,
                root,
                exitcode,
                syscalls,
                WaitEvent::Stopped { pid, signal },
            );
            &&& new_code == exitcode
            &&& action == TraceAction::NewProcess { pid } || action == TraceAction::Signal {
                pid,
                signal,
            }
            &&& action is NewProcess <==> (signal == SIGSTOP && !procs.contains_key(pid))
            &&& after.contains_key(pid) <==> (procs.contains_key(pid) || signal == SIGSTOP)
            &&& action is NewProcess ==> after[pid] is None
            &&& action is Signal ==> after == procs
        }),
{
}

/// A ptrace event (a fork or clone of a traced process) only resumes the
/// process: the traced processes and the exit code stay as they were.
pub proof fn lemma_ptrace_event_resumes(
    procs: ProcInfo,
    root: i32,
    exitcode: Option<i8>,
    syscalls: Seq<SyscallNo>,
    pid: i32,
)
    ensures
        event_outcome(procs, root, exitcode, syscalls, WaitEvent::PtraceEvent { pid }) == (
            procs,
            exitcode,
            TraceAction::Resume { pid },
        ),
{
}

/// The handlers that a system call stop asks for are those of an override
/// of the right call: the entry handler of an override of the number that
/// the stop reports, the exit handler of an override of the call that was
/// entered. A system call stop never changes which processes are traced,
/// and leaves the process outside any override.
pub proof fn lemma_syscall_stop_handlers(
    procs: ProcInfo,
    syscalls: Seq<SyscallNo>,
    pid: i32,
    orig_rax: i64,
)
    requires
        procs.contains_key(pid),
        overrides_known(procs, syscalls),
        syscalls.len() <= usize::MAX,
    ensures
        ({
            let (after, action) = syscall_stop_outcome(procs, syscalls, pid, orig_rax);
            &&& after.dom() == procs.dom()
            &&& after[pid] is None
            &&& action_pid(action) == pid
            &&& !(action is Quit) && !(action is NewProcess) && !(action is Signal)
            &&& action matches TraceAction::Enter { syscall_no, index, .. } ==> {
                &&& procs[pid] is None
                &&& syscall_no == orig_rax
                &&& index < syscalls.len()
                &&& syscalls[index as int] == orig_rax
            }
            &&& action matches TraceAction::Exit { index, data, .. } ==> {
                &&& procs[pid] == Some(data)
                &&& index < syscalls.len()
                &&& syscalls[index as int] == data.syscall_no
            }
            &&& action matches TraceAction::FailedSyscall { syscall_no, .. } ==> {
                &&& procs[pid] is Some
                &&& procs[pid]->0.syscall_no == syscall_no
                &&& orig_rax < 0
            }
            &&& action is Resume ==> procs[pid] is None && first_match(syscalls, orig_rax) is None
        }),
{
    lemma_first_match_is_first(syscalls, orig_rax);
    if procs[pid] is Some {
        lemma_first_match_is_first(syscalls, procs[pid]->0.syscall_no);
    }
    let (after, _) = syscall_stop_outcome(procs, syscalls, pid, orig_rax);
    assert(after.dom() =~= procs.dom());
}

} // verus!
