use randmockery::syscall_override::{HandlerData, OverrideData, OverrideRegistry};
use randmockery::tracer::{is_vanished_process, TraceAction, Tracer, WaitEvent, SIGSTOP};

const GETRANDOM: i64 = 318;
const TIME: i64 = 201;

fn registry() -> OverrideRegistry<(), ()> {
    let mut reg = OverrideRegistry::new();
    reg.add(GETRANDOM, (), ()).add(TIME, (), ());
    reg
}

#[test]
fn overridden_call_runs_enter_then_exit() {
    let reg = registry();
    let mut t = Tracer::new(100);
    assert!(t.is_tracing());
    let a = t.handle_event(&reg, WaitEvent::SyscallStop { pid: 100, orig_rax: TIME });
    assert_eq!(a, TraceAction::Enter { pid: 100, syscall_no: TIME, index: 1 });
    t.record_enter(&reg, 100, TIME, HandlerData::NoData);
    assert_eq!(
        t.procs[&100],
        Some(OverrideData { syscall_no: TIME, data: HandlerData::NoData })
    );
    let a = t.handle_event(&reg, WaitEvent::SyscallStop { pid: 100, orig_rax: TIME });
    assert_eq!(
        a,
        TraceAction::Exit {
            pid: 100,
            index: 1,
            data: OverrideData { syscall_no: TIME, data: HandlerData::NoData }
        }
    );
    assert_eq!(t.procs[&100], None);
}

#[test]
fn buffer_noted_at_entry_reaches_exit() {
    let reg = registry();
    let mut t = Tracer::new(7);
    let a = t.handle_event(&reg, WaitEvent::SyscallStop { pid: 7, orig_rax: GETRANDOM });
    assert_eq!(a, TraceAction::Enter { pid: 7, syscall_no: GETRANDOM, index: 0 });
    let data = HandlerData::Buffer { bufptr: 0x4000, buflen: 16 };
    t.record_enter(&reg, 7, GETRANDOM, data);
    let a = t.handle_event(&reg, WaitEvent::SyscallStop { pid: 7, orig_rax: GETRANDOM });
    assert_eq!(
        a,
        TraceAction::Exit { pid: 7, index: 0, data: OverrideData { syscall_no: GETRANDOM, data } }
    );
}

#[test]
fn failed_call_is_left_alone() {
    let reg = registry();
    let mut t = Tracer::new(5);
    t.handle_event(&reg, WaitEvent::SyscallStop { pid: 5, orig_rax: GETRANDOM });
    t.record_enter(&reg, 5, GETRANDOM, HandlerData::Buffer { bufptr: 1, buflen: 1 });
    let a = t.handle_event(&reg, WaitEvent::SyscallStop { pid: 5, orig_rax: -14 });
    assert_eq!(a, TraceAction::FailedSyscall { pid: 5, syscall_no: GETRANDOM });
    assert_eq!(t.procs[&5], None);
}

#[test]
fn other_calls_pass_through() {
    let reg = registry();
    let mut t = Tracer::new(5);
    let a = t.handle_event(&reg, WaitEvent::SyscallStop { pid: 5, orig_rax: 0 });
    assert_eq!(a, TraceAction::Resume { pid: 5 });
    assert_eq!(t.procs[&5], None);
    assert_eq!(t.procs.len(), 1);
}

#[test]
fn new_processes_and_signals() {
    let reg = registry();
    let mut t = Tracer::new(5);
    assert_eq!(t.handle_event(&reg, WaitEvent::PtraceEvent { pid: 5 }), TraceAction::Resume { pid: 5 });
    assert_eq!(
        t.handle_event(&reg, WaitEvent::Stopped { pid: 6, signal: SIGSTOP }),
        TraceAction::NewProcess { pid: 6 }
    );
    assert!(t.traces(6));
    assert_eq!(
        t.handle_event(&reg, WaitEvent::Stopped { pid: 6, signal: SIGSTOP }),
        TraceAction::Signal { pid: 6, signal: SIGSTOP }
    );
    assert_eq!(
        t.handle_event(&reg, WaitEvent::Stopped { pid: 5, signal: 2 }),
        TraceAction::Signal { pid: 5, signal: 2 }
    );
    assert_eq!(
        t.handle_event(&reg, WaitEvent::Stopped { pid: 9, signal: 2 }),
        TraceAction::Signal { pid: 9, signal: 2 }
    );
    assert!(!t.traces(9));
    assert_eq!(t.procs.len(), 2);
}

#[test]
fn exit_code_comes_from_the_root() {
    let reg = registry();
    let mut t = Tracer::new(5);
    t.handle_event(&reg, WaitEvent::Stopped { pid: 6, signal: SIGSTOP });
    assert_eq!(
        t.handle_event(&reg, WaitEvent::Exited { pid: 6, code: 9 }),
        TraceAction::Quit { pid: 6, code: 9 }
    );
    assert_eq!(t.exitcode, None);
    assert!(t.is_tracing());
    assert_eq!(
        t.handle_event(&reg, WaitEvent::Exited { pid: 5, code: 1 }),
        TraceAction::Quit { pid: 5, code: 1 }
    );
    assert_eq!(t.exitcode, Some(1));
    assert!(!t.is_tracing());
}

#[test]
fn processes_are_tracked_apart() {
    let reg = registry();
    let mut t = Tracer::new(5);
    t.handle_event(&reg, WaitEvent::Stopped { pid: 6, signal: SIGSTOP });
    t.handle_event(&reg, WaitEvent::SyscallStop { pid: 5, orig_rax: TIME });
    t.record_enter(&reg, 5, TIME, HandlerData::NoData);
    // process 6 enters getrandom meanwhile; 5 still waits for its exit
    assert_eq!(
        t.handle_event(&reg, WaitEvent::SyscallStop { pid: 6, orig_rax: GETRANDOM }),
        TraceAction::Enter { pid: 6, syscall_no: GETRANDOM, index: 0 }
    );
    assert_eq!(t.procs[&5], Some(OverrideData { syscall_no: TIME, data: HandlerData::NoData }));
}

#[test]
fn only_vanished_processes_are_tolerated() {
    assert!(is_vanished_process(3));
    assert!(!is_vanished_process(1));
    assert!(!is_vanished_process(22));
}
