//! Decisions of a ptrace supervisor that replaces what selected system calls
//! of a traced program hand back (random bytes, the time), kept apart from
//! the ptrace, wait and process plumbing that performs them.

pub mod ptrace_mod;
pub mod setmem;
pub mod syscall_override;
pub mod word;
pub mod tracer;

pub use syscall_override::OverrideData;
