# randmockery

Runs a program under ptrace and answers some of its system calls with
reproducible values: `getrandom` fills its buffer with bytes of a generator
with a fixed seed, `time` answers with a logical clock that counts the calls,
and `clock_gettime` answers with a zeroed `struct timespec`.

Layout:

- `src/` is the verified library (Verus):
  - `tracer.rs`: the supervisor's state machine: which processes it traces,
    which of them are inside an overridden system call, the exit code of the
    root process; and the laws that tie entry and exit handlers together.
  - `setmem.rs`: the word-by-word fill of a buffer of the traced process,
    with the proof that it stores exactly the generated bytes (or, for a
    zero fill, zeros) and keeps every other byte.
  - `word.rs`: little-endian words and their bytes.
  - `syscall_override/`: the registry of overrides and what the overrides of
    `getrandom`, `time`, `clock_gettime` and `gettimeofday` compute.
  - `ptrace_mod.rs`: the x86_64 user-area layout.
- `app/` spawns the traced program and carries out the ptrace and wait
  requests that the library's decisions call for.
- `tests/` runs the library on concrete values.
