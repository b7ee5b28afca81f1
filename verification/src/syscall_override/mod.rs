//! The system calls whose outcome is replaced, and the data that an
//! override carries from the entry of a call to its exit.

pub mod getrandom;
pub mod time;

use vstd::prelude::*;

verus! {

/// A system call number.
pub type SyscallNo = i64;

/// What an override notes at the entry of a system call for use at its exit.
#[derive(Clone, Copy, Debug, PartialEq, Eq, Structural)]
pub enum HandlerData {
    /// A buffer of the traced process: `buflen` bytes from address `bufptr`.
    Buffer { bufptr: usize, buflen: usize },
    /// The address of a `struct timespec` (or `struct timeval`) of the traced
    /// process.
    Timespec(usize),
    /// Nothing.
    NoData,
}

/// A system call that is being overridden, with what its entry noted.
#[derive(Clone, Copy, Debug, PartialEq, Eq, Structural)]
pub struct OverrideData {
    pub syscall_no: SyscallNo,
    pub data: HandlerData,
}

/// An override of one system call: what to do at its entry and at its exit.
pub struct SyscallOverride<E, X> {
    /// The system call that the override matches.
    pub syscall: SyscallNo,
    pub atenter: E,
    pub atexit: X,
}

/// The overrides in the order they were added.
pub struct OverrideRegistry<E, X> {
    pub overrides: Vec<SyscallOverride<E, X>>,
}

/// The system call numbers of `overrides`, in order.
pub open spec fn syscall_numbers<E, X>(overrides: Seq<SyscallOverride<E, X>>) -> Seq<SyscallNo> {
    overrides.map_values(|o: SyscallOverride<E, X>| o.syscall)
}

/// The position of the first override of `no` in `syscalls`, if there is one.
pub open spec fn first_match(syscalls: Seq<SyscallNo>, no: SyscallNo) -> Option<int> {
    if exists|i: int| 0 <= i < syscalls.len() && syscalls[i] == no {
        Some(
            choose|i: int|
                0 <= i < syscalls.len() && syscalls[i] == no && forall|j: int|
                    0 <= j < i ==> syscalls[j] != no,
        )
    } else {
        None
    }
}

impl<E, X> OverrideRegistry<E, X> {
    /// The system call numbers of the overrides, in the order they were added.
    pub open spec fn syscalls(&self) -> Seq<SyscallNo> {
        syscall_numbers(self.overrides@)
    }

    /// An empty registry.
    pub fn new() -> (reg: Self)
        ensures
            reg.overrides@.len() == 0,
    {
        OverrideRegistry { overrides: Vec::new() }
    }

    /// Adds an override of `syscall` after the existing ones.
    pub fn add(&mut self, syscall: SyscallNo, atenter: E, atexit: X) -> (reg: &mut Self)
        ensures
            reg.overrides@ == old(self).overrides@.push(
                SyscallOverride { syscall, atenter, atexit },
            ),
            *final(self) == *final(reg),
    {
        self.overrides.push(SyscallOverride { syscall, atenter, atexit });
        self
    }

    /// The position of the first override of `no`, if any.
    pub fn find_index(&self, no: SyscallNo) -> (found: Option<usize>)
        ensures
            match found {
                Some(i) => first_match(self.syscalls(), no) == Some(i as int),
                None => first_match(self.syscalls(), no) is None,
            },
            found matches Some(i) ==> i < self.overrides@.len() && self.overrides@[i as int].syscall
                == no,
    {
        let mut i: usize = 0;
        while i < self.overrides.len()
            invariant
                i <= self.overrides@.len(),
                forall|j: int| 0 <= j < i ==> self.syscalls()[j] != no,
            decreases self.overrides@.len() - i,
        {
            if self.overrides[i].syscall == no {
                proof {
                    lemma_first_match_at(self.syscalls(), no, i as int);
                }
                return Some(i);
            }
            i = i + 1;
        }
        proof {
            assert(!exists|j: int| 0 <= j < self.syscalls().len() && self.syscalls()[j] == no);
        }
        None
    }

    /// The first override of `no`, if any.
    pub fn find(&mut self, no: SyscallNo) -> (found: Option<&mut SyscallOverride<E, X>>)
        ensures
            match first_match(old(self).syscalls(), no) {
                Some(i) => {
                    &&& 0 <= i < old(self).overrides@.len()
                    &&& found is Some
                    &&& *found->0 == old(self).overrides@[i]
                    &&& final(self).overrides@ == old(self).overrides@.update(i, *final(found->0))
                },
                None => {
                    &&& found is None
                    &&& *final(self) == *old(self)
                },
            },
    {
        match self.find_index(no) {
            Some(i) => Some(&mut self.overrides[i]),
            None => None,
        }
    }
}

/// `i` is the first override of `no` when it matches and none before it does.
pub proof fn lemma_first_match_at(syscalls: Seq<SyscallNo>, no: SyscallNo, i: int)
    requires
        0 <= i < syscalls.len(),
        syscalls[i] == no,
        forall|j: int| 0 <= j < i ==> syscalls[j] != no,
    ensures
        first_match(syscalls, no) == Some(i),
{
    let c = choose|c: int|
        0 <= c < syscalls.len() && syscalls[c] == no && forall|j: int| 0 <= j < c ==> syscalls[j] != no;
    assert(0 <= c < syscalls.len() && syscalls[c] == no && forall|j: int| 0 <= j < c ==> syscalls[j] != no);
    if c < i {
    } else if c > i {
        assert(syscalls[i] != no);
    }
}

proof fn lemma_least_match_exists(syscalls: Seq<SyscallNo>, no: SyscallNo, w: int)
    requires
        0 <= w < syscalls.len(),
        syscalls[w] == no,
    ensures
        exists|i: int|
            0 <= i < syscalls.len() && syscalls[i] == no && forall|j: int|
                0 <= j < i ==> syscalls[j] != no,
    decreases w,
{
    if exists|j: int| 0 <= j < w && syscalls[j] == no {
        let j = choose|j: int| 0 <= j < w && syscalls[j] == no;
        lemma_least_match_exists(syscalls, no, j);
    } else {
        assert(0 <= w < syscalls.len() && syscalls[w] == no && forall|j: int|
            0 <= j < w ==> syscalls[j] != no);
    }
}

/// The first match, when there is one, is an override of `no` with no
/// override of `no` before it.
pub proof fn lemma_first_match_is_first(syscalls: Seq<SyscallNo>, no: SyscallNo)
    ensures
        first_match(syscalls, no) matches Some(i) ==> {
            &&& 0 <= i < syscalls.len()
            &&& syscalls[i] == no
            &&& forall|j: int| 0 <= j < i ==> syscalls[j] != no
        },
        first_match(syscalls, no) is None ==> forall|j: int|
            0 <= j < syscalls.len() ==> syscalls[j] != no,
{
    if exists|w: int| 0 <= w < syscalls.len() && syscalls[w] == no {
        let w = choose|w: int| 0 <= w < syscalls.len() && syscalls[w] == no;
        lemma_least_match_exists(syscalls, no, w);
    }
}

/// Adding an override of `no` makes `no` found: at the first earlier
/// override of `no` if there is one, otherwise at the one just added.
pub proof fn lemma_add_then_find(syscalls: Seq<SyscallNo>, no: SyscallNo, added: SyscallNo)
    ensures
        first_match(syscalls.push(added), no) == if first_match(syscalls, no) is Some {
            first_match(syscalls, no)
        } else if added == no {
            Some(syscalls.len() as int)
        } else {
            None
        },
{
    let pushed = syscalls.push(added);
    if first_match(syscalls, no) is Some {
        let i = first_match(syscalls, no)->0;
        lemma_first_match_is_first(syscalls, no);
        lemma_first_match_at(pushed, no, i);
    } else if added == no {
        lemma_first_match_is_first(syscalls, no);
        assert forall|j: int| 0 <= j < syscalls.len() implies pushed[j] != no by {
            if pushed[j] == no {
                assert(syscalls[j] == no);
            }
        }
        lemma_first_match_at(pushed, no, syscalls.len() as int);
    } else {
        lemma_first_match_is_first(syscalls, no);
        assert forall|j: int| 0 <= j < pushed.len() implies pushed[j] != no by {
            if j < syscalls.len() && pushed[j] == no {
                assert(syscalls[j] == no);
            }
        }
    }
}

} // verus!
