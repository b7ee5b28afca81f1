//! The x86_64 user-area layout that `PTRACE_PEEKUSER` and `PTRACE_POKEUSER`
//! address, and the registers that carry system call arguments.

use vstd::prelude::*;

verus! {

/// A general-purpose register of the x86_64 `user_regs_struct`, in its
/// order inside the user area.
#[derive(Clone, Copy, Debug, PartialEq, Eq, Structural)]
#[allow(non_camel_case_types)]
pub enum Register {
    R15,
    R14,
    R13,
    R12,
    RBP,
    RBX,
    R11,
    R10,
    R9,
    R8,
    RAX,
    RCX,
    RDX,
    RSI,
    RDI,
    ORIG_RAX,
    RIP,
    CS,
    EFLAGS,
    RSP,
    SS,
    FS_BASE,
    GS_BASE,
    DS,
    ES,
    FS,
    GS,
}

/// The number of registers in the user area.
pub const REGISTER_COUNT: u64 = 27;

/// The size in bytes of one register slot of the user area.
pub const SLOT_SIZE: u64 = 8;

impl Register {
    /// Position of the register inside `user_regs_struct`.
    pub open spec fn slot(self) -> nat {
        match self {
            Register::R15 => 0,
            Register::R14 => 1,
            Register::R13 => 2,
            Register::R12 => 3,
            Register::RBP => 4,
            Register::RBX => 5,
            Register::R11 => 6,
            Register::R10 => 7,
            Register::R9 => 8,
            Register::R8 => 9,
            Register::RAX => 10,
            Register::RCX => 11,
            Register::RDX => 12,
            Register::RSI => 13,
            Register::RDI => 14,
            Register::ORIG_RAX => 15,
            Register::RIP => 16,
            Register::CS => 17,
            Register::EFLAGS => 18,
            Register::RSP => 19,
            Register::SS => 20,
            Register::FS_BASE => 21,
            Register::GS_BASE => 22,
            Register::DS => 23,
            Register::ES => 24,
            Register::FS => 25,
            Register::GS => 26,
        }
    }

    /// Byte offset of the register inside the user area, as handed to
    /// `PTRACE_PEEKUSER` and `PTRACE_POKEUSER`.
    pub fn offset(&self) -> (offset: u64)
        ensures
            offset == SLOT_SIZE * self.slot(),
    {
        let slot: u64 = match self {
            Register::R15 => 0,
            Register::R14 => 1,
            Register::R13 => 2,
            Register::R12 => 3,
            Register::RBP => 4,
            Register::RBX => 5,
            Register::R11 => 6,
            Register::R10 => 7,
            Register::R9 => 8,
            Register::R8 => 9,
            Register::RAX => 10,
            Register::RCX => 11,
            Register::RDX => 12,
            Register::RSI => 13,
            Register::RDI => 14,
            Register::ORIG_RAX => 15,
            Register::RIP => 16,
            Register::CS => 17,
            Register::EFLAGS => 18,
            Register::RSP => 19,
            Register::SS => 20,
            Register::FS_BASE => 21,
            Register::GS_BASE => 22,
            Register::DS => 23,
            Register::ES => 24,
            Register::FS => 25,
            Register::GS => 26,
        };
        SLOT_SIZE * slot
    }
}

/// The registers that carry the arguments of a system call under the
/// x86_64 Linux calling convention, in argument order.
pub open spec fn syscall_arg_registers() -> Seq<Register> {
    seq![Register::RDI, Register::RSI, Register::RDX, Register::R10, Register::R8, Register::R9]
}

/// The register that carries argument `no` (counted from 0) of a system
/// call. A system call has at most six arguments (`no < 6`), all passed in
/// registers.
pub fn syscall_arg_register(no: u64) -> (reg: Register)
    requires
        no < 6,
    ensures
        reg == syscall_arg_registers()[no as int],
{
    match no {
        0 => Register::RDI,
        1 => Register::RSI,
        2 => Register::RDX,
        3 => Register::R10,
        4 => Register::R8,
        _ => Register::R9,
    }
}

/// Distinct registers occupy distinct, word-aligned slots inside the user
/// area.
pub proof fn lemma_register_offsets_distinct(a: Register, b: Register)
    ensures
        a.slot() < REGISTER_COUNT,
        (SLOT_SIZE * a.slot()) % (SLOT_SIZE as int) == 0,
        a != b ==> a.slot() != b.slot(),
{
}

/// The fields of the x86_64 `struct user_regs_struct` (`<sys/user.h>`), in
/// declaration order: the user area that `PTRACE_PEEKUSER` reads starts with
/// them, one 8-byte word each.
pub open spec fn user_regs_struct_fields() -> Seq<Register> {
    seq![
        Register::R15, Register::R14, Register::R13, Register::R12, Register::RBP,
        Register::RBX, Register::R11, Register::R10, Register::R9, Register::R8,
        Register::RAX, Register::RCX, Register::RDX, Register::RSI, Register::RDI,
        Register::ORIG_RAX, Register::RIP, Register::CS, Register::EFLAGS, Register::RSP,
        Register::SS, Register::FS_BASE, Register::GS_BASE, Register::DS, Register::ES,
        Register::FS, Register::GS,
    ]
}

/// The offset of the register declared `i`-th in `user_regs_struct` is
/// `8 * i`, and every register is declared there exactly once.
pub proof fn lemma_offset_is_field_position(i: int)
    requires
        0 <= i < REGISTER_COUNT,
    ensures
        user_regs_struct_fields().len() == REGISTER_COUNT,
        user_regs_struct_fields()[i].slot() == i,
        SLOT_SIZE * user_regs_struct_fields()[i].slot() == 8 * i,
{
}

/// Every register is a field of `user_regs_struct`, at the position its
/// offset gives.
pub proof fn lemma_every_register_is_a_field(r: Register)
    ensures
        r.slot() < user_regs_struct_fields().len(),
        user_regs_struct_fields()[r.slot() as int] == r,
{
}

/// The system call arguments live at these user-area offsets:
/// `RDI` 112, `RSI` 104, `RDX` 96, `R10` 56, `R8` 72, `R9` 64.
pub proof fn lemma_syscall_arg_offsets()
    ensures
        SLOT_SIZE * syscall_arg_registers()[0].slot() == 112,
        SLOT_SIZE * syscall_arg_registers()[1].slot() == 104,
        SLOT_SIZE * syscall_arg_registers()[2].slot() == 96,
        SLOT_SIZE * syscall_arg_registers()[3].slot() == 56,
        SLOT_SIZE * syscall_arg_registers()[4].slot() == 72,
        SLOT_SIZE * syscall_arg_registers()[5].slot() == 64,
        SLOT_SIZE * Register::ORIG_RAX.slot() == 120,
        SLOT_SIZE * Register::RAX.slot() == 80,
{
}

} // verus!
