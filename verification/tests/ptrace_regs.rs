use randmockery::ptrace_mod::{syscall_arg_register, Register};

#[test]
fn register_offsets_follow_user_regs_struct() {
    assert_eq!(Register::R15.offset(), 0);
    assert_eq!(Register::RAX.offset(), 80);
    assert_eq!(Register::RSI.offset(), 104);
    assert_eq!(Register::RDI.offset(), 112);
    assert_eq!(Register::ORIG_RAX.offset(), 120);
    assert_eq!(Register::GS.offset(), 208);
}

#[test]
fn syscall_arguments_registers() {
    assert_eq!(syscall_arg_register(0), Register::RDI);
    assert_eq!(syscall_arg_register(1), Register::RSI);
    assert_eq!(syscall_arg_register(2), Register::RDX);
    assert_eq!(syscall_arg_register(3), Register::R10);
    assert_eq!(syscall_arg_register(4), Register::R8);
    assert_eq!(syscall_arg_register(5), Register::R9);
}
