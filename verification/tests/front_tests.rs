use rvemu_core::emulator::ExitReason;
use rvemu_core::error::{Breach, Error};
use rvemu_core::front::{parse_isa, process_exit_code, stack_bytes, Syscall};
use rvemu_core::guest::MemAccess;
use rvemu_core::insn::InsnSet;

fn letters(s: &str) -> Vec<char> {
    s.chars().collect()
}

#[test]
fn isa_string_names_sets_in_order() {
    assert_eq!(parse_isa(&letters("I")), Ok(vec![InsnSet::I]));
    assert_eq!(parse_isa(&letters("IMA")), Ok(vec![InsnSet::I, InsnSet::M, InsnSet::A]));
    assert_eq!(parse_isa(&letters("cdfi")), Ok(vec![InsnSet::C, InsnSet::D, InsnSet::F, InsnSet::I]));
    assert_eq!(parse_isa(&letters("")), Ok(vec![]));
}

#[test]
fn isa_string_counts_a_set_once() {
    assert_eq!(parse_isa(&letters("IIMiIm")), Ok(vec![InsnSet::I, InsnSet::M]));
    assert_eq!(parse_isa(&letters("MIM")), Ok(vec![InsnSet::M, InsnSet::I]));
}

#[test]
fn isa_string_with_an_unknown_letter() {
    assert_eq!(parse_isa(&letters("IX")), Err(Error::UnknownInsnSet('X')));
    assert_eq!(parse_isa(&letters("Q")), Err(Error::UnknownInsnSet('Q')));
    assert_eq!(parse_isa(&letters("I_Z")), Err(Error::UnknownInsnSet('_')));
}

#[test]
fn stack_size_in_bytes() {
    assert_eq!(stack_bytes(8192), Some(8 * 1024 * 1024));
    assert_eq!(stack_bytes(0), Some(0));
    assert_eq!(stack_bytes(1), Some(1024));
    assert_eq!(stack_bytes(usize::MAX / 1024), Some(usize::MAX / 1024 * 1024));
    assert_eq!(stack_bytes(usize::MAX / 1024 + 1), None);
    assert_eq!(stack_bytes(usize::MAX), None);
}

#[test]
fn only_the_minimal_library_is_served() {
    assert!(Syscall::Minilib.is_implemented());
    assert!(!Syscall::Newlib.is_implemented());
    assert!(!Syscall::Glibc.is_implemented());
    assert_eq!(Syscall::Minilib.check(), Ok(()));
    assert_eq!(Syscall::Newlib.check(), Err(Error::SyscallFamilyUnimplemented));
    assert_eq!(Syscall::Glibc.check(), Err(Error::SyscallFamilyUnimplemented));
}

#[test]
fn exit_status_of_the_process() {
    assert_eq!(process_exit_code(Ok(ExitReason::Exited(42))), 42);
    assert_eq!(process_exit_code(Ok(ExitReason::Exited(0))), 0);
    assert_eq!(process_exit_code(Ok(ExitReason::Exited(-1))), -1);
    assert_eq!(process_exit_code(Ok(ExitReason::DoneStep)), 0);
    assert_eq!(process_exit_code(Ok(ExitReason::BreakpointHit(4))), 0);
    assert_eq!(process_exit_code(Err(Error::InvalidElf)), 101);
    assert_eq!(process_exit_code(Err(Error::UnknownInsn(1, 2))), 110);
}

#[test]
fn each_kind_of_error_has_its_own_exit_code() {
    let all = [
        Error::InvalidElf,
        Error::InvalidSegment,
        Error::SegmentOverlap,
        Error::OutOfBounds,
        Error::PermissionDenied,
        Error::MemAccessFault(MemAccess::Read, 0),
        Error::StackOverflow,
        Error::InsnSetUnimplemented(InsnSet::M),
        Error::InsnUnimplemented(0),
        Error::UnknownInsn(0, 0),
        Error::SyscallUnimplemented(0, 0),
        Error::MissingSyscallHandler,
        Error::UnknownInsnSet('x'),
        Error::SyscallFamilyUnimplemented,
        Error::InternalError(Breach::InsnForm),
        Error::RepeatedBreakpoint(0),
        Error::RepeatedWatchpoint(0),
        Error::BreakpointNotFound(0),
        Error::WatchpointNotFound(0),
        Error::Exited(0),
    ];
    for (i, a) in all.iter().enumerate() {
        assert_ne!(a.exit_code(), 0);
        for b in &all[i + 1..] {
            assert_ne!(a.exit_code(), b.exit_code(), "{:?} and {:?}", a, b);
        }
    }
}
