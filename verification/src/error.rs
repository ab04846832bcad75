//! The error surface shared by every part of the emulator.
use vstd::prelude::*;
use crate::guest::MemAccess;
use crate::insn::InsnSet;

verus! {

/// What kind of internal invariant was found broken.
#[derive(Debug, Clone, Copy, PartialEq, Eq, Structural)]
pub enum Breach {
    /// The program counter is odd.
    MisalignedPc,
    /// An executor was handed an instruction of another form, or a
    /// register number above 31.
    InsnForm,
    /// The host refused to provide backing memory for a segment.
    HostMapping,
    /// A debugger asked to resume with a signal.
    Signal,
}

#[derive(Debug, Clone, Copy, PartialEq, Eq, Structural)]
pub enum Error {
    InvalidElf,
    /// A segment of zero length, or one that does not fit the address space.
    InvalidSegment,
    SegmentOverlap,
    OutOfBounds,
    PermissionDenied,
    MemAccessFault(MemAccess, u64),
    StackOverflow,
    InsnSetUnimplemented(InsnSet),
    InsnUnimplemented(u32),
    /// (insn, pc)
    UnknownInsn(u32, u64),
    /// (syscall, pc)
    SyscallUnimplemented(u64, u64),
    /// The builder was asked for an emulator without a system-call handler.
    MissingSyscallHandler,
    /// A letter that names no instruction set.
    UnknownInsnSet(char),
    /// A family of system calls that has no handler.
    SyscallFamilyUnimplemented,
    InternalError(Breach),
    // Debug
    RepeatedBreakpoint(u64),
    RepeatedWatchpoint(u64),
    BreakpointNotFound(u64),
    WatchpointNotFound(u64),
    // Control flow
    Exited(i64),
}

impl Error {
    /// The exit status of the emulator for the error: a number of its own
    /// for each kind of error, none of them 0.
    pub open spec fn exit_code_spec(self) -> u8 {
        match self {
            Error::InvalidElf => 101,
            Error::InvalidSegment => 102,
            Error::SegmentOverlap => 103,
            Error::OutOfBounds => 104,
            Error::PermissionDenied => 105,
            Error::MemAccessFault(_, _) => 106,
            Error::StackOverflow => 107,
            Error::InsnSetUnimplemented(_) => 108,
            Error::InsnUnimplemented(_) => 109,
            Error::UnknownInsn(_, _) => 110,
            Error::SyscallUnimplemented(_, _) => 111,
            Error::MissingSyscallHandler => 112,
            Error::UnknownInsnSet(_) => 113,
            Error::SyscallFamilyUnimplemented => 114,
            Error::InternalError(_) => 115,
            Error::RepeatedBreakpoint(_) => 116,
            Error::RepeatedWatchpoint(_) => 117,
            Error::BreakpointNotFound(_) => 118,
            Error::WatchpointNotFound(_) => 119,
            Error::Exited(_) => 120,
        }
    }

    #[verifier::when_used_as_spec(exit_code_spec)]
    pub fn exit_code(self) -> (r: u8)
        ensures
            r == self.exit_code_spec(),
    {
        match self {
            Error::InvalidElf => 101,
            Error::InvalidSegment => 102,
            Error::SegmentOverlap => 103,
            Error::OutOfBounds => 104,
            Error::PermissionDenied => 105,
            Error::MemAccessFault(_, _) => 106,
            Error::StackOverflow => 107,
            Error::InsnSetUnimplemented(_) => 108,
            Error::InsnUnimplemented(_) => 109,
            Error::UnknownInsn(_, _) => 110,
            Error::SyscallUnimplemented(_, _) => 111,
            Error::MissingSyscallHandler => 112,
            Error::UnknownInsnSet(_) => 113,
            Error::SyscallFamilyUnimplemented => 114,
            Error::InternalError(_) => 115,
            Error::RepeatedBreakpoint(_) => 116,
            Error::RepeatedWatchpoint(_) => 117,
            Error::BreakpointNotFound(_) => 118,
            Error::WatchpointNotFound(_) => 119,
            Error::Exited(_) => 120,
        }
    }

    /// Whether the error is one of the four that report misuse of the
    /// breakpoint and watchpoint sets.
    pub open spec fn is_debug_misuse(self) -> bool {
        self is RepeatedBreakpoint || self is RepeatedWatchpoint || self is BreakpointNotFound
            || self is WatchpointNotFound
    }
}

} // verus!
