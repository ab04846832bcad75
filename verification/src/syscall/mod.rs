//! The handlers that serve the system calls of a guest.
use vstd::prelude::*;
use crate::error::Error;
use crate::guest::{GuestMem, GuestView};
use crate::state::{State, StateView};

pub mod mini;
pub mod minilib;
pub mod newlib;

pub use mini::MiniSyscallHandler;
pub use minilib::MinilibSyscallHandler as Minilib;
pub use minilib::MinilibSyscallHandler;
pub use newlib::NewlibSyscallHandler as Newlib;
pub use newlib::NewlibSyscallHandler;

verus! {

/// Register `a0`: the first argument and the return value.
pub const REG_A0: u8 = 10;

/// Register `a7`: the number of the system call.
pub const REG_A7: u8 = 17;

pub trait SyscallHandler {
    /// Whether the handler, as it stands, may answer the call in `state`
    /// and `mem` with `r` and leave `after_state` and `after_mem`. Each
    /// handler says for itself what it does; one that does not say may do
    /// anything.
    open spec fn serves(
        &self,
        state: StateView,
        mem: GuestView,
        after_state: StateView,
        after_mem: GuestView,
        r: Result<(), Error>,
    ) -> bool {
        true
    }

    /// Serves the system call whose number stands in `a7` and whose
    /// arguments stand in `a0` to `a6`. A handler has to leave guest
    /// memory well formed, as every method of `GuestMem` does; the
    /// emulator relies on it.
    fn handle(&mut self, state: &mut State, guest: &mut GuestMem) -> (r: Result<(), Error>)
        requires
            old(guest).wf(),
        ensures
            final(guest).wf(),
            old(self).serves(old(state)@, old(guest)@, final(state)@, final(guest)@, r),
    ;
}

} // verus!
