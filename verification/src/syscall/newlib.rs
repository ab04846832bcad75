//! Newlib syscall implementation.
use vstd::prelude::*;
use crate::error::Error;
use crate::guest::{GuestMem, GuestView};
use crate::state::{State, StateView};
use crate::syscall::{SyscallHandler, REG_A0, REG_A7};

verus! {

/// A handler that knows no system call yet.
#[derive(Debug)]
pub struct NewlibSyscallHandler;

impl SyscallHandler for NewlibSyscallHandler {
    /// Every call is refused and nothing changes.
    open spec fn serves(
        &self,
        state: StateView,
        mem: GuestView,
        after_state: StateView,
        after_mem: GuestView,
        r: Result<(), Error>,
    ) -> bool {
        &&& after_state == state
        &&& after_mem == mem
        &&& r == Err::<(), Error>(Error::SyscallUnimplemented(state.x[REG_A7 as int], state.pc))
    }

    fn handle(&mut self, state: &mut State, guest: &mut GuestMem) -> (r: Result<(), Error>)
        ensures
            *final(state) == *old(state),
            *final(guest) == *old(guest),
            r == Err::<(), Error>(
                Error::SyscallUnimplemented(old(state)@.x[REG_A7 as int], old(state)@.pc),
            ),
    {
        Err(Error::SyscallUnimplemented(state.reg(REG_A7), state.pc))
    }
}

impl NewlibSyscallHandler {
    /// The exit call: ends the run with the exit status in `a0`.
    pub fn sys_exit(&mut self, state: &mut State) -> (r: Result<i64, Error>)
        ensures
            *final(state) == *old(state),
            r == Err::<i64, Error>(Error::Exited(old(state)@.x[REG_A0 as int] as i64)),
    {
        Err(Error::Exited(state.reg(REG_A0) as i64))
    }
}

} // verus!
