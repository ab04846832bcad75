//! Mini syscall for testing purposes.
//! 0 - exit
use vstd::prelude::*;
use crate::error::Error;
use crate::guest::{GuestMem, GuestView};
use crate::state::{State, StateView};
use crate::syscall::{SyscallHandler, REG_A0, REG_A7};

verus! {

#[derive(Debug)]
pub struct MiniSyscallHandler;

impl SyscallHandler for MiniSyscallHandler {
    /// Call 0 ends the run with the exit status in `a0`, every other call
    /// is refused, and nothing changes.
    open spec fn serves(
        &self,
        state: StateView,
        mem: GuestView,
        after_state: StateView,
        after_mem: GuestView,
        r: Result<(), Error>,
    ) -> bool {
        &&& after_state == state
        &&& after_mem == mem
        &&& r == Err::<(), Error>(
            if state.x[REG_A7 as int] == 0 {
                Error::Exited(state.x[REG_A0 as int] as i64)
            } else {
                Error::SyscallUnimplemented(state.x[REG_A7 as int], state.pc)
            },
        )
    }

    fn handle(&mut self, state: &mut State, guest: &mut GuestMem) -> (r: Result<(), Error>)
        ensures
            *final(state) == *old(state),
            *final(guest) == *old(guest),
            r == Err::<(), Error>(
                if old(state)@.x[REG_A7 as int] == 0 {
                    Error::Exited(old(state)@.x[REG_A0 as int] as i64)
                } else {
                    Error::SyscallUnimplemented(old(state)@.x[REG_A7 as int], old(state)@.pc)
                },
            ),
    {
        if state.reg(REG_A7) == 0 {
            sys_exit(state)
        } else {
            Err(Error::SyscallUnimplemented(state.reg(REG_A7), state.pc))
        }
    }
}

/// The exit call: ends the run with the exit status in `a0`.
pub fn sys_exit(state: &State) -> (r: Result<(), Error>)
    ensures
        r == Err::<(), Error>(Error::Exited(state@.x[REG_A0 as int] as i64)),
{
    Err(Error::Exited(state.reg(REG_A0) as i64))
}

} // verus!
