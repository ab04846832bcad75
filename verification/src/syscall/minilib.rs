//! Mini syscall for testing purposes.
use vstd::prelude::*;
use crate::error::Error;
use crate::guest::{lemma_mapped_below_max, GuestMem, GuestView, MemAccess};
use crate::state::{State, StateView};
use crate::syscall::{SyscallHandler, REG_A0, REG_A7};

verus! {

pub const SYS_EXIT: u64 = 0;

pub const SYS_PUTCHAR: u64 = 1;

pub const SYS_PUTS: u64 = 2;

/// The number of the exit call in the standard interface.
pub const SYS_EXIT_STD: u64 = 93;

/// The handler of the minimal library. What the guest writes is gathered
/// in `output`, for the host to print.
#[derive(Debug)]
pub struct MinilibSyscallHandler {
    pub output: Vec<u8>,
}

/// `tail` behind `head`, where there is a tail.
pub open spec fn prepend(head: Seq<u8>, tail: Result<Seq<u8>, Error>) -> Result<Seq<u8>, Error> {
    match tail {
        Ok(rest) => Ok(head + rest),
        Err(e) => Err(e),
    }
}

/// The bytes of the string at `ptr`, up to the first zero byte, or the
/// error of the first byte that cannot be read.
pub open spec fn c_string(mem: GuestView, ptr: u64) -> Result<Seq<u8>, Error>
    decreases u64::MAX - ptr,
{
    match mem.load(ptr, MemAccess::Read) {
        Err(e) => Err(e),
        Ok(b) => if b == 0 {
            Ok(Seq::empty())
        } else if ptr == u64::MAX {
            Err(Error::MemAccessFault(MemAccess::Read, ptr))
        } else {
            prepend(seq![b], c_string(mem, (ptr + 1) as u64))
        },
    }
}

/// What a call leaves behind: its result, the output and the state.
pub struct Served {
    pub result: Result<(), Error>,
    pub output: Seq<u8>,
    pub state: StateView,
}

/// What writing the string at `s` leaves behind. The string is written
/// up to its zero byte. Where it runs into unmapped memory nothing is
/// written, register 0 is set to all ones and the call succeeds; where it
/// cannot be read for another reason the call fails.
pub open spec fn puts_serves(output: Seq<u8>, state: StateView, mem: GuestView, s: u64) -> Served {
    match c_string(mem, s) {
        Ok(bytes) => Served { result: Ok(()), output: output + bytes, state },
        Err(Error::MemAccessFault(_, _)) => Served {
            result: Ok(()),
            output,
            state: state.with_reg(0, u64::MAX),
        },
        Err(e) => Served { result: Err(e), output, state },
    }
}

/// What the minimal library makes of the call in `state`. Call 0, and 93
/// with it, ends the run with the exit status in `a0`. Call 1 writes the
/// low byte of `a0`. Call 2 writes the string at `a0` as `puts_serves`
/// says. Every other call is refused.
pub open spec fn minilib_serves(output: Seq<u8>, state: StateView, mem: GuestView) -> Served {
    let number = state.x[REG_A7 as int];
    let a0 = state.x[REG_A0 as int];
    if number == SYS_EXIT || number == SYS_EXIT_STD {
        Served { result: Err(Error::Exited(a0 as i64)), output, state }
    } else if number == SYS_PUTCHAR {
        Served { result: Ok(()), output: output.push(a0 as u8), state }
    } else if number == SYS_PUTS {
        puts_serves(output, state, mem, a0)
    } else {
        Served { result: Err(Error::SyscallUnimplemented(number, state.pc)), output, state }
    }
}

impl MinilibSyscallHandler {
    pub fn new() -> (h: MinilibSyscallHandler)
        ensures
            h.output@ == Seq::<u8>::empty(),
    {
        MinilibSyscallHandler { output: Vec::new() }
    }

    /// Hands out what was written since the last call, and forgets it.
    pub fn take_output(&mut self) -> (out: Vec<u8>)
        ensures
            out@ == old(self).output@,
            final(self).output@ == Seq::<u8>::empty(),
    {
        let mut out = Vec::new();
        std::mem::swap(&mut out, &mut self.output);
        out
    }

    /// The exit call: ends the run with `exit_code`.
    pub fn sys_exit(exit_code: i64) -> (r: Result<(), Error>)
        ensures
            r == Err::<(), Error>(Error::Exited(exit_code)),
    {
        Err(Error::Exited(exit_code))
    }

    /// Writes the byte `c`.
    pub fn sys_putchar(&mut self, c: u8) -> (r: Result<(), Error>)
        ensures
            r == Ok::<(), Error>(()),
            final(self).output@ == old(self).output@.push(c),
    {
        self.output.push(c);
        Ok(())
    }

    /// Writes the string at `s`.
    pub fn sys_puts(
        &mut self,
        state: &mut State,
        guest: &GuestMem,
        s: u64,
    ) -> (r: Result<(), Error>)
        requires
            guest.wf(),
        ensures
            (Served { result: r, output: final(self).output@, state: final(state)@ }) == puts_serves(
                old(self).output@,
                old(state)@,
                guest@,
                s,
            ),
    {
        match Self::read_string(guest, s) {
            Ok(mut bytes) => {
                self.output.append(&mut bytes);
                Ok(())
            },
            Err(Error::MemAccessFault(_, _)) => {
                state.set_reg(0, u64::MAX);
                Ok(())
            },
            Err(e) => Err(e),
        }
    }

    /// Reads the string at `s`.
    fn read_string(guest: &GuestMem, s: u64) -> (r: Result<Vec<u8>, Error>)
        requires
            guest.wf(),
        ensures
            match r {
                Ok(buf) => c_string(guest@, s) == Ok::<Seq<u8>, Error>(buf@),
                Err(e) => c_string(guest@, s) == Err::<Seq<u8>, Error>(e),
            },
    {
        let mut buf: Vec<u8> = Vec::new();
        let mut ptr = s;
        assert(Seq::<u8>::empty() + Seq::<u8>::empty() =~= Seq::<u8>::empty());
        // Read until null terminator
        loop
            invariant
                guest.wf(),
                c_string(guest@, s) == prepend(buf@, c_string(guest@, ptr)),
            decreases u64::MAX - ptr,
        {
            let byte = match guest.read_u8(ptr) {
                Ok(b) => b,
                Err(e) => {
                    return Err(e);
                },
            };
            if byte == 0 {
                assert(buf@ + Seq::<u8>::empty() =~= buf@);
                return Ok(buf);
            }
            proof {
                assert(guest@.mapped(ptr));
                lemma_mapped_below_max(guest@, ptr);
                let tail = c_string(guest@, (ptr + 1) as u64);
                if tail is Ok {
                    assert(buf@ + (seq![byte] + tail->Ok_0) =~= buf@.push(byte) + tail->Ok_0);
                }
            }
            buf.push(byte);
            ptr += 1;
        }
    }
}

impl SyscallHandler for MinilibSyscallHandler {
    /// The call ends and leaves the state as `minilib_serves` says, and
    /// memory as it was.
    open spec fn serves(
        &self,
        state: StateView,
        mem: GuestView,
        after_state: StateView,
        after_mem: GuestView,
        r: Result<(), Error>,
    ) -> bool {
        &&& after_mem == mem
        &&& after_state == minilib_serves(self.output@, state, mem).state
        &&& r == minilib_serves(self.output@, state, mem).result
    }

    fn handle(&mut self, state: &mut State, guest: &mut GuestMem) -> (r: Result<(), Error>)
        ensures
            *final(guest) == *old(guest),
            (Served { result: r, output: final(self).output@, state: final(state)@ })
                == minilib_serves(old(self).output@, old(state)@, old(guest)@),
    {
        let number = state.reg(REG_A7);
        let a0 = state.reg(REG_A0);
        if number == SYS_EXIT || number == SYS_EXIT_STD {
            Self::sys_exit(a0 as i64)
        } else if number == SYS_PUTCHAR {
            self.sys_putchar(a0 as u8)
        } else if number == SYS_PUTS {
            self.sys_puts(state, guest, a0)
        } else {
            // for testing purposes, we just throw an error for unimplemented syscalls
            Err(Error::SyscallUnimplemented(number, state.pc))
        }
    }
}

} // verus!
