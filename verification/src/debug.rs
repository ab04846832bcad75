//! What a debugger does to the emulator: breakpoints, watchpoints, reads
//! and writes of registers and memory, and controlled execution.
use vstd::prelude::*;
use crate::config::{EFAULT, POLL_INTERVAL};
use crate::emulator::{
    is_continued, settle, settled, step_clear, step_done, EmuMode, Emulator, ExecMode,
    ExitReason, Snapshot,
};
use crate::error::{Breach, Error};
use crate::guest::{lemma_load_bytes_stops, lemma_mapped_below_max, GuestView, MemAccess};
use crate::state::StateView;
use crate::utils::{le_bytes, le_u64, u64_from_le, u64_to_le};

verus! {

broadcast use vstd::std_specs::hash::group_hash_axioms;

#[derive(Debug, Clone, Copy, PartialEq, Eq, Structural)]
pub enum WatchMode {
    Read,
    Write,
    Access,
}

/// Currently, we only support watchpoints on memory accesses.
#[derive(Debug, Clone, Copy, PartialEq, Eq, Structural)]
pub struct Watchpoint {
    pub addr: u64,
    pub mode: WatchMode,
}

/// The registers that a debugger reads and writes in one go.
#[derive(Debug, Clone, Copy)]
pub struct CoreRegs {
    pub x: [u64; 32],
    pub pc: u64,
}

/// The name of a register in the debugger's terms.
#[derive(Debug, Clone, Copy, PartialEq, Eq, Structural)]
pub enum RegId {
    /// General purpose register (x0-x31).
    Gpr(u8),
    /// Floating point register (f0-f31).
    Fpr(u8),
    /// Program counter.
    Pc,
    /// Control and status register.
    Csr(u16),
    /// Privilege level.
    Priv,
}

/// How an error is reported to the debugger.
#[derive(Debug, Clone, Copy, PartialEq, Eq, Structural)]
pub enum TargetStatus {
    /// The request failed and the session goes on.
    NonFatal,
    /// The request failed with an errno value and the session goes on.
    Errno(u8),
    /// The session ends.
    Fatal(Error),
}

impl TargetStatus {
    /// A memory fault is reported as `EFAULT`, misuse of the breakpoint
    /// and watchpoint sets as a failed request, and every other error ends
    /// the session.
    pub open spec fn of(e: Error) -> TargetStatus {
        if e is MemAccessFault {
            TargetStatus::Errno(EFAULT)
        } else if e.is_debug_misuse() {
            TargetStatus::NonFatal
        } else {
            TargetStatus::Fatal(e)
        }
    }

    pub fn from_error(e: Error) -> (r: TargetStatus)
        ensures
            r == Self::of(e),
    {
        match e {
            Error::MemAccessFault(_, _) => TargetStatus::Errno(EFAULT),
            Error::RepeatedBreakpoint(_) | Error::RepeatedWatchpoint(_)
            | Error::BreakpointNotFound(_) | Error::WatchpointNotFound(_) => TargetStatus::NonFatal,
            _ => TargetStatus::Fatal(e),
        }
    }
}

/// The number of the interrupt signal in the remote protocol.
pub const SIGINT: u8 = 2;

/// The number of the stop signal in the remote protocol.
pub const SIGSTOP: u8 = 17;

/// What the debugger is told when the program stops.
#[derive(Debug, Clone, Copy, PartialEq, Eq, Structural)]
pub enum StopEvent {
    /// One instruction was executed.
    DoneStep,
    /// The program ended with a signal.
    Terminated(u8),
    /// A software breakpoint was reached.
    SwBreak,
    /// The program was stopped by a signal.
    Signal(u8),
    /// Nothing to tell: data came in from the debugger and is to be read.
    IncomingData,
}

impl StopEvent {
    /// The event for the reason that a run under the debugger ended with.
    /// A program that exited is told as one that a stop signal ended.
    pub open spec fn of(reason: ExitReason) -> StopEvent {
        match reason {
            ExitReason::DoneStep => StopEvent::DoneStep,
            ExitReason::IncomingData => StopEvent::IncomingData,
            ExitReason::Exited(_) => StopEvent::Terminated(SIGSTOP),
            ExitReason::BreakpointHit(_) => StopEvent::SwBreak,
        }
    }

    pub fn from_reason(reason: ExitReason) -> (e: StopEvent)
        ensures
            e == Self::of(reason),
    {
        match reason {
            ExitReason::DoneStep => StopEvent::DoneStep,
            ExitReason::IncomingData => StopEvent::IncomingData,
            ExitReason::Exited(_) => StopEvent::Terminated(SIGSTOP),
            ExitReason::BreakpointHit(_) => StopEvent::SwBreak,
        }
    }

    /// The event for an interrupt from the debugger: a stop by the
    /// interrupt signal.
    pub fn interrupt() -> (e: StopEvent)
        ensures
            e == StopEvent::Signal(SIGINT),
    {
        StopEvent::Signal(SIGINT)
    }
}

/// The breakpoints after an attempt to set one at `gaddr`, and how the
/// attempt ends: a second breakpoint at one address is refused.
pub open spec fn breakpoint_set(points: Set<u64>, gaddr: u64) -> (Set<u64>, Result<(), Error>) {
    if points.contains(gaddr) {
        (points, Err(Error::RepeatedBreakpoint(gaddr)))
    } else {
        (points.insert(gaddr), Ok(()))
    }
}

/// The breakpoints after an attempt to remove the one at `gaddr`, and how
/// the attempt ends: where there is none, that is an error.
pub open spec fn breakpoint_removed(points: Set<u64>, gaddr: u64) -> (Set<u64>, Result<(), Error>) {
    if points.contains(gaddr) {
        (points.remove(gaddr), Ok(()))
    } else {
        (points, Err(Error::BreakpointNotFound(gaddr)))
    }
}

/// The watchpoints after an attempt to set one at `gaddr`, and how the
/// attempt ends: a second watchpoint at one address is refused.
pub open spec fn watchpoint_set(points: Map<u64, WatchMode>, gaddr: u64, mode: WatchMode) -> (
    Map<u64, WatchMode>,
    Result<(), Error>,
) {
    if points.contains_key(gaddr) {
        (points, Err(Error::RepeatedWatchpoint(gaddr)))
    } else {
        (points.insert(gaddr, mode), Ok(()))
    }
}

/// The watchpoints after an attempt to remove the one at `gaddr`, and how
/// the attempt ends: where there is none, that is an error.
pub open spec fn watchpoint_removed(points: Map<u64, WatchMode>, gaddr: u64) -> (
    Map<u64, WatchMode>,
    Result<(), Error>,
) {
    if points.contains_key(gaddr) {
        (points.remove(gaddr), Ok(()))
    } else {
        (points, Err(Error::WatchpointNotFound(gaddr)))
    }
}

/// Where the first `k` of `len` bytes can be read and the next one cannot,
/// `k` bytes are readable.
pub proof fn lemma_readable(mem: GuestView, start: u64, k: nat, len: nat)
    requires
        k < len,
        mem.load_bytes(start, k, MemAccess::Read) is Ok,
        mem.load_bytes(start, k + 1, MemAccess::Read) is Err,
    ensures
        readable(mem, start, len) == k,
    decreases len - k,
{
    lemma_load_bytes_stops(mem, start, k + 1, len, MemAccess::Read);
    assert(readable(mem, start, len) == readable(mem, start, (len - 1) as nat));
    if k + 1 < len {
        lemma_readable(mem, start, k, (len - 1) as nat);
    } else {
        assert(readable(mem, start, k) == k);
    }
}

/// Setting a breakpoint where there was none and removing it again leaves
/// the breakpoints as they were, and both calls succeed.
pub proof fn lemma_breakpoint_set_then_removed(points: Set<u64>, gaddr: u64)
    requires
        !points.contains(gaddr),
    ensures
        breakpoint_set(points, gaddr).1 is Ok,
        breakpoint_removed(breakpoint_set(points, gaddr).0, gaddr) == (points, Ok::<(), Error>(())),
{
    assert(points.insert(gaddr).remove(gaddr) =~= points);
}

/// Setting a breakpoint a second time is refused, whatever the first
/// attempt met.
pub proof fn lemma_breakpoint_set_twice(points: Set<u64>, gaddr: u64)
    ensures
        breakpoint_set(breakpoint_set(points, gaddr).0, gaddr).1 == Err::<(), Error>(
            Error::RepeatedBreakpoint(gaddr),
        ),
{
}

/// Whether `after` holds what `before` holds from index `n` on.
pub open spec fn unchanged_from(before: Seq<u8>, after: Seq<u8>, n: int) -> bool {
    after.subrange(n, before.len() as int) == before.subrange(n, before.len() as int)
}

/// How many of the `len` bytes from `start` a debugger can read: all
/// bytes up to the first that cannot be read.
pub open spec fn readable(mem: GuestView, start: u64, len: nat) -> nat
    decreases len,
{
    if len == 0 {
        0
    } else if mem.load_bytes(start, len, MemAccess::Read) is Ok {
        len
    } else {
        readable(mem, start, (len - 1) as nat)
    }
}

/// The number of steps of a run that were done: all of them, or all but
/// the last where that one failed.
pub open spec fn steps_done(trace: Seq<Snapshot>, last: Result<ExitReason, Error>) -> int {
    if last is Err {
        trace.len() - 2
    } else {
        trace.len() - 1
    }
}

impl Emulator {
    /// Runs the program under a debugger. In step mode one instruction is
    /// executed, whether or not a breakpoint stands at it. In continue
    /// mode instructions are executed until the program exits, an error
    /// occurs, a breakpoint is reached or data comes in: the first
    /// instruction is executed even if a breakpoint stands at it; after
    /// every `POLL_INTERVAL` instructions `poller` is asked whether data
    /// is waiting, so the run went on past the first such point only on
    /// the answer that none is. A program that is still running when the
    /// counter of instructions is full is left where it stands, and
    /// `DoneStep` is returned.
    pub fn run_debug(&mut self, poller: impl Fn() -> bool) -> (r: Result<ExitReason, Error>)
        requires
            old(self).wf(),
            old(self).mode() is Debug,
            call_requires(poller, ()),
        ensures
            final(self).wf(),
            old(self).same_setup(final(self)),
            r matches Err(e) ==> !(e is Exited),
            old(self).mode() == EmuMode::Debug(ExecMode::Step) ==> exists|
                inner: Result<ExitReason, Error>,
            |
                old(self).forced(final(self), inner) && r == settled(inner),
            old(self).mode() == EmuMode::Debug(ExecMode::Continue) ==> exists|
                trace: Seq<Snapshot>,
                last: Result<ExitReason, Error>,
            |
                #[trigger] is_continued(trace, last) && trace[0] == old(self)@ && trace.last()
                    == final(self)@ && trace.len() - 1 <= usize::MAX && match r {
                    Ok(ExitReason::BreakpointHit(addr)) => last == Ok::<ExitReason, Error>(
                        ExitReason::DoneStep,
                    ) && final(self)@.breakpoints.contains(addr) && final(self)@.state.pc == addr,
                    Ok(ExitReason::IncomingData) => last == Ok::<ExitReason, Error>(
                        ExitReason::DoneStep,
                    ) && (trace.len() - 1) % (POLL_INTERVAL as int) == 0 && call_ensures(
                        poller,
                        (),
                        true,
                    ),
                    _ => r == settled(last) && (last is Err || trace.len() - 1 == usize::MAX),
                } && (steps_done(trace, last) >= POLL_INTERVAL && !(r == Ok::<ExitReason, Error>(
                    ExitReason::IncomingData,
                ) && steps_done(trace, last) == POLL_INTERVAL) ==> call_ensures(poller, (), false)),
    {
        match self.mode {
            EmuMode::Debug(ExecMode::Continue) => {},
            _ => {
                let inner = self.force_step();
                return settle(inner);
            },
        }
        let ghost mut trace: Seq<Snapshot> = seq![self@];
        let mut cycles: usize = 0;
        let mut first_step = true;
        while cycles < usize::MAX
            invariant
                self.wf(),
                old(self)@.same_setup(self@),
                old(self)@.mode == EmuMode::Debug(ExecMode::Continue),
                call_requires(poller, ()),
                first_step == (cycles == 0),
                cycles >= POLL_INTERVAL ==> call_ensures(poller, (), false),
                trace.len() == cycles + 1,
                trace[0] == old(self)@,
                trace.last() == self@,
                forall|i: int| 0 <= i < trace.len() - 1 ==> #[trigger] step_done(trace, i),
                forall|i: int| 1 <= i < trace.len() - 1 ==> #[trigger] step_clear(trace, i),
            decreases usize::MAX - cycles,
        {
            let ghost before = trace;
            let ghost at_start = self@;
            let stepped = match self.step() {
                Ok(ExitReason::BreakpointHit(addr)) => {
                    assert(self@ == at_start);
                    if first_step {
                        self.force_step()
                    } else {
                        proof {
                            assert(step_done(trace, trace.len() - 2));
                            assert(is_continued(trace, Ok(ExitReason::DoneStep)));
                        }
                        return Ok(ExitReason::BreakpointHit(addr));
                    }
                },
                other => other,
            };
            proof {
                trace = before.push(self@);
                assert forall|i: int| 0 <= i < trace.len() - 2 implies #[trigger] step_done(
                    trace,
                    i,
                ) by {
                    assert(step_done(before, i));
                }
                assert forall|i: int| 1 <= i < trace.len() - 1 implies #[trigger] step_clear(
                    trace,
                    i,
                ) by {
                    if i < before.len() - 1 {
                        assert(step_clear(before, i));
                    }
                }
                assert(trace[trace.len() - 2] == before.last());
                assert(is_continued(trace, stepped));
            }
            first_step = false;
            match stepped {
                Ok(_) => {
                    assert(step_done(trace, trace.len() - 2));
                    cycles += 1;
                    if cycles % POLL_INTERVAL == 0 {
                        if poller() {
                            return Ok(ExitReason::IncomingData);
                        }
                    }
                },
                Err(Error::Exited(code)) => {
                    return Ok(ExitReason::Exited(code));
                },
                Err(e) => {
                    return Err(e);
                },
            }
        }
        assert(is_continued(trace, Ok(ExitReason::DoneStep))) by {
            assert(step_done(trace, trace.len() - 2));
        }
        Ok(ExitReason::DoneStep)
    }

    /// The registers as a debugger reads them.
    pub fn read_registers(&self) -> (regs: CoreRegs)
        ensures
            regs.x@ == self.state().x,
            regs.pc == self.state().pc,
    {
        CoreRegs { x: self.hart.state.x, pc: self.hart.state.pc }
    }

    /// Sets the registers to what a debugger wrote.
    pub fn write_registers(&mut self, regs: &CoreRegs)
        ensures
            final(self).wf() == old(self).wf(),
            old(self).same_setup(final(self)),
            final(self)@.serves == old(self)@.serves,
            final(self)@.serves == old(self)@.serves,
            final(self).mem() == old(self).mem(),
            final(self).state() == (StateView { x: regs.x@, pc: regs.pc, ..old(self).state() }),
    {
        self.hart.state.x = regs.x;
        self.hart.state.pc = regs.pc;
    }

    /// Reads the bytes from `start_addr` on into `data`, one by one, up
    /// to the first that cannot be read, and gives their number. Fails
    /// with the error of the first byte if not even that can be read.
    pub fn read_addrs(&self, start_addr: u64, data: &mut [u8]) -> (r: Result<usize, Error>)
        requires
            self.wf(),
        ensures
            final(data)@.len() == old(data)@.len(),
            match r {
                Ok(n) => {
                    &&& n == readable(self.mem(), start_addr, old(data)@.len())
                    &&& self.mem().load_bytes(start_addr, n as nat, MemAccess::Read) == Ok::<
                        Seq<u8>,
                        Error,
                    >(final(data)@.subrange(0, n as int))
                    &&& unchanged_from(old(data)@, final(data)@, n as int)
                    &&& n == 0 ==> old(data)@.len() == 0
                },
                Err(e) => {
                    &&& old(data)@.len() > 0
                    &&& self.mem().load(start_addr, MemAccess::Read) == Err::<u8, Error>(e)
                    &&& final(data)@ == old(data)@
                },
            },
    {
        let len = data.len();
        let mut i: usize = 0;
        assert(data@.subrange(0, 0) =~= Seq::<u8>::empty());
        while i < len
            invariant
                self.wf(),
                0 <= i <= len,
                len == old(data)@.len(),
                data@.len() == len,
                i > 0 ==> start_addr + i <= u64::MAX,
                self.mem().load_bytes(start_addr, i as nat, MemAccess::Read) == Ok::<Seq<u8>, Error>(
                    data@.subrange(0, i as int),
                ),
                data@.subrange(i as int, len as int) == old(data)@.subrange(i as int, len as int),
            decreases len - i,
        {
            let ghost head = data@.subrange(0, i as int);
            let ghost before = data@;
            match self.guest.read_u8(start_addr + i as u64) {
                Ok(val) => {
                    data[i] = val;
                    proof {
                        lemma_mapped_below_max(self.mem(), (start_addr + i) as u64);
                        assert(data@.subrange(0, i + 1) =~= head.push(val));
                        assert(data@.subrange(i + 1, len as int) =~= before.subrange(
                            i as int,
                            len as int,
                        ).subrange(1, len - i));
                        assert(old(data)@.subrange(i + 1, len as int) =~= old(data)@.subrange(
                            i as int,
                            len as int,
                        ).subrange(1, len - i));
                    }
                },
                Err(e) => {
                    proof {
                        lemma_readable(self.mem(), start_addr, i as nat, len as nat);
                    }
                    if i > 0 {
                        return Ok(i);
                    } else {
                        assert(data@ =~= data@.subrange(0, len as int));
                        assert(old(data)@ =~= old(data)@.subrange(0, len as int));
                        return Err(e);
                    }
                },
            }
            i += 1;
        }
        proof {
            assert(data@.subrange(len as int, len as int) =~= Seq::<u8>::empty());
        }
        Ok(len)
    }

    /// Writes `data` from `start_addr` on, one byte after the other, and
    /// stops at the first that cannot be written.
    pub fn write_addrs(&mut self, start_addr: u64, data: &[u8]) -> (r: Result<(), Error>)
        requires
            old(self).wf(),
        ensures
            final(self).wf(),
            old(self).same_setup(final(self)),
            final(self)@.serves == old(self)@.serves,
            final(self).state() == old(self).state(),
            (final(self).mem(), r) == old(self).mem().store_bytes(start_addr, data@),
    {
        self.guest.write_bytes(start_addr, data)
    }

    /// Writes the eight bytes of a general purpose register or of the
    /// program counter into `buf`, low byte first, and gives their number.
    /// Every other register, a register number above 31 and a buffer of
    /// another length than eight is a failed request.
    pub fn read_register(&self, reg_id: RegId, buf: &mut [u8]) -> (r: Result<usize, TargetStatus>)
        ensures
            final(buf)@.len() == old(buf)@.len(),
            match self.register(reg_id) {
                Some(value) if old(buf)@.len() == 8 => r == Ok::<usize, TargetStatus>(8)
                    && final(buf)@ == le_bytes(value as int, 8),
                _ => r == Err::<usize, TargetStatus>(TargetStatus::NonFatal) && final(buf)@ == old(buf)@,
            },
    {
        let value = match reg_id {
            RegId::Gpr(id) => {
                if id >= 32 {
                    return Err(TargetStatus::NonFatal);
                }
                self.hart.state.reg(id)
            },
            RegId::Pc => self.hart.state.pc,
            _ => {
                return Err(TargetStatus::NonFatal);
            },
        };
        if buf.len() != 8 {
            return Err(TargetStatus::NonFatal);
        }
        let bytes = u64_to_le(value);
        let mut i: usize = 0;
        while i < 8
            invariant
                0 <= i <= 8,
                buf@.len() == 8,
                forall|j: int| 0 <= j < i ==> buf@[j] == bytes@[j],
            decreases 8 - i,
        {
            buf[i] = bytes[i];
            i += 1;
        }
        assert(buf@ =~= bytes@);
        Ok(8)
    }

    /// Sets a general purpose register or the program counter to the
    /// number that the eight bytes of `val` encode, low byte first. Every
    /// other register, a register number above 31 and another number of
    /// bytes than eight is a failed request.
    pub fn write_register(&mut self, reg_id: RegId, val: &[u8]) -> (r: Result<(), TargetStatus>)
        ensures
            final(self).wf() == old(self).wf(),
            old(self).same_setup(final(self)),
            final(self).mem() == old(self).mem(),
            match reg_id {
                RegId::Gpr(id) if id < 32 && val@.len() == 8 => r == Ok::<(), TargetStatus>(())
                    && final(self).state() == old(self).state().with_reg(id, le_u64(val@, 0) as u64),
                RegId::Pc if val@.len() == 8 => r == Ok::<(), TargetStatus>(()) && final(self).state()
                    == old(self).state().with_pc(le_u64(val@, 0) as u64),
                _ => r == Err::<(), TargetStatus>(TargetStatus::NonFatal) && final(self).state()
                    == old(self).state(),
            },
    {
        if val.len() != 8 {
            return Err(TargetStatus::NonFatal);
        }
        let bytes = [val[0], val[1], val[2], val[3], val[4], val[5], val[6], val[7]];
        let value = u64_from_le(&bytes);
        match reg_id {
            RegId::Gpr(id) => {
                if id >= 32 {
                    return Err(TargetStatus::NonFatal);
                }
                self.hart.state.set_reg(id, value);
                Ok(())
            },
            RegId::Pc => {
                self.hart.state.pc = value;
                Ok(())
            },
            _ => Err(TargetStatus::NonFatal),
        }
    }

    /// The value of a register that a debugger can name and the emulator
    /// holds.
    pub open spec fn register(&self, reg_id: RegId) -> Option<u64> {
        match reg_id {
            RegId::Gpr(id) => if id < 32 {
                Some(self.state().x[id as int])
            } else {
                None
            },
            RegId::Pc => Some(self.state().pc),
            _ => None,
        }
    }

    /// A debugger lets the program run on. Resuming with a signal is not
    /// supported.
    pub fn resume(&mut self, signal: Option<u8>) -> (r: Result<(), Error>)
        ensures
            final(self).wf() == old(self).wf(),
            final(self).state() == old(self).state(),
            final(self).mem() == old(self).mem(),
            final(self).decoders() == old(self).decoders(),
            final(self).breakpoints() == old(self).breakpoints(),
            final(self).watchpoints() == old(self).watchpoints(),
            final(self).stack_bytes() == old(self).stack_bytes(),
            final(self)@.serves == old(self)@.serves,
            signal is Some ==> r == Err::<(), Error>(Error::InternalError(Breach::Signal))
                && final(self).mode() == old(self).mode(),
            signal is None ==> r == Ok::<(), Error>(()) && final(self).mode() == EmuMode::Debug(
                ExecMode::Continue,
            ),
    {
        if signal.is_some() {
            return Err(Error::InternalError(Breach::Signal));
        }
        self.mode = EmuMode::Debug(ExecMode::Continue);
        Ok(())
    }

    /// A debugger asks for one instruction. Stepping with a signal is not
    /// supported.
    pub fn single_step(&mut self, signal: Option<u8>) -> (r: Result<(), Error>)
        ensures
            final(self).wf() == old(self).wf(),
            final(self).state() == old(self).state(),
            final(self).mem() == old(self).mem(),
            final(self).decoders() == old(self).decoders(),
            final(self).breakpoints() == old(self).breakpoints(),
            final(self).watchpoints() == old(self).watchpoints(),
            final(self).stack_bytes() == old(self).stack_bytes(),
            final(self)@.serves == old(self)@.serves,
            signal is Some ==> r == Err::<(), Error>(Error::InternalError(Breach::Signal))
                && final(self).mode() == old(self).mode(),
            signal is None ==> r == Ok::<(), Error>(()) && final(self).mode() == EmuMode::Debug(
                ExecMode::Step,
            ),
    {
        if signal.is_some() {
            return Err(Error::InternalError(Breach::Signal));
        }
        self.mode = EmuMode::Debug(ExecMode::Step);
        Ok(())
    }

    /// The debugger went away: the program runs free from now on.
    pub fn detach(&mut self)
        ensures
            final(self).wf() == old(self).wf(),
            final(self).state() == old(self).state(),
            final(self).mem() == old(self).mem(),
            final(self).decoders() == old(self).decoders(),
            final(self).breakpoints() == old(self).breakpoints(),
            final(self).watchpoints() == old(self).watchpoints(),
            final(self).stack_bytes() == old(self).stack_bytes(),
            final(self)@.serves == old(self)@.serves,
            final(self).mode() == EmuMode::Run,
    {
        self.mode = EmuMode::Run;
    }

    /// Sets a software breakpoint for a debugger.
    pub fn add_sw_breakpoint(&mut self, addr: u64) -> (r: Result<bool, TargetStatus>)
        ensures
            final(self).wf() == old(self).wf(),
            final(self).state() == old(self).state(),
            final(self).mem() == old(self).mem(),
            final(self).decoders() == old(self).decoders(),
            final(self).watchpoints() == old(self).watchpoints(),
            final(self).mode() == old(self).mode(),
            final(self).stack_bytes() == old(self).stack_bytes(),
            final(self)@.serves == old(self)@.serves,
            final(self).breakpoints() == breakpoint_set(old(self).breakpoints(), addr).0,
            r == match breakpoint_set(old(self).breakpoints(), addr).1 {
                Ok(()) => Ok::<bool, TargetStatus>(true),
                Err(e) => Err::<bool, TargetStatus>(TargetStatus::NonFatal),
            },
    {
        match self.set_breakpoint(addr) {
            Ok(()) => Ok(true),
            Err(e) => Err(TargetStatus::from_error(e)),
        }
    }

    /// Removes a software breakpoint for a debugger.
    pub fn remove_sw_breakpoint(&mut self, addr: u64) -> (r: Result<bool, TargetStatus>)
        ensures
            final(self).wf() == old(self).wf(),
            final(self).state() == old(self).state(),
            final(self).mem() == old(self).mem(),
            final(self).decoders() == old(self).decoders(),
            final(self).watchpoints() == old(self).watchpoints(),
            final(self).mode() == old(self).mode(),
            final(self).stack_bytes() == old(self).stack_bytes(),
            final(self)@.serves == old(self)@.serves,
            final(self).breakpoints() == breakpoint_removed(old(self).breakpoints(), addr).0,
            r == match breakpoint_removed(old(self).breakpoints(), addr).1 {
                Ok(()) => Ok::<bool, TargetStatus>(true),
                Err(e) => Err::<bool, TargetStatus>(TargetStatus::NonFatal),
            },
    {
        match self.rm_breakpoint(addr) {
            Ok(()) => Ok(true),
            Err(e) => Err(TargetStatus::from_error(e)),
        }
    }

    pub fn read_u8(&self, gaddr: u64) -> (r: Result<u8, Error>)
        requires
            self.wf(),
        ensures
            r == self.mem().load(gaddr, MemAccess::Read),
    {
        self.guest.read_u8(gaddr)
    }

    pub fn write_u8(&mut self, gaddr: u64, value: u8) -> (r: Result<(), Error>)
        requires
            old(self).wf(),
        ensures
            final(self).wf(),
            old(self).same_setup(final(self)),
            final(self)@.serves == old(self)@.serves,
            final(self).state() == old(self).state(),
            (final(self).mem(), r) == old(self).mem().store(gaddr, value),
    {
        self.guest.write_u8(gaddr, value)
    }

    pub fn set_breakpoint(&mut self, gaddr: u64) -> (r: Result<(), Error>)
        ensures
            final(self).wf() == old(self).wf(),
            final(self).state() == old(self).state(),
            final(self).mem() == old(self).mem(),
            final(self).decoders() == old(self).decoders(),
            final(self).watchpoints() == old(self).watchpoints(),
            final(self).mode() == old(self).mode(),
            final(self).stack_bytes() == old(self).stack_bytes(),
            final(self)@.serves == old(self)@.serves,
            (final(self).breakpoints(), r) == breakpoint_set(old(self).breakpoints(), gaddr),
    {
        if self.breakpoints.contains(&gaddr) {
            return Err(Error::RepeatedBreakpoint(gaddr));
        }
        self.breakpoints.insert(gaddr);
        Ok(())
    }

    pub fn rm_breakpoint(&mut self, gaddr: u64) -> (r: Result<(), Error>)
        ensures
            final(self).wf() == old(self).wf(),
            final(self).state() == old(self).state(),
            final(self).mem() == old(self).mem(),
            final(self).decoders() == old(self).decoders(),
            final(self).watchpoints() == old(self).watchpoints(),
            final(self).mode() == old(self).mode(),
            final(self).stack_bytes() == old(self).stack_bytes(),
            final(self)@.serves == old(self)@.serves,
            (final(self).breakpoints(), r) == breakpoint_removed(old(self).breakpoints(), gaddr),
    {
        if !self.breakpoints.remove(&gaddr) {
            return Err(Error::BreakpointNotFound(gaddr));
        }
        Ok(())
    }

    pub fn set_watchpoint(&mut self, gaddr: u64, mode: WatchMode) -> (r: Result<(), Error>)
        ensures
            final(self).wf() == old(self).wf(),
            final(self).state() == old(self).state(),
            final(self).mem() == old(self).mem(),
            final(self).decoders() == old(self).decoders(),
            final(self).breakpoints() == old(self).breakpoints(),
            final(self).mode() == old(self).mode(),
            final(self).stack_bytes() == old(self).stack_bytes(),
            final(self)@.serves == old(self)@.serves,
            (final(self).watchpoints(), r) == watchpoint_set(old(self).watchpoints(), gaddr, mode),
    {
        if self.watchpoints.contains_key(&gaddr) {
            return Err(Error::RepeatedWatchpoint(gaddr));
        }
        self.watchpoints.insert(gaddr, mode);
        Ok(())
    }

    pub fn rm_watchpoint(&mut self, gaddr: u64) -> (r: Result<(), Error>)
        ensures
            final(self).wf() == old(self).wf(),
            final(self).state() == old(self).state(),
            final(self).mem() == old(self).mem(),
            final(self).decoders() == old(self).decoders(),
            final(self).breakpoints() == old(self).breakpoints(),
            final(self).mode() == old(self).mode(),
            final(self).stack_bytes() == old(self).stack_bytes(),
            final(self)@.serves == old(self)@.serves,
            (final(self).watchpoints(), r) == watchpoint_removed(old(self).watchpoints(), gaddr),
    {
        if self.watchpoints.remove(&gaddr).is_none() {
            return Err(Error::WatchpointNotFound(gaddr));
        }
        Ok(())
    }
}

} // verus!
