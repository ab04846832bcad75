//! Interface for users to interact with the emulator.
//! Operations such as loading programs, running them, and accessing the state
//! of the CPU and memory are provided.
use vstd::prelude::*;
use std::collections::{HashMap, HashSet};
use crate::config::{STACK_SIZE, STACK_TOP};
use crate::debug::WatchMode;
use crate::error::{Breach, Error};
use crate::guest::{GuestMem, GuestView, MemFlags, SegmentView};
use crate::hart::{implemented, step_spec, Hart};
use crate::insn::rv64i::RV64I_EBREAK;
use crate::insn::InsnSet;
use crate::state::{BreakCause, StateView};
use crate::syscall::SyscallHandler;

verus! {

broadcast use vstd::std_specs::hash::group_hash_axioms;

#[derive(Debug, Clone, Copy, PartialEq, Eq, Structural)]
pub enum EmuMode {
    Run,
    Debug(ExecMode),
}

#[derive(Debug, Clone, Copy, PartialEq, Eq, Structural)]
pub enum ExecMode {
    Step,
    Continue,
}

#[derive(Debug, Clone, Copy, PartialEq, Eq, Structural)]
pub enum ExitReason {
    DoneStep,
    IncomingData,
    Exited(i64),
    BreakpointHit(u64),
}

pub struct Emulator {
    pub(crate) hart: Hart,
    pub(crate) guest: GuestMem,
    /// The system-call handler. A built emulator always has one.
    pub(crate) syscall: Option<Box<dyn SyscallHandler>>,
    pub(crate) stack_size: usize,
    pub(crate) breakpoints: HashSet<u64>,
    pub(crate) watchpoints: HashMap<u64, WatchMode>,
    pub(crate) mode: EmuMode,
    pub(crate) isa: Vec<InsnSet>,
}

pub struct EmulatorBuilder {
    syscall: Option<Box<dyn SyscallHandler>>,
    decoders: Vec<InsnSet>,
    /// default stack size in bytes (8 MiB)
    stack_size: usize,
    mode: EmuMode,
}

/// The first of `sets` that has no decoder.
pub open spec fn first_unimplemented(sets: Seq<InsnSet>) -> Option<InsnSet>
    decreases sets.len(),
{
    if sets.len() == 0 {
        None
    } else if !implemented(sets[0]) {
        Some(sets[0])
    } else {
        first_unimplemented(sets.drop_first())
    }
}

/// State and memory after the stack of `stack_size` bytes is mapped
/// below `STACK_TOP` for reading and writing and the stack pointer is set
/// to `STACK_TOP`, and how that ends. A stack that cannot be mapped
/// changes nothing.
pub open spec fn stack_mapped(state: StateView, mem: GuestView, stack_size: usize) -> (
    StateView,
    GuestView,
    Result<(), Error>,
) {
    let base = (STACK_TOP - stack_size) as u64;
    if stack_size > STACK_TOP {
        (state, mem, Err(Error::InvalidSegment))
    } else {
        match mem.check_segment(base, stack_size, None) {
            Err(e) => (state, mem, Err(e)),
            Ok(()) => (
                state.with_reg(2, STACK_TOP),
                mem.with_segment(
                    SegmentView::fresh(
                        base,
                        stack_size,
                        MemFlags { read: true, write: true, execute: false },
                        None,
                    ),
                ).with_stack(base, stack_size),
                Ok(()),
            ),
        }
    }
}

/// State and memory after a program is loaded, and how loading ends. The
/// program counter stands at the entry point as soon as the file is
/// loaded; then the stack is mapped as `stack_mapped` says.
pub open spec fn program_loaded(
    state: StateView,
    mem: GuestView,
    program: Seq<u8>,
    stack_size: usize,
) -> (
    StateView,
    GuestView,
    Result<(), Error>,
) {
    let (loaded, r) = mem.load_elf(program);
    match r {
        Err(e) => (state, loaded, Err(e)),
        Ok(entry) => stack_mapped(state.with_pc(entry), loaded, stack_size),
    }
}

/// The emulator as plain values.
pub struct Snapshot {
    pub state: StateView,
    pub mem: GuestView,
    pub decoders: Seq<InsnSet>,
    pub breakpoints: Set<u64>,
    pub watchpoints: Map<u64, WatchMode>,
    pub mode: EmuMode,
    pub stack_bytes: usize,
    /// What the system-call handler, as it stands, may make of a call:
    /// whether on a state and a memory it may leave a state and a memory
    /// with a result.
    pub serves: spec_fn(StateView, GuestView, StateView, GuestView, Result<(), Error>) -> bool,
}

/// What the controller returns for the result of a step: the exit of the
/// program, which comes up as an error, is a reason to stop like the
/// others.
pub open spec fn settled(r: Result<ExitReason, Error>) -> Result<ExitReason, Error> {
    match r {
        Err(Error::Exited(code)) => Ok(ExitReason::Exited(code)),
        other => other,
    }
}

/// What a forced step returns when its system call was handled with
/// `handled`.
pub open spec fn served_spec(handled: Result<(), Error>) -> Result<ExitReason, Error> {
    match handled {
        Ok(()) => Ok(ExitReason::DoneStep),
        Err(e) => Err(e),
    }
}

/// What `handler`, as it stands, may make of a call: whether on a state
/// and a memory it may leave a state and a memory with a result. Without
/// a handler nothing is served.
pub open spec fn served_by(handler: Option<Box<dyn SyscallHandler>>) -> spec_fn(
    StateView,
    GuestView,
    StateView,
    GuestView,
    Result<(), Error>,
) -> bool {
    |
        state: StateView,
        mem: GuestView,
        after_state: StateView,
        after_mem: GuestView,
        r: Result<(), Error>,
    |
        match handler {
            Some(handler) => handler.serves(state, mem, after_state, after_mem, r),
            None => false,
        }
}

/// The answer of the system-call handler that a forced step returned `r`
/// for.
pub open spec fn handled_of(r: Result<ExitReason, Error>) -> Result<(), Error> {
    match r {
        Ok(_) => Ok(()),
        Err(e) => Err(e),
    }
}

impl Snapshot {
    /// Whether `after` differs from `self` at most in the registers, in
    /// guest memory and in what the system-call handler has become.
    pub open spec fn same_setup(self, after: Snapshot) -> bool {
        &&& after.decoders == self.decoders
        &&& after.breakpoints == self.breakpoints
        &&& after.watchpoints == self.watchpoints
        &&& after.mode == self.mode
        &&& after.stack_bytes == self.stack_bytes
    }

    /// What holds after `Emulator::load_elf` took `self` to `after` and
    /// returned `r`. Either state, memory and result are what
    /// `program_loaded` gives. Or the host gave no memory for a segment of
    /// the program: the file is refused, the state is what it was and
    /// memory holds the segments before that one. Or the program is loaded
    /// and the host gave no memory for the stack, which passed every
    /// check: that is an internal error, and state and memory are as the
    /// program left them.
    pub open spec fn program_loaded(
        self,
        after: Snapshot,
        program: Seq<u8>,
        r: Result<(), Error>,
    ) -> bool {
        let (loaded, entry) = self.mem.load_elf(program);
        ||| (after.state, after.mem, r) == program_loaded(
            self.state,
            self.mem,
            program,
            self.stack_bytes,
        )
        ||| {
            &&& r == Err::<(), Error>(Error::InvalidElf)
            &&& after.state == self.state
            &&& self.mem.load_elf_stopped_short(program, after.mem)
        }
        ||| {
            &&& r == Err::<(), Error>(Error::InternalError(Breach::HostMapping))
            &&& entry is Ok
            &&& after.state == self.state.with_pc(entry->Ok_0)
            &&& after.mem == loaded
            &&& stack_mapped(self.state.with_pc(entry->Ok_0), loaded, self.stack_bytes).2 is Ok
        }
    }

    /// What holds after a forced step that took `self` to `after` and
    /// returned `r`: the setup is what it was, a step that succeeds is
    /// done, and state and memory are as `stepped` says.
    pub open spec fn forced(self, after: Snapshot, r: Result<ExitReason, Error>) -> bool {
        &&& self.same_setup(after)
        &&& r matches Ok(reason) ==> reason == ExitReason::DoneStep
        &&& self.stepped(after, r)
    }

    /// What a forced step makes of state and memory. The hart makes one
    /// step. Where that fails, its error is returned. Where it latches
    /// `ebreak`, which is not served, the instruction is reported as
    /// unimplemented. Where it latches `ecall`, the system-call handler is
    /// called on the state and memory that the step left: state and
    /// memory are what the handler made of them, its error is returned,
    /// and without one the step is done. In every other case the step is
    /// done. The handler is what it was unless it was called.
    #[verifier::opaque]
    pub open spec fn stepped(self, after: Snapshot, r: Result<ExitReason, Error>) -> bool {
        let out = step_spec(self.state, self.decoders, self.mem);
        match out.result {
            Err(e) => r == Err::<ExitReason, Error>(e) && after.state == out.state && after.mem
                == out.mem && after.serves == self.serves,
            Ok(Some(BreakCause::Ecall)) => (self.serves)(
                out.state,
                out.mem,
                after.state,
                after.mem,
                handled_of(r),
            ),
            Ok(Some(BreakCause::Ebreak)) => r == Err::<ExitReason, Error>(
                Error::InsnUnimplemented(RV64I_EBREAK),
            ) && after.state == out.state && after.mem == out.mem && after.serves == self.serves,
            Ok(_) => r == Ok::<ExitReason, Error>(ExitReason::DoneStep) && after.state == out.state
                && after.mem == out.mem && after.serves == self.serves,
        }
    }
}

/// Whether step `i` of `trace` is a forced step that is done.
pub open spec fn step_done(trace: Seq<Snapshot>, i: int) -> bool {
    trace[i].forced(trace[i + 1], Ok(ExitReason::DoneStep))
}

/// Whether no breakpoint stands where step `i` of `trace` begins.
pub open spec fn step_clear(trace: Seq<Snapshot>, i: int) -> bool {
    !trace[i].breakpoints.contains(trace[i].state.pc)
}

/// Whether `trace` holds what the emulator was before and after each of
/// a number of forced steps, of which all but the last are done and the
/// last returns `last`.
pub open spec fn is_run(trace: Seq<Snapshot>, last: Result<ExitReason, Error>) -> bool {
    &&& trace.len() >= 2
    &&& forall|i: int| 0 <= i < trace.len() - 2 ==> #[trigger] step_done(trace, i)
    &&& trace[trace.len() - 2].forced(trace.last(), last)
}

/// Whether `trace` is a run of which no step but the first begins at a
/// breakpoint.
pub open spec fn is_continued(trace: Seq<Snapshot>, last: Result<ExitReason, Error>) -> bool {
    &&& is_run(trace, last)
    &&& forall|i: int| 1 <= i < trace.len() - 1 ==> #[trigger] step_clear(trace, i)
}

/// Turns the exit of the program, which comes up as an error, into a
/// reason to stop.
pub fn settle(r: Result<ExitReason, Error>) -> (out: Result<ExitReason, Error>)
    ensures
        out == settled(r),
{
    match r {
        Err(Error::Exited(code)) => Ok(ExitReason::Exited(code)),
        other => other,
    }
}

/// What a forced step returns when its system call was handled with
/// `handled`: the step is done, or the handler's error goes up.
pub fn served(handled: Result<(), Error>) -> (r: Result<ExitReason, Error>)
    ensures
        r == served_spec(handled),
{
    match handled {
        Ok(()) => Ok(ExitReason::DoneStep),
        Err(e) => Err(e),
    }
}

impl View for Emulator {
    type V = Snapshot;

    open(crate) spec fn view(&self) -> Snapshot {
        Snapshot {
            state: self.hart.state@,
            mem: self.guest@,
            decoders: self.hart.decoders@,
            breakpoints: self.breakpoints@,
            watchpoints: self.watchpoints@,
            mode: self.mode,
            stack_bytes: self.stack_size,
            serves: served_by(self.syscall),
        }
    }
}

impl EmulatorBuilder {
    /// The instruction sets asked for, in the order of asking.
    pub closed spec fn sets(&self) -> Seq<InsnSet> {
        self.decoders@
    }

    /// Whether a system-call handler was given.
    pub closed spec fn has_syscall(&self) -> bool {
        self.syscall is Some
    }

    /// What the system-call handler that was given may make of a call.
    pub closed spec fn serves(&self) -> spec_fn(
        StateView,
        GuestView,
        StateView,
        GuestView,
        Result<(), Error>,
    ) -> bool {
        served_by(self.syscall)
    }

    /// The size of the stack in bytes.
    pub closed spec fn stack_bytes(&self) -> usize {
        self.stack_size
    }

    /// The mode in which the emulator starts.
    pub closed spec fn start_mode(&self) -> EmuMode {
        self.mode
    }

    pub fn new() -> (b: EmulatorBuilder)
        ensures
            b.sets() == Seq::<InsnSet>::empty(),
            !b.has_syscall(),
            b.stack_bytes() == STACK_SIZE,
            b.start_mode() == EmuMode::Run,
    {
        EmulatorBuilder {
            syscall: None,
            decoders: Vec::new(),
            stack_size: STACK_SIZE,
            mode: EmuMode::Run,
        }
    }

    /// Sets the system-call handler: what the builder serves from now on
    /// is what `handler` serves.
    ///
    /// Verus does not carry what a caller knows of a boxed trait object
    /// through a call that takes the box by value. Verified code that
    /// wants to reason about its handler keeps it in an `Option` and
    /// hands that over with `handler`.
    pub fn syscall(self, handler: Box<dyn SyscallHandler>) -> (b: EmulatorBuilder)
        ensures
            b.has_syscall(),
            forall|
                state: StateView,
                mem: GuestView,
                after_state: StateView,
                after_mem: GuestView,
                r: Result<(), Error>,
            |
                #![trigger (b.serves())(state, mem, after_state, after_mem, r)]
                #![trigger handler.serves(state, mem, after_state, after_mem, r)]
                (b.serves())(state, mem, after_state, after_mem, r) == handler.serves(
                    state,
                    mem,
                    after_state,
                    after_mem,
                    r,
                ),
            b.sets() == self.sets(),
            b.stack_bytes() == self.stack_bytes(),
            b.start_mode() == self.start_mode(),
    {
        let ghost given = handler;
        let syscall = Some(handler);
        assert(syscall->Some_0 == given);
        let b = self.handler(syscall);
        assert forall|
            state: StateView,
            mem: GuestView,
            after_state: StateView,
            after_mem: GuestView,
            r: Result<(), Error>,
        |
            #![trigger (b.serves())(state, mem, after_state, after_mem, r)]
            #![trigger given.serves(state, mem, after_state, after_mem, r)]
            (b.serves())(state, mem, after_state, after_mem, r) == given.serves(
                state,
                mem,
                after_state,
                after_mem,
                r,
            ) by {}
        b
    }

    /// Sets the system-call handler, or takes it away.
    pub fn handler(self, handler: Option<Box<dyn SyscallHandler>>) -> (b: EmulatorBuilder)
        ensures
            b.has_syscall() == (handler is Some),
            b.serves() == served_by(handler),
            b.sets() == self.sets(),
            b.stack_bytes() == self.stack_bytes(),
            b.start_mode() == self.start_mode(),
    {
        EmulatorBuilder {
            syscall: handler,
            decoders: self.decoders,
            stack_size: self.stack_size,
            mode: self.mode,
        }
    }

    pub fn decoder(self, set: InsnSet) -> (b: EmulatorBuilder)
        ensures
            b.sets() == self.sets().push(set),
            b.has_syscall() == self.has_syscall(),
            b.serves() == self.serves(),
            b.stack_bytes() == self.stack_bytes(),
            b.start_mode() == self.start_mode(),
    {
        let mut b = self;
        b.decoders.push(set);
        b
    }

    pub fn stack_size(self, size: usize) -> (b: EmulatorBuilder)
        ensures
            b.stack_bytes() == size,
            b.sets() == self.sets(),
            b.has_syscall() == self.has_syscall(),
            b.serves() == self.serves(),
            b.start_mode() == self.start_mode(),
    {
        let mut b = self;
        b.stack_size = size;
        b
    }

    pub fn debug(self) -> (b: EmulatorBuilder)
        ensures
            b.start_mode() == EmuMode::Debug(ExecMode::Step),
            b.sets() == self.sets(),
            b.has_syscall() == self.has_syscall(),
            b.serves() == self.serves(),
            b.stack_bytes() == self.stack_bytes(),
    {
        let mut b = self;
        b.mode = EmuMode::Debug(ExecMode::Step);
        b
    }

    /// Builds the emulator. Fails without a system-call handler, and for
    /// the first instruction set that has no decoder.
    pub fn build(self) -> (r: Result<Emulator, Error>)
        ensures
            match r {
                Ok(emu) => {
                    &&& self.has_syscall()
                    &&& emu@.serves == self.serves()
                    &&& first_unimplemented(self.sets()) is None
                    &&& emu.wf()
                    &&& emu.state() == StateView::zero()
                    &&& emu.mem() == GuestView::empty()
                    &&& emu.decoders() == self.sets()
                    &&& emu.mode() == self.start_mode()
                    &&& emu.stack_bytes() == self.stack_bytes()
                    &&& emu.breakpoints() == Set::<u64>::empty()
                    &&& emu.watchpoints() == Map::<u64, WatchMode>::empty()
                },
                Err(e) => if !self.has_syscall() {
                    e == Error::MissingSyscallHandler
                } else {
                    first_unimplemented(self.sets()) == Some(e->InsnSetUnimplemented_0)
                        && e is InsnSetUnimplemented
                },
            },
    {
        if self.syscall.is_none() {
            return Err(Error::MissingSyscallHandler);
        }
        let mut hart = Hart::new(0);
        let mut isa: Vec<InsnSet> = Vec::new();
        let mut i: usize = 0;
        assert(self.decoders@.subrange(0, self.decoders@.len() as int) =~= self.decoders@);
        assert(self.decoders@.subrange(0, 0) =~= Seq::<InsnSet>::empty());
        while i < self.decoders.len()
            invariant
                0 <= i <= self.decoders@.len(),
                self.syscall is Some,
                hart.id == 0,
                hart.state@ == StateView::zero(),
                hart.decoders@ == self.decoders@.subrange(0, i as int),
                isa@ == hart.decoders@,
                first_unimplemented(self.decoders@) == first_unimplemented(
                    self.decoders@.subrange(i as int, self.decoders@.len() as int),
                ),
            decreases self.decoders@.len() - i,
        {
            let set = self.decoders[i];
            let ghost rest = self.decoders@.subrange(i as int, self.decoders@.len() as int);
            assert(rest[0] == set);
            assert(rest.drop_first() =~= self.decoders@.subrange(
                i + 1,
                self.decoders@.len() as int,
            ));
            match hart.add_decoder(set) {
                Ok(()) => {},
                Err(e) => {
                    return Err(e);
                },
            }
            isa.push(set);
            assert(self.decoders@.subrange(0, i + 1) =~= self.decoders@.subrange(0, i as int).push(
                set,
            ));
            i += 1;
        }
        assert(self.decoders@.subrange(0, i as int) =~= self.decoders@);
        let emu = Emulator {
            hart,
            guest: GuestMem::new(),
            syscall: self.syscall,
            stack_size: self.stack_size,
            breakpoints: HashSet::new(),
            watchpoints: HashMap::new(),
            mode: self.mode,
            isa,
        };
        Ok(emu)
    }
}

impl Emulator {
    /// Guest memory is well formed, and the instruction sets on record
    /// are those of the hart.
    pub open(crate) spec fn wf(&self) -> bool {
        self.guest.wf() && self.isa@ == self.hart.decoders@ && self.syscall is Some
    }

    /// The memory of a well-formed emulator is well formed as plain
    /// values, and its accessors are the fields of its view.
    pub proof fn lemma_wf_view(&self)
        requires
            self.wf(),
        ensures
            self@.mem.wf(),
            self@.state.wf(),
            self@.state == self.state(),
            self@.mem == self.mem(),
            self@.decoders == self.decoders(),
            self@.breakpoints == self.breakpoints(),
            self@.watchpoints == self.watchpoints(),
            self@.mode == self.mode(),
            self@.stack_bytes == self.stack_bytes(),
    {
        self.guest.lemma_wf_view();
    }

    /// The registers of the hart.
    pub open(crate) spec fn state(&self) -> StateView {
        self.hart.state@
    }

    /// Guest memory.
    pub open(crate) spec fn mem(&self) -> GuestView {
        self.guest@
    }

    /// The instruction sets whose decoders the hart asks, in order.
    pub open(crate) spec fn decoders(&self) -> Seq<InsnSet> {
        self.hart.decoders@
    }

    /// The addresses at which execution stops.
    pub open(crate) spec fn breakpoints(&self) -> Set<u64> {
        self.breakpoints@
    }

    /// The watched addresses, each with the accesses that are watched.
    pub open(crate) spec fn watchpoints(&self) -> Map<u64, WatchMode> {
        self.watchpoints@
    }

    pub open(crate) spec fn mode(&self) -> EmuMode {
        self.mode
    }

    /// The size of the stack that `load_elf` maps.
    pub open(crate) spec fn stack_bytes(&self) -> usize {
        self.stack_size
    }

    /// Whether `after` differs from `self` at most in the registers and in
    /// guest memory.
    pub open spec fn same_setup(&self, after: &Emulator) -> bool {
        self@.same_setup(after@)
    }

    /// What holds after a forced step that took `self` to `after` and
    /// returned `r`: what `Snapshot::forced` says, and guest memory is
    /// well formed.
    pub open spec fn forced(&self, after: &Emulator, r: Result<ExitReason, Error>) -> bool {
        self@.forced(after@, r) && after.wf()
    }

    pub fn new() -> (b: EmulatorBuilder)
        ensures
            b.sets() == Seq::<InsnSet>::empty(),
            !b.has_syscall(),
            b.stack_bytes() == STACK_SIZE,
            b.start_mode() == EmuMode::Run,
    {
        EmulatorBuilder::new()
    }

    /// The program counter.
    pub fn pc(&self) -> (r: u64)
        ensures
            r == self.state().pc,
    {
        self.hart.state.pc
    }

    /// Register `r` of the hart.
    pub fn reg(&self, r: u8) -> (v: u64)
        requires
            r < 32,
        ensures
            v == self.state().x[r as int],
    {
        self.hart.state.reg(r)
    }

    /// The mode of the controller.
    pub fn current_mode(&self) -> (r: EmuMode)
        ensures
            r == self.mode(),
    {
        self.mode
    }

    /// The instruction sets that the emulator was built with.
    pub fn isa(&self) -> (r: &Vec<InsnSet>)
        requires
            self.wf(),
        ensures
            r@ == self.decoders(),
    {
        &self.isa
    }

    /// The hart.
    pub fn hart(&self) -> (r: &Hart)
        ensures
            r.state@ == self.state(),
            r.decoders@ == self.decoders(),
    {
        &self.hart
    }

    /// Guest memory.
    pub fn guest(&self) -> (r: &GuestMem)
        ensures
            r@ == self.mem(),
            self.wf() ==> r.wf(),
    {
        &self.guest
    }

    /// Maps the stack and sets the stack pointer. The host is asked for
    /// memory only for a stack that passed every check.
    fn map_stack(&mut self) -> (r: Result<(), Error>)
        requires
            old(self).wf(),
        ensures
            final(self).wf(),
            old(self).same_setup(final(self)),
            final(self)@.serves == old(self)@.serves,
            r != Err::<(), Error>(Error::InternalError(Breach::HostMapping)) ==> (
                final(self).state(),
                final(self).mem(),
                r,
            ) == stack_mapped(old(self).state(), old(self).mem(), old(self).stack_bytes()),
            r == Err::<(), Error>(Error::InternalError(Breach::HostMapping)) ==> {
                &&& final(self).state() == old(self).state()
                &&& final(self).mem() == old(self).mem()
                &&& stack_mapped(old(self).state(), old(self).mem(), old(self).stack_bytes()).2 is Ok
            },
    {
        // allocate stack space
        if self.stack_size as u64 > STACK_TOP {
            return Err(Error::InvalidSegment);
        }
        let base = STACK_TOP - self.stack_size as u64;
        match self.guest.add_segment(
            base,
            self.stack_size,
            MemFlags::read() | MemFlags::write(),
            None,
        ) {
            Ok(()) => {},
            Err(e) => {
                return Err(e);
            },
        }
        self.guest.set_stack(base, self.stack_size);
        self.hart.state.set_reg(2, STACK_TOP);
        Ok(())
    }

    /// Loads the ELF file `program`, maps the stack and sets the program
    /// counter and the stack pointer. A file that cannot be loaded is
    /// refused with `InvalidElf`, a stack that cannot be mapped with the
    /// error of `add_segment`. The host is asked for memory only for a
    /// segment or a stack that passed every check. Where it gives none
    /// for a segment, the file is refused and memory holds the segments
    /// before that one; where it gives none for the stack, that is an
    /// internal error and the program stays loaded.
    pub fn load_elf(&mut self, program: &[u8]) -> (r: Result<(), Error>)
        requires
            old(self).wf(),
        ensures
            final(self).wf(),
            old(self).same_setup(final(self)),
            final(self)@.serves == old(self)@.serves,
            old(self)@.program_loaded(final(self)@, program@, r),
    {
        let entry = match self.guest.load_elf(program) {
            Ok(entry) => entry,
            Err(e) => {
                return Err(e);
            },
        };
        self.hart.state.pc = entry;
        self.map_stack()
    }

    /// Executes one instruction, whether or not a breakpoint stands at it,
    /// and serves the system call that it may make.
    pub fn force_step(&mut self) -> (r: Result<ExitReason, Error>)
        requires
            old(self).wf(),
        ensures
            old(self).forced(final(self), r),
    {
        proof {
            reveal(Snapshot::stepped);
        }
        match self.hart.step(&mut self.guest) {
            Ok(Some(BreakCause::Ecall)) => {
                let ghost state = self.hart.state@;
                let ghost mem = self.guest@;
                let handled = match &mut self.syscall {
                    Some(handler) => handler.handle(&mut self.hart.state, &mut self.guest),
                    None => Err(Error::MissingSyscallHandler),
                };
                proof {
                    assert(old(self).syscall->Some_0.serves(
                        state,
                        mem,
                        self.hart.state@,
                        self.guest@,
                        handled,
                    ));
                    assert(handled_of(served_spec(handled)) == handled) by {
                        if handled is Ok {
                            assert(handled->Ok_0 == ());
                        }
                    }
                    assert((old(self)@.serves)(state, mem, self@.state, self@.mem, handled));
                }
                served(handled)
            },
            Ok(Some(BreakCause::Ebreak)) => Err(Error::InsnUnimplemented(RV64I_EBREAK)),
            Ok(_) => Ok(ExitReason::DoneStep),
            Err(e) => Err(e),
        }
    }

    /// Executes one instruction, unless a breakpoint stands at the program
    /// counter: then nothing is executed and the breakpoint is reported.
    pub fn step(&mut self) -> (r: Result<ExitReason, Error>)
        requires
            old(self).wf(),
        ensures
            final(self).wf(),
            old(self).same_setup(final(self)),
            old(self).breakpoints().contains(old(self).state().pc) ==> r == Ok::<ExitReason, Error>(
                ExitReason::BreakpointHit(old(self).state().pc),
            ) && final(self)@ == old(self)@,
            !old(self).breakpoints().contains(old(self).state().pc) ==> old(self).forced(
                final(self),
                r,
            ),
    {
        if self.breakpoints.contains(&self.hart.state.pc) {
            return Ok(ExitReason::BreakpointHit(self.hart.state.pc));
        }
        self.force_step()
    }

    /// Runs the program until it exits or fails: forced steps are made
    /// until one fails. What the exit call hands up as an error comes back
    /// as `Exited`. Every other error is returned as it is. A program that
    /// is still running after the greatest number of steps that the
    /// counter holds is left where it stands, and `DoneStep` is returned.
    pub fn run(&mut self) -> (r: Result<ExitReason, Error>)
        requires
            old(self).wf(),
            old(self).mode() == EmuMode::Run,
        ensures
            final(self).wf(),
            old(self).same_setup(final(self)),
            match r {
                Ok(reason) => reason is Exited || reason == ExitReason::DoneStep,
                Err(e) => !(e is Exited),
            },
            exists|trace: Seq<Snapshot>, last: Result<ExitReason, Error>|
                #[trigger] is_run(trace, last) && trace[0] == old(self)@ && trace.last() == final(self)@
                    && trace.len() - 1 <= u64::MAX && r == settled(last) && (last is Err
                    || trace.len() - 1 == u64::MAX),
    {
        let ghost mut trace: Seq<Snapshot> = seq![self@];
        let mut left: u64 = u64::MAX;
        while left > 0
            invariant
                self.wf(),
                old(self)@.same_setup(self@),
                trace.len() == u64::MAX - left + 1,
                trace[0] == old(self)@,
                trace.last() == self@,
                forall|i: int| 0 <= i < trace.len() - 1 ==> #[trigger] step_done(trace, i),
            decreases left,
        {
            let ghost before = trace;
            let stepped = self.force_step();
            proof {
                trace = before.push(self@);
                assert forall|i: int| 0 <= i < trace.len() - 2 implies #[trigger] step_done(
                    trace,
                    i,
                ) by {
                    assert(step_done(before, i));
                }
                assert(trace[trace.len() - 2] == before.last());
                assert(is_run(trace, stepped));
            }
            match stepped {
                Ok(_) => {
                    assert(step_done(trace, trace.len() - 2));
                },
                Err(Error::Exited(code)) => {
                    return Ok(ExitReason::Exited(code));
                },
                Err(e) => {
                    return Err(e);
                },
            }
            left -= 1;
        }
        assert(is_run(trace, Ok(ExitReason::DoneStep))) by {
            assert(step_done(trace, trace.len() - 2));
        }
        Ok(ExitReason::DoneStep)
    }
}

} // verus!
