//! The hart: register state and the decoders that serve it.
use vstd::prelude::*;
use crate::error::{Breach, Error};
use crate::guest::{GuestMem, GuestView, MemAccess};
use crate::insn::rv64i::rv64i_executor;
use crate::insn::zicsr::zicsr_executor;
use crate::insn::zifencei::zifencei_executor;
use crate::insn::{
    claimed, Decoder, Executor, InsnSet, Instruction, Rv64IDecoder, ZicsrDecoder, ZifenceiDecoder,
};
use crate::state::{BreakCause, State, StateView};

verus! {

/// Virtual Hart representing a RISC-V core.
/// 'id' can be seen as the tid of the hart, not real hardware id.
#[derive(Debug)]
pub struct Hart {
    pub id: usize,
    pub state: State,
    /// The instruction sets whose decoders are asked, in this order.
    pub decoders: Vec<InsnSet>,
}

/// Whether there is a decoder for `set`.
pub open spec fn implemented(set: InsnSet) -> bool {
    set is I || set is Ziscr || set is Zifencei
}

/// What the decoder of `set` makes of the instruction word `raw`. A set
/// without a decoder claims nothing.
pub open spec fn decode_with(
    set: InsnSet,
    raw: u32,
) -> Result<Option<(Instruction, Executor)>, Error> {
    match set {
        InsnSet::I => claimed(raw, rv64i_executor(raw)),
        InsnSet::Ziscr => claimed(raw, zicsr_executor(raw)),
        InsnSet::Zifencei => claimed(raw, zifencei_executor(raw)),
        _ => Ok(None),
    }
}

/// What the decoders of `sets`, asked in order, make of `raw`: the answer
/// of the first that claims the word or fails, and `None` where none does.
pub open spec fn decode_first(
    sets: Seq<InsnSet>,
    raw: u32,
) -> Result<Option<(Instruction, Executor)>, Error>
    decreases sets.len(),
{
    if sets.len() == 0 {
        Ok(None)
    } else {
        match decode_with(sets[0], raw) {
            Ok(None) => decode_first(sets.drop_first(), raw),
            found => found,
        }
    }
}

/// What a step leaves behind: its result, the state and the memory.
pub struct StepOutcome {
    pub result: Result<Option<BreakCause>, Error>,
    pub state: StateView,
    pub mem: GuestView,
}

/// The state at the start of a step: register 0 is zero and no trap is
/// latched.
pub open spec fn step_start(state: StateView) -> StateView {
    StateView { x: state.x.update(0, 0), break_on: None, ..state }
}

/// The state at the end of a step whose executor left `after`: where the
/// executor did not move the program counter from `pc`, it goes on by the
/// length of the instruction; the trap latch is taken.
pub open spec fn step_end(pc: u64, insn: Instruction, after: StateView) -> StateView {
    let moved = if after.pc == pc {
        after.with_pc(pc.wrapping_add(insn.step_size_spec() as u64))
    } else {
        after
    };
    moved.with_break(None)
}

/// One step of a hart with the decoders of `sets` on `state` and `mem`:
/// register 0 is cleared and the trap latch emptied; an odd program
/// counter is an internal error; the instruction word is fetched with
/// execute access and decoded; a word that no decoder claims is an
/// unknown instruction; the executor runs, and its error ends the step;
/// the program counter is settled and the trap that the executor latched
/// is returned.
pub open spec fn step_spec(state: StateView, sets: Seq<InsnSet>, mem: GuestView) -> StepOutcome {
    let start = step_start(state);
    if start.pc % 2 != 0 {
        StepOutcome { result: Err(Error::InternalError(Breach::MisalignedPc)), state: start, mem }
    } else {
        match mem.load_u32(start.pc, MemAccess::Execute) {
            Err(e) => StepOutcome { result: Err(e), state: start, mem },
            Ok(raw) => match decode_first(sets, raw) {
                Err(e) => StepOutcome { result: Err(e), state: start, mem },
                Ok(None) => StepOutcome {
                    result: Err(Error::UnknownInsn(raw, start.pc)),
                    state: start,
                    mem,
                },
                Ok(Some((insn, executor))) => {
                    let done = executor.effect(start, mem, insn);
                    match done.result {
                        Err(e) => StepOutcome { result: Err(e), state: done.state, mem: done.mem },
                        Ok(()) => StepOutcome {
                            result: Ok(done.state.break_on),
                            state: step_end(start.pc, insn, done.state),
                            mem: done.mem,
                        },
                    }
                },
            },
        }
    }
}

impl Hart {
    pub fn new(id: usize) -> (hart: Hart)
        ensures
            hart.id == id,
            hart.state@ == StateView::zero(),
            hart.decoders@ == Seq::<InsnSet>::empty(),
    {
        Hart { id, state: State::zero(), decoders: Vec::new() }
    }

    /// Registers the decoder of `set` behind those that are registered
    /// already. Fails for a set that has no decoder.
    pub fn add_decoder(&mut self, set: InsnSet) -> (r: Result<(), Error>)
        ensures
            final(self).id == old(self).id,
            final(self).state == old(self).state,
            implemented(set) ==> r == Ok::<(), Error>(()) && final(self).decoders@ == old(self)
                .decoders@.push(set),
            !implemented(set) ==> r == Err::<(), Error>(Error::InsnSetUnimplemented(set))
                && final(self).decoders@ == old(self).decoders@,
    {
        match set {
            InsnSet::I | InsnSet::Zifencei | InsnSet::Ziscr => {
                self.decoders.push(set);
                Ok(())
            },
            _ => Err(Error::InsnSetUnimplemented(set)),
        }
    }

    /// Asks the decoders in the order of their registration.
    pub fn decode(&self, raw: u32) -> (r: Result<Option<(Instruction, Executor)>, Error>)
        ensures
            r == decode_first(self.decoders@, raw),
    {
        let mut i: usize = 0;
        assert(self.decoders@.subrange(0, self.decoders@.len() as int) =~= self.decoders@);
        while i < self.decoders.len()
            invariant
                0 <= i <= self.decoders@.len(),
                decode_first(self.decoders@, raw) == decode_first(
                    self.decoders@.subrange(i as int, self.decoders@.len() as int),
                    raw,
                ),
            decreases self.decoders@.len() - i,
        {
            let ghost rest = self.decoders@.subrange(i as int, self.decoders@.len() as int);
            assert(rest.drop_first() =~= self.decoders@.subrange(
                i + 1,
                self.decoders@.len() as int,
            ));
            assert(rest[0] == self.decoders@[i as int]);
            let found = match self.decoders[i] {
                InsnSet::I => Rv64IDecoder.decode(raw),
                InsnSet::Ziscr => ZicsrDecoder.decode(raw),
                InsnSet::Zifencei => ZifenceiDecoder.decode(raw),
                _ => Ok(None),
            };
            match found {
                Ok(None) => {},
                _ => {
                    return found;
                },
            }
            i += 1;
        }
        Ok(None)
    }

    /// Executes one instruction.
    pub fn step(&mut self, guest: &mut GuestMem) -> (r: Result<Option<BreakCause>, Error>)
        requires
            old(guest).wf(),
        ensures
            final(guest).wf(),
            final(self).id == old(self).id,
            final(self).decoders == old(self).decoders,
            (StepOutcome { result: r, state: final(self).state@, mem: final(guest)@ }) == step_spec(
                old(self).state@,
                old(self).decoders@,
                old(guest)@,
            ),
    {
        self.state.set_reg(0, 0);
        self.state.break_on = None;

        let cur_pc = self.state.pc;
        // For compressed instructions, we only consume 16 bits.
        if cur_pc % 2 != 0 {
            return Err(Error::InternalError(Breach::MisalignedPc));
        }
        let raw = match guest.fetch_insn(cur_pc) {
            Ok(raw) => raw,
            Err(e) => {
                return Err(e);
            },
        };
        let (insn, executor) = match self.decode(raw) {
            Ok(Some((insn, executor))) => (insn, executor),
            Ok(None) => {
                return Err(Error::UnknownInsn(raw, cur_pc));
            },
            Err(e) => {
                return Err(e);
            },
        };
        match executor.execute(&mut self.state, guest, &insn) {
            Ok(()) => {},
            Err(e) => {
                return Err(e);
            },
        }
        if cur_pc == self.state.pc {
            // if pc did not change, it must be a normal instruction, otherwise some branch...
            self.state.pc = cur_pc.wrapping_add(insn.step_size() as u64);
        }
        let cause = self.state.break_on;
        self.state.break_on = None;
        Ok(cause)
    }
}

/// The instruction that a step on `state` and `mem` executes, if the step
/// gets as far as executing one.
pub open spec fn fetched(state: StateView, sets: Seq<InsnSet>, mem: GuestView) -> Option<
    (Instruction, Executor),
> {
    if state.pc % 2 != 0 {
        None
    } else {
        match mem.load_u32(state.pc, MemAccess::Execute) {
            Err(_) => None,
            Ok(raw) => match decode_first(sets, raw) {
                Ok(Some(found)) => Some(found),
                _ => None,
            },
        }
    }
}

/// The register that an operation writes on an instruction: `rd` for
/// every operation but the stores, the branches, `ecall`, `ebreak`, the
/// fences and `mret`, which write none.
pub open spec fn destination(op: Executor, insn: Instruction) -> Option<u8> {
    if crate::insn::rv64i::is_store(op) || crate::insn::rv64i::is_branch(op) || op is Ecall
        || op is Ebreak || op is Fence || op is FenceI || op is Mret {
        None
    } else {
        match insn {
            Instruction::R { rd, .. } => Some(rd),
            Instruction::I { rd, .. } => Some(rd),
            Instruction::U { rd, .. } => Some(rd),
            Instruction::J { rd, .. } => Some(rd),
            _ => None,
        }
    }
}

/// An operation changes no register but its destination.
pub proof fn lemma_effect_frame(
    op: Executor,
    state: StateView,
    mem: GuestView,
    insn: Instruction,
    reg: u8,
)
    requires
        state.wf(),
        reg < 32,
        destination(op, insn) != Some(reg),
    ensures
        op.effect(state, mem, insn).state.wf(),
        op.effect(state, mem, insn).state.x[reg as int] == state.x[reg as int],
{
}

/// A read of `n` bytes that succeeds ends below the top of the address
/// space.
pub proof fn lemma_load_bytes_in_space(mem: GuestView, gaddr: u64, n: nat, access: MemAccess)
    requires
        n > 0,
        mem.load_bytes(gaddr, n, access) is Ok,
    ensures
        gaddr + n - 1 < u64::MAX,
    decreases n,
{
    if n > 1 {
        lemma_load_bytes_in_space(mem, gaddr, (n - 1) as nat, access);
    }
    let last = (gaddr + n - 1) as u64;
    assert(mem.load(last, access) is Ok);
    assert(mem.mapped(last));
    crate::guest::lemma_mapped_below_max(mem, last);
}

/// After a step that completes, register 0 holds zero, unless the
/// instruction that was executed has register 0 as its destination: then
/// it holds what the instruction wrote, until the next step clears it.
pub proof fn lemma_step_register_zero(state: StateView, sets: Seq<InsnSet>, mem: GuestView)
    requires
        state.wf(),
        step_spec(state, sets, mem).result is Ok,
        fetched(state, sets, mem) matches Some((insn, executor)) && destination(executor, insn)
            != Some(0u8),
    ensures
        step_spec(state, sets, mem).state.x[0] == 0,
{
    let start = step_start(state);
    let (insn, executor) = fetched(state, sets, mem).unwrap();
    lemma_effect_frame(executor, start, mem, insn, 0);
}

/// After a step that completes and whose executor left the program
/// counter where it was, the program counter has gone on by the length of
/// the instruction.
pub proof fn lemma_step_advances_pc(state: StateView, sets: Seq<InsnSet>, mem: GuestView)
    requires
        step_spec(state, sets, mem).result is Ok,
        fetched(state, sets, mem) matches Some((insn, executor)) && executor.effect(
            step_start(state),
            mem,
            insn,
        ).state.pc == state.pc,
    ensures
        ({
            let (insn, executor) = fetched(state, sets, mem).unwrap();
            step_spec(state, sets, mem).state.pc == state.pc + insn.step_size_spec()
        }),
{
    lemma_load_bytes_in_space(mem, state.pc, 4, MemAccess::Execute);
}

/// The register fields of every instruction word name one of the 32
/// registers.
pub proof fn lemma_register_fields(raw: u32)
    ensures
        crate::insn::field_rd(raw) < 32,
        crate::insn::field_rs1(raw) < 32,
        crate::insn::field_rs2(raw) < 32,
{
    assert((((raw >> 7) & 0x1f) as u8) < 32) by (bit_vector);
    assert((((raw >> 15) & 0x1f) as u8) < 32) by (bit_vector);
    assert((((raw >> 20) & 0x1f) as u8) < 32) by (bit_vector);
}

/// An instruction word that is read in the form of an operation is
/// accepted by the operation: whatever else happens, the executor does not
/// fail for the form of its instruction.
pub proof fn lemma_claimed_is_accepted(op: Executor, raw: u32, state: StateView, mem: GuestView)
    ensures
        op.effect(state, mem, crate::insn::parse_spec(raw, op.form_spec())).result != Err::<
            (),
            Error,
        >(Error::InternalError(Breach::InsnForm)),
{
    lemma_register_fields(raw);
    let insn = crate::insn::parse_spec(raw, op.form_spec());
    if crate::insn::rv64i::is_load(op) {
        let (rd, rs1, imm) = insn.i_fields().unwrap();
        let addr = state.x[rs1 as int].wrapping_add(crate::utils::sext_spec(imm as u64, 12));
        crate::guest::lemma_load_bytes_error(mem, addr, 2, MemAccess::Read);
        crate::guest::lemma_load_bytes_error(mem, addr, 4, MemAccess::Read);
        crate::guest::lemma_load_bytes_error(mem, addr, 8, MemAccess::Read);
    } else if crate::insn::rv64i::is_store(op) {
        let (rs1, rs2, imm) = insn.s_fields().unwrap();
        let addr = state.x[rs1 as int].wrapping_add(crate::utils::sext_spec(imm as u64, 12));
        let value = state.x[rs2 as int];
        crate::guest::lemma_store_bytes_error(
            mem,
            addr,
            crate::utils::le_bytes(((value & 0xffff) as u16) as int, 2),
        );
        crate::guest::lemma_store_bytes_error(
            mem,
            addr,
            crate::utils::le_bytes(((value & 0xffffffff) as u32) as int, 4),
        );
        crate::guest::lemma_store_bytes_error(mem, addr, crate::utils::le_bytes(value as int, 8));
    }
}

/// No instruction word is claimed by two of the decoders, so the order in
/// which they are registered makes no difference to what is decoded.
pub proof fn lemma_decoders_disjoint(raw: u32)
    ensures
        rv64i_executor(raw) is Some ==> zicsr_executor(raw) is None && zifencei_executor(raw) is None,
        zicsr_executor(raw) is Some ==> zifencei_executor(raw) is None,
{
    assert(raw == 0x0000_0073u32 ==> ((raw >> 12) & 0x07) as u8 == 0 && raw >> 20 == 0) by (bit_vector);
    assert(raw == 0x0010_0073u32 ==> ((raw >> 12) & 0x07) as u8 == 0 && raw >> 20 == 1) by (bit_vector);
    assert(raw == 0x0000_100fu32 ==> (raw & 0x7f) as u8 == 0x0f && ((raw >> 12) & 0x07) as u8 == 1)
        by (bit_vector);
}

} // verus!
