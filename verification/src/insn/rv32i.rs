//! RV32I instruction set architecture
use vstd::prelude::*;
use crate::error::Error;
use crate::guest::{GuestMem, GuestView};
use crate::insn::{agrees, claimed, field_opcode, form_error, Decoder, Executor, Instruction, InsnType, Outcome};
use crate::state::{State, StateView};

verus! {

pub const RV32I_OPCODE_LOAD: u8 = 0b0000011;

pub const RV32I_OPCODE_STORE: u8 = 0b0100011;

pub const RV32I_OPCODE_OP_IMM: u8 = 0b0010011;

pub const RV32I_OPCODE_OP: u8 = 0b0110011;

pub const RV32I_OPCODE_BRANCH: u8 = 0b1100011;

pub const RV32I_OPCODE_JAL: u8 = 0b1101111;

pub const RV32I_OPCODE_JALR: u8 = 0b1100111;

pub const RV32I_OPCODE_LUI: u8 = 0b0110111;

pub const RV32I_OPCODE_AUIPC: u8 = 0b0010111;

pub const RV32I_OPCODE_FENCE: u8 = 0b0001111;

pub const RV32I_OPCODE_SYSTEM: u8 = 0b1110011;

/// A decoder that knows `lui` alone.
#[derive(Debug)]
pub struct Rv32IDecoder;

/// The operation that the decoder claims `raw` for.
pub open spec fn rv32i_executor(raw: u32) -> Option<Executor> {
    if field_opcode(raw) == RV32I_OPCODE_LUI {
        Some(Executor::Lui32)
    } else {
        None
    }
}

impl Decoder for Rv32IDecoder {
    /// The decoder makes of a word what `rv32i_executor` claims it for, read
    /// in the form of the operation.
    open spec fn decodes(
        &self,
        insn_raw: u32,
        r: Result<Option<(Instruction, Executor)>, Error>,
    ) -> bool {
        r == claimed(insn_raw, rv32i_executor(insn_raw))
    }

    fn decode(&self, insn_raw: u32) -> (r: Result<Option<(Instruction, Executor)>, Error>) {
        let opcode = (insn_raw & 0x7f) as u8;
        if opcode == RV32I_OPCODE_LUI {
            Ok(Some((Instruction::parse(insn_raw, InsnType::U), Executor::Lui32)))
        } else {
            Ok(None)
        }
    }
}

/// `lui` on a 32-bit hart: the destination holds the immediate, which
/// has its bits [31:12] in place, and nothing above bit 31.
pub open spec fn rv32i_effect(state: StateView, mem: GuestView, insn: Instruction) -> Outcome {
    match insn.u_fields() {
        Some((rd, imm)) => Outcome::done(state.with_reg(rd, imm as u64), mem),
        None => Outcome::breach(state, mem),
    }
}

pub fn rv32i_lui(
    state: &mut State,
    guest: &mut GuestMem,
    insn: &Instruction,
) -> (r: Result<(), Error>)
    ensures
        *final(guest) == *old(guest),
        agrees(
            r,
            final(state),
            final(guest),
            Executor::Lui32.effect(old(state)@, old(guest)@, *insn),
        ),
{
    match insn.read_u() {
        Some((rd, imm)) => {
            state.set_reg(rd, imm as u64);
            Ok(())
        },
        None => form_error(),
    }
}

} // verus!
