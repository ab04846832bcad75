//! A stub of the control and status register instructions. It knows two
//! registers, `mhartid` and `mepc`, and `mret`: enough for the start-up
//! code of test programs.
use vstd::prelude::*;
use crate::error::Error;
use crate::guest::{GuestMem, GuestView};
use crate::insn::{
    agrees, claimed, field_funct3, field_opcode, field_rd, field_rs1, form_error,
    lemma_encoding_fields, Decoder, Encoding, Executor, Instruction, Outcome,
};
use crate::state::{State, StateView};
use crate::utils::{zero_extend, zero_extend_spec};

verus! {

pub const ZICSR_OPCODE: u8 = 0b1110011;

pub const ZICSR_FUNCT3_CSRRW: u8 = 0b001;

pub const ZICSR_FUNCT3_CSRRS: u8 = 0b010;

pub const ZICSR_FUNCT3_CSRRC: u8 = 0b011;

pub const ZICSR_FUNCT3_CSRRWI: u8 = 0b101;

pub const ZICSR_FUNCT3_CSRRSI: u8 = 0b110;

pub const ZICSR_FUNCT3_CSRRCI: u8 = 0b111;

pub const CSR_MHARTID: u32 = 0xF14;

pub const CSR_MEPC: u32 = 0x341;

/// The immediate field of `mret`.
pub const PRIV_MRET_IMM: u32 = 770;

/// The instruction word of `mret`.
pub const PRIV_MRET: u32 = 0x3020_0073;

#[derive(Debug)]
pub struct ZicsrDecoder;

/// The control register operation that the word `raw` encodes, if it
/// encodes one: the six register operations by `funct3`, and `mret`.
pub open spec fn zicsr_executor(raw: u32) -> Option<Executor> {
    let funct3 = field_funct3(raw);
    if field_opcode(raw) != ZICSR_OPCODE {
        None
    } else if funct3 == ZICSR_FUNCT3_CSRRW {
        Some(Executor::Csrrw)
    } else if funct3 == ZICSR_FUNCT3_CSRRS {
        Some(Executor::Csrrs)
    } else if funct3 == ZICSR_FUNCT3_CSRRC {
        Some(Executor::Csrrc)
    } else if funct3 == ZICSR_FUNCT3_CSRRWI {
        Some(Executor::Csrrwi)
    } else if funct3 == ZICSR_FUNCT3_CSRRSI {
        Some(Executor::Csrrsi)
    } else if funct3 == ZICSR_FUNCT3_CSRRCI {
        Some(Executor::Csrrci)
    } else if funct3 == 0 && field_rs1(raw) == 0 && field_rd(raw) == 0 && raw >> 20 == PRIV_MRET_IMM {
        Some(Executor::Mret)
    } else {
        None
    }
}

/// How each control register operation is encoded.
pub open spec fn zicsr_encoding(op: Executor) -> Option<Encoding> {
    match op {
        Executor::Csrrw => Some(Encoding::Funct3(ZICSR_OPCODE, ZICSR_FUNCT3_CSRRW)),
        Executor::Csrrs => Some(Encoding::Funct3(ZICSR_OPCODE, ZICSR_FUNCT3_CSRRS)),
        Executor::Csrrc => Some(Encoding::Funct3(ZICSR_OPCODE, ZICSR_FUNCT3_CSRRC)),
        Executor::Csrrwi => Some(Encoding::Funct3(ZICSR_OPCODE, ZICSR_FUNCT3_CSRRWI)),
        Executor::Csrrsi => Some(Encoding::Funct3(ZICSR_OPCODE, ZICSR_FUNCT3_CSRRSI)),
        Executor::Csrrci => Some(Encoding::Funct3(ZICSR_OPCODE, ZICSR_FUNCT3_CSRRCI)),
        Executor::Mret => Some(Encoding::Word(PRIV_MRET)),
        _ => None,
    }
}

/// The decoder claims an instruction word for an operation just when the
/// word holds the fixed bits of the operation's encoding.
pub proof fn lemma_zicsr_encoding(op: Executor, raw: u32)
    ensures
        zicsr_executor(raw) == Some(op) <==> (zicsr_encoding(op) matches Some(e) && e.matches_word(
            raw,
        )),
{
    if zicsr_encoding(op) is Some {
        lemma_encoding_fields(zicsr_encoding(op).unwrap(), raw);
    }
    assert(raw == 0x3020_0073u32 <==> (raw & 0x7f) as u8 == 0x73 && ((raw >> 12) & 0x07) as u8 == 0
        && ((raw >> 15) & 0x1f) as u8 == 0 && ((raw >> 7) & 0x1f) as u8 == 0 && raw >> 20 == 770)
        by (bit_vector);
}

impl Decoder for ZicsrDecoder {
    /// The decoder makes of a word what `zicsr_executor` claims it for, read
    /// in the form of the operation.
    open spec fn decodes(
        &self,
        insn_raw: u32,
        r: Result<Option<(Instruction, Executor)>, Error>,
    ) -> bool {
        r == claimed(insn_raw, zicsr_executor(insn_raw))
    }

    fn decode(&self, insn_raw: u32) -> (r: Result<Option<(Instruction, Executor)>, Error>) {
        let raw = insn_raw;
        let opcode = (raw & 0x7f) as u8;
        let funct3 = ((raw >> 12) & 0x07) as u8;
        if opcode != ZICSR_OPCODE {
            return Ok(None);
        }
        let rd = ((raw >> 7) & 0x1f) as u8;
        let rs1 = ((raw >> 15) & 0x1f) as u8;
        let executor = if funct3 == ZICSR_FUNCT3_CSRRW {
            Executor::Csrrw
        } else if funct3 == ZICSR_FUNCT3_CSRRS {
            Executor::Csrrs
        } else if funct3 == ZICSR_FUNCT3_CSRRC {
            Executor::Csrrc
        } else if funct3 == ZICSR_FUNCT3_CSRRWI {
            Executor::Csrrwi
        } else if funct3 == ZICSR_FUNCT3_CSRRSI {
            Executor::Csrrsi
        } else if funct3 == ZICSR_FUNCT3_CSRRCI {
            Executor::Csrrci
        } else if funct3 == 0 && rs1 == 0 && rd == 0 && raw >> 20 == PRIV_MRET_IMM {
            Executor::Mret
        } else {
            return Ok(None);
        };
        Ok(Some((Instruction::parse(raw, executor.form()), executor)))
    }
}

/// What a register operation makes of the control register: `current`
/// replaced by, joined with or cleared of the bits of `operand`.
pub open spec fn csr_value(op: Executor, current: u64, operand: u64) -> u64 {
    match op {
        Executor::Csrrw | Executor::Csrrwi => operand,
        Executor::Csrrs | Executor::Csrrsi => current | operand,
        _ => current & !operand,
    }
}

/// What a control register operation makes of `state`. `mret` moves the
/// program counter to `mepc`. A register operation on `mhartid` reads 0.
/// One on `mepc` first puts `mepc` in the destination and then changes
/// `mepc` by its operand: the source register as it then stands, or the
/// five bits of the `rs1` field. One on any other register does nothing.
pub open spec fn zicsr_effect(
    op: Executor,
    state: StateView,
    mem: GuestView,
    insn: Instruction,
) -> Outcome {
    if op is Mret {
        Outcome::done(state.with_pc(state.mepc), mem)
    } else {
        match insn.i_fields() {
            Some((rd, rs1, imm)) => if imm == CSR_MHARTID {
                Outcome::done(state.with_reg(rd, 0), mem)
            } else if imm == CSR_MEPC {
                let read = state.with_reg(rd, state.mepc);
                let operand = if op is Csrrwi || op is Csrrsi || op is Csrrci {
                    zero_extend_spec(rs1 as u64, 5)
                } else {
                    read.x[rs1 as int]
                };
                Outcome::done(read.with_mepc(csr_value(op, state.mepc, operand)), mem)
            } else {
                Outcome::done(state, mem)
            },
            None => Outcome::breach(state, mem),
        }
    }
}

/// Carries out a register operation.
fn csr_op(
    op: Executor,
    state: &mut State,
    guest: &GuestMem,
    insn: &Instruction,
) -> (r: Result<(), Error>)
    requires
        op.is_zicsr(),
        !(op is Mret),
    ensures
        agrees(r, final(state), guest, zicsr_effect(op, old(state)@, guest@, *insn)),
{
    match insn {
        Instruction::I { rd, rs1, imm, .. } => {
            if *rd >= 32 || *rs1 >= 32 {
                return form_error();
            }
            let csr = *imm;
            if csr == CSR_MHARTID {
                state.set_reg(*rd, 0);
            } else if csr == CSR_MEPC {
                let current = state.mepc;
                state.set_reg(*rd, current);
                let operand = match op {
                    Executor::Csrrwi | Executor::Csrrsi | Executor::Csrrci => zero_extend(
                        *rs1 as u64,
                        5,
                    ),
                    _ => state.reg(*rs1),
                };
                state.mepc = match op {
                    Executor::Csrrw | Executor::Csrrwi => operand,
                    Executor::Csrrs | Executor::Csrrsi => current | operand,
                    _ => current & !operand,
                };
            }
            Ok(())
        },
        _ => form_error(),
    }
}

/// `csrrw`: reads the register and writes `rs1` to it.
pub fn zicsr_csrrw(
    state: &mut State,
    guest: &mut GuestMem,
    insn: &Instruction,
) -> (r: Result<(), Error>)
    ensures
        *final(guest) == *old(guest),
        agrees(
            r,
            final(state),
            final(guest),
            Executor::Csrrw.effect(old(state)@, old(guest)@, *insn),
        ),
{
    csr_op(Executor::Csrrw, state, guest, insn)
}

/// `csrrs`: reads the register and sets the bits of `rs1` in it.
pub fn zicsr_csrrs(
    state: &mut State,
    guest: &mut GuestMem,
    insn: &Instruction,
) -> (r: Result<(), Error>)
    ensures
        *final(guest) == *old(guest),
        agrees(
            r,
            final(state),
            final(guest),
            Executor::Csrrs.effect(old(state)@, old(guest)@, *insn),
        ),
{
    csr_op(Executor::Csrrs, state, guest, insn)
}

/// `csrrc`: reads the register and clears the bits of `rs1` in it.
pub fn zicsr_csrrc(
    state: &mut State,
    guest: &mut GuestMem,
    insn: &Instruction,
) -> (r: Result<(), Error>)
    ensures
        *final(guest) == *old(guest),
        agrees(
            r,
            final(state),
            final(guest),
            Executor::Csrrc.effect(old(state)@, old(guest)@, *insn),
        ),
{
    csr_op(Executor::Csrrc, state, guest, insn)
}

/// `csrrwi`: reads the register and writes the five-bit immediate to it.
pub fn zicsr_csrrwi(
    state: &mut State,
    guest: &mut GuestMem,
    insn: &Instruction,
) -> (r: Result<(), Error>)
    ensures
        *final(guest) == *old(guest),
        agrees(
            r,
            final(state),
            final(guest),
            Executor::Csrrwi.effect(old(state)@, old(guest)@, *insn),
        ),
{
    csr_op(Executor::Csrrwi, state, guest, insn)
}

/// `csrrsi`: reads the register and sets the bits of the five-bit
/// immediate in it.
pub fn zicsr_csrrsi(
    state: &mut State,
    guest: &mut GuestMem,
    insn: &Instruction,
) -> (r: Result<(), Error>)
    ensures
        *final(guest) == *old(guest),
        agrees(
            r,
            final(state),
            final(guest),
            Executor::Csrrsi.effect(old(state)@, old(guest)@, *insn),
        ),
{
    csr_op(Executor::Csrrsi, state, guest, insn)
}

/// `csrrci`: reads the register and clears the bits of the five-bit
/// immediate in it.
pub fn zicsr_csrrci(
    state: &mut State,
    guest: &mut GuestMem,
    insn: &Instruction,
) -> (r: Result<(), Error>)
    ensures
        *final(guest) == *old(guest),
        agrees(
            r,
            final(state),
            final(guest),
            Executor::Csrrci.effect(old(state)@, old(guest)@, *insn),
        ),
{
    csr_op(Executor::Csrrci, state, guest, insn)
}

/// `mret`: the program counter goes to `mepc`.
pub fn priv_mret(
    state: &mut State,
    guest: &mut GuestMem,
    insn: &Instruction,
) -> (r: Result<(), Error>)
    ensures
        *final(guest) == *old(guest),
        agrees(
            r,
            final(state),
            final(guest),
            Executor::Mret.effect(old(state)@, old(guest)@, *insn),
        ),
{
    state.pc = state.mepc;
    Ok(())
}

} // verus!
