//! RV64I instruction set architecture
use vstd::prelude::*;
use crate::error::Error;
use crate::guest::{GuestMem, GuestView, MemAccess};
use crate::insn::{
    agrees, claimed, field_funct3, field_funct7, field_opcode, form_error, lemma_encoding_fields,
    Decoder, Encoding, Executor, Instruction, Outcome,
};
use crate::state::{BreakCause, State, StateView};
use crate::utils::{le_bytes, sext, sext_spec};

verus! {

pub const RV64I_OPCODE_LOAD: u8 = 0b0000011;

pub const RV64I_OPCODE_STORE: u8 = 0b0100011;

pub const RV64I_OPCODE_OP_IMM: u8 = 0b0010011;

pub const RV64I_OPCODE_OP: u8 = 0b0110011;

pub const RV64I_OPCODE_BRANCH: u8 = 0b1100011;

pub const RV64I_OPCODE_WORD: u8 = 0b0111011;

pub const RV64I_OPCODE_WORD_IMM: u8 = 0b0011011;

pub const RV64I_OPCODE_JAL: u8 = 0b1101111;

pub const RV64I_OPCODE_JALR: u8 = 0b1100111;

pub const RV64I_OPCODE_LUI: u8 = 0b0110111;

pub const RV64I_OPCODE_AUIPC: u8 = 0b0010111;

pub const RV64I_OPCODE_FENCE: u8 = 0b0001111;

pub const RV64I_OPCODE_SYSTEM: u8 = 0b1110011;

/// The instruction word of `ecall`.
pub const RV64I_ECALL: u32 = 0x0000_0073;

/// The instruction word of `ebreak`.
pub const RV64I_EBREAK: u32 = 0x0010_0073;

#[derive(Debug)]
pub struct Rv64IDecoder;

/// The load that `funct3` selects.
pub open spec fn load_table(funct3: u8) -> Option<Executor> {
    match funct3 {
        0b000 => Some(Executor::Lb),
        0b001 => Some(Executor::Lh),
        0b010 => Some(Executor::Lw),
        0b011 => Some(Executor::Ld),
        0b100 => Some(Executor::Lbu),
        0b101 => Some(Executor::Lhu),
        0b110 => Some(Executor::Lwu),
        _ => None,
    }
}

/// The store that `funct3` selects.
pub open spec fn store_table(funct3: u8) -> Option<Executor> {
    match funct3 {
        0b000 => Some(Executor::Sb),
        0b001 => Some(Executor::Sh),
        0b010 => Some(Executor::Sw),
        0b011 => Some(Executor::Sd),
        _ => None,
    }
}

/// The operation on a register and an immediate that `funct3` selects.
/// The shifts take six bits of shift amount, so only the upper six bits
/// of `funct7` tell them apart.
pub open spec fn op_imm_table(funct3: u8, funct7: u8) -> Option<Executor> {
    match funct3 {
        0b000 => Some(Executor::Addi),
        0b001 => if funct7 >> 1 == 0 {
            Some(Executor::Slli)
        } else {
            None
        },
        0b010 => Some(Executor::Slti),
        0b011 => Some(Executor::Sltiu),
        0b100 => Some(Executor::Xori),
        0b101 => if funct7 >> 1 == 0 {
            Some(Executor::Srli)
        } else if funct7 >> 1 == 0b010000 {
            Some(Executor::Srai)
        } else {
            None
        },
        0b110 => Some(Executor::Ori),
        0b111 => Some(Executor::Andi),
        _ => None,
    }
}

/// The branch that `funct3` selects.
pub open spec fn branch_table(funct3: u8) -> Option<Executor> {
    match funct3 {
        0b000 => Some(Executor::Beq),
        0b001 => Some(Executor::Bne),
        0b100 => Some(Executor::Blt),
        0b101 => Some(Executor::Bge),
        0b110 => Some(Executor::Bltu),
        0b111 => Some(Executor::Bgeu),
        _ => None,
    }
}

/// The operation on two registers that `funct3` and `funct7` select.
pub open spec fn op_table(funct3: u8, funct7: u8) -> Option<Executor> {
    if funct7 == 0 {
        match funct3 {
            0b000 => Some(Executor::Add),
            0b001 => Some(Executor::Sll),
            0b010 => Some(Executor::Slt),
            0b011 => Some(Executor::Sltu),
            0b100 => Some(Executor::Xor),
            0b101 => Some(Executor::Srl),
            0b110 => Some(Executor::Or),
            0b111 => Some(Executor::And),
            _ => None,
        }
    } else if funct7 == 0b0100000 {
        match funct3 {
            0b000 => Some(Executor::Sub),
            0b101 => Some(Executor::Sra),
            _ => None,
        }
    } else {
        None
    }
}

/// The word operation on a register and an immediate that `funct3` and
/// `funct7` select.
pub open spec fn word_imm_table(funct3: u8, funct7: u8) -> Option<Executor> {
    match funct3 {
        0b000 => Some(Executor::Addiw),
        0b001 => if funct7 == 0 {
            Some(Executor::Slliw)
        } else {
            None
        },
        0b101 => if funct7 == 0 {
            Some(Executor::Srliw)
        } else if funct7 == 0b0100000 {
            Some(Executor::Sraiw)
        } else {
            None
        },
        _ => None,
    }
}

/// The word operation on two registers that `funct3` and `funct7` select.
pub open spec fn word_table(funct3: u8, funct7: u8) -> Option<Executor> {
    if funct7 == 0 {
        match funct3 {
            0b000 => Some(Executor::Addw),
            0b001 => Some(Executor::Sllw),
            0b101 => Some(Executor::Srlw),
            _ => None,
        }
    } else if funct7 == 0b0100000 {
        match funct3 {
            0b000 => Some(Executor::Subw),
            0b101 => Some(Executor::Sraw),
            _ => None,
        }
    } else {
        None
    }
}

/// The operation of the base instruction set that the word `raw` encodes,
/// if it encodes one.
pub open spec fn rv64i_executor(raw: u32) -> Option<Executor> {
    let opcode = field_opcode(raw);
    let funct3 = field_funct3(raw);
    let funct7 = field_funct7(raw);
    if opcode == RV64I_OPCODE_LUI {
        Some(Executor::Lui)
    } else if opcode == RV64I_OPCODE_AUIPC {
        Some(Executor::Auipc)
    } else if opcode == RV64I_OPCODE_LOAD {
        load_table(funct3)
    } else if opcode == RV64I_OPCODE_STORE {
        store_table(funct3)
    } else if opcode == RV64I_OPCODE_OP_IMM {
        op_imm_table(funct3, funct7)
    } else if opcode == RV64I_OPCODE_BRANCH {
        branch_table(funct3)
    } else if opcode == RV64I_OPCODE_JAL {
        Some(Executor::Jal)
    } else if opcode == RV64I_OPCODE_JALR {
        if funct3 == 0 {
            Some(Executor::Jalr)
        } else {
            None
        }
    } else if opcode == RV64I_OPCODE_OP {
        op_table(funct3, funct7)
    } else if opcode == RV64I_OPCODE_WORD_IMM {
        word_imm_table(funct3, funct7)
    } else if opcode == RV64I_OPCODE_WORD {
        word_table(funct3, funct7)
    } else if opcode == RV64I_OPCODE_FENCE {
        if funct3 == 0 {
            Some(Executor::Fence)
        } else {
            None
        }
    } else if raw == RV64I_ECALL {
        Some(Executor::Ecall)
    } else if raw == RV64I_EBREAK {
        Some(Executor::Ebreak)
    } else {
        None
    }
}

/// How each operation of the base instruction set is encoded.
pub open spec fn rv64i_encoding(op: Executor) -> Option<Encoding> {
    match op {
        Executor::Lui => Some(Encoding::Opcode(RV64I_OPCODE_LUI)),
        Executor::Auipc => Some(Encoding::Opcode(RV64I_OPCODE_AUIPC)),
        Executor::Jal => Some(Encoding::Opcode(RV64I_OPCODE_JAL)),
        Executor::Jalr => Some(Encoding::Funct3(RV64I_OPCODE_JALR, 0b000)),
        Executor::Lb => Some(Encoding::Funct3(RV64I_OPCODE_LOAD, 0b000)),
        Executor::Lh => Some(Encoding::Funct3(RV64I_OPCODE_LOAD, 0b001)),
        Executor::Lw => Some(Encoding::Funct3(RV64I_OPCODE_LOAD, 0b010)),
        Executor::Ld => Some(Encoding::Funct3(RV64I_OPCODE_LOAD, 0b011)),
        Executor::Lbu => Some(Encoding::Funct3(RV64I_OPCODE_LOAD, 0b100)),
        Executor::Lhu => Some(Encoding::Funct3(RV64I_OPCODE_LOAD, 0b101)),
        Executor::Lwu => Some(Encoding::Funct3(RV64I_OPCODE_LOAD, 0b110)),
        Executor::Sb => Some(Encoding::Funct3(RV64I_OPCODE_STORE, 0b000)),
        Executor::Sh => Some(Encoding::Funct3(RV64I_OPCODE_STORE, 0b001)),
        Executor::Sw => Some(Encoding::Funct3(RV64I_OPCODE_STORE, 0b010)),
        Executor::Sd => Some(Encoding::Funct3(RV64I_OPCODE_STORE, 0b011)),
        Executor::Beq => Some(Encoding::Funct3(RV64I_OPCODE_BRANCH, 0b000)),
        Executor::Bne => Some(Encoding::Funct3(RV64I_OPCODE_BRANCH, 0b001)),
        Executor::Blt => Some(Encoding::Funct3(RV64I_OPCODE_BRANCH, 0b100)),
        Executor::Bge => Some(Encoding::Funct3(RV64I_OPCODE_BRANCH, 0b101)),
        Executor::Bltu => Some(Encoding::Funct3(RV64I_OPCODE_BRANCH, 0b110)),
        Executor::Bgeu => Some(Encoding::Funct3(RV64I_OPCODE_BRANCH, 0b111)),
        Executor::Addi => Some(Encoding::Funct3(RV64I_OPCODE_OP_IMM, 0b000)),
        Executor::Slti => Some(Encoding::Funct3(RV64I_OPCODE_OP_IMM, 0b010)),
        Executor::Sltiu => Some(Encoding::Funct3(RV64I_OPCODE_OP_IMM, 0b011)),
        Executor::Xori => Some(Encoding::Funct3(RV64I_OPCODE_OP_IMM, 0b100)),
        Executor::Ori => Some(Encoding::Funct3(RV64I_OPCODE_OP_IMM, 0b110)),
        Executor::Andi => Some(Encoding::Funct3(RV64I_OPCODE_OP_IMM, 0b111)),
        Executor::Slli => Some(Encoding::Funct6(RV64I_OPCODE_OP_IMM, 0b001, 0b000000)),
        Executor::Srli => Some(Encoding::Funct6(RV64I_OPCODE_OP_IMM, 0b101, 0b000000)),
        Executor::Srai => Some(Encoding::Funct6(RV64I_OPCODE_OP_IMM, 0b101, 0b010000)),
        Executor::Add => Some(Encoding::Funct7(RV64I_OPCODE_OP, 0b000, 0b0000000)),
        Executor::Sub => Some(Encoding::Funct7(RV64I_OPCODE_OP, 0b000, 0b0100000)),
        Executor::Sll => Some(Encoding::Funct7(RV64I_OPCODE_OP, 0b001, 0b0000000)),
        Executor::Slt => Some(Encoding::Funct7(RV64I_OPCODE_OP, 0b010, 0b0000000)),
        Executor::Sltu => Some(Encoding::Funct7(RV64I_OPCODE_OP, 0b011, 0b0000000)),
        Executor::Xor => Some(Encoding::Funct7(RV64I_OPCODE_OP, 0b100, 0b0000000)),
        Executor::Srl => Some(Encoding::Funct7(RV64I_OPCODE_OP, 0b101, 0b0000000)),
        Executor::Sra => Some(Encoding::Funct7(RV64I_OPCODE_OP, 0b101, 0b0100000)),
        Executor::Or => Some(Encoding::Funct7(RV64I_OPCODE_OP, 0b110, 0b0000000)),
        Executor::And => Some(Encoding::Funct7(RV64I_OPCODE_OP, 0b111, 0b0000000)),
        Executor::Addiw => Some(Encoding::Funct3(RV64I_OPCODE_WORD_IMM, 0b000)),
        Executor::Slliw => Some(Encoding::Funct7(RV64I_OPCODE_WORD_IMM, 0b001, 0b0000000)),
        Executor::Srliw => Some(Encoding::Funct7(RV64I_OPCODE_WORD_IMM, 0b101, 0b0000000)),
        Executor::Sraiw => Some(Encoding::Funct7(RV64I_OPCODE_WORD_IMM, 0b101, 0b0100000)),
        Executor::Addw => Some(Encoding::Funct7(RV64I_OPCODE_WORD, 0b000, 0b0000000)),
        Executor::Subw => Some(Encoding::Funct7(RV64I_OPCODE_WORD, 0b000, 0b0100000)),
        Executor::Sllw => Some(Encoding::Funct7(RV64I_OPCODE_WORD, 0b001, 0b0000000)),
        Executor::Srlw => Some(Encoding::Funct7(RV64I_OPCODE_WORD, 0b101, 0b0000000)),
        Executor::Sraw => Some(Encoding::Funct7(RV64I_OPCODE_WORD, 0b101, 0b0100000)),
        Executor::Fence => Some(Encoding::Funct3(RV64I_OPCODE_FENCE, 0b000)),
        Executor::Ecall => Some(Encoding::Word(RV64I_ECALL)),
        Executor::Ebreak => Some(Encoding::Word(RV64I_EBREAK)),
        _ => None,
    }
}

/// The decoder claims an instruction word for an operation just when the
/// word holds the fixed bits of the operation's encoding.
pub proof fn lemma_rv64i_encoding(op: Executor, raw: u32)
    ensures
        rv64i_executor(raw) == Some(op) <==> (rv64i_encoding(op) matches Some(e) && e.matches_word(
            raw,
        )),
{
    if rv64i_encoding(op) is Some {
        lemma_encoding_fields(rv64i_encoding(op).unwrap(), raw);
    }
    assert(raw == 0x0000_0073u32 ==> (raw & 0x7f) as u8 == 0x73) by (bit_vector);
    assert(raw == 0x0010_0073u32 ==> (raw & 0x7f) as u8 == 0x73) by (bit_vector);
}

impl Decoder for Rv64IDecoder {
    /// The decoder makes of a word what `rv64i_executor` claims it for, read
    /// in the form of the operation.
    open spec fn decodes(
        &self,
        insn_raw: u32,
        r: Result<Option<(Instruction, Executor)>, Error>,
    ) -> bool {
        r == claimed(insn_raw, rv64i_executor(insn_raw))
    }

    fn decode(&self, insn_raw: u32) -> (r: Result<Option<(Instruction, Executor)>, Error>) {
        let raw = insn_raw;
        let opcode = (raw & 0x7f) as u8;
        let funct3 = ((raw >> 12) & 0x07) as u8;
        let funct7 = ((raw >> 25) & 0x7f) as u8;
        let executor = if opcode == RV64I_OPCODE_LUI {
            Executor::Lui
        } else if opcode == RV64I_OPCODE_AUIPC {
            Executor::Auipc
        } else if opcode == RV64I_OPCODE_LOAD {
            match funct3 {
                0b000 => Executor::Lb,
                0b001 => Executor::Lh,
                0b010 => Executor::Lw,
                0b011 => Executor::Ld,
                0b100 => Executor::Lbu,
                0b101 => Executor::Lhu,
                0b110 => Executor::Lwu,
                _ => {
                    return Ok(None);
                },
            }
        } else if opcode == RV64I_OPCODE_STORE {
            match funct3 {
                0b000 => Executor::Sb,
                0b001 => Executor::Sh,
                0b010 => Executor::Sw,
                0b011 => Executor::Sd,
                _ => {
                    return Ok(None);
                },
            }
        } else if opcode == RV64I_OPCODE_OP_IMM {
            match funct3 {
                0b000 => Executor::Addi,
                0b001 => match funct7 >> 1 {
                    0 => Executor::Slli,
                    _ => {
                        return Ok(None);
                    },
                },
                0b010 => Executor::Slti,
                0b011 => Executor::Sltiu,
                0b100 => Executor::Xori,
                0b101 => match funct7 >> 1 {
                    0 => Executor::Srli,
                    0b010000 => Executor::Srai,
                    _ => {
                        return Ok(None);
                    },
                },
                0b110 => Executor::Ori,
                0b111 => Executor::Andi,
                _ => {
                    return Ok(None);
                },
            }
        } else if opcode == RV64I_OPCODE_BRANCH {
            match funct3 {
                0b000 => Executor::Beq,
                0b001 => Executor::Bne,
                0b100 => Executor::Blt,
                0b101 => Executor::Bge,
                0b110 => Executor::Bltu,
                0b111 => Executor::Bgeu,
                _ => {
                    return Ok(None);
                },
            }
        } else if opcode == RV64I_OPCODE_JAL {
            Executor::Jal
        } else if opcode == RV64I_OPCODE_JALR {
            match funct3 {
                0b000 => Executor::Jalr,
                _ => {
                    return Ok(None);
                },
            }
        } else if opcode == RV64I_OPCODE_OP {
            match funct3 {
                0b000 => match funct7 {
                    0 => Executor::Add,
                    0b0100000 => Executor::Sub,
                    _ => {
                        return Ok(None);
                    },
                },
                0b001 => match funct7 {
                    0 => Executor::Sll,
                    _ => {
                        return Ok(None);
                    },
                },
                0b010 => match funct7 {
                    0 => Executor::Slt,
                    _ => {
                        return Ok(None);
                    },
                },
                0b011 => match funct7 {
                    0 => Executor::Sltu,
                    _ => {
                        return Ok(None);
                    },
                },
                0b100 => match funct7 {
                    0 => Executor::Xor,
                    _ => {
                        return Ok(None);
                    },
                },
                0b101 => match funct7 {
                    0 => Executor::Srl,
                    0b0100000 => Executor::Sra,
                    _ => {
                        return Ok(None);
                    },
                },
                0b110 => match funct7 {
                    0 => Executor::Or,
                    _ => {
                        return Ok(None);
                    },
                },
                0b111 => match funct7 {
                    0 => Executor::And,
                    _ => {
                        return Ok(None);
                    },
                },
                _ => {
                    return Ok(None);
                },
            }
        } else if opcode == RV64I_OPCODE_WORD_IMM {
            match funct3 {
                0b000 => Executor::Addiw,
                0b001 => match funct7 {
                    0 => Executor::Slliw,
                    _ => {
                        return Ok(None);
                    },
                },
                0b101 => match funct7 {
                    0 => Executor::Srliw,
                    0b0100000 => Executor::Sraiw,
                    _ => {
                        return Ok(None);
                    },
                },
                _ => {
                    return Ok(None);
                },
            }
        } else if opcode == RV64I_OPCODE_WORD {
            match funct3 {
                0b000 => match funct7 {
                    0 => Executor::Addw,
                    0b0100000 => Executor::Subw,
                    _ => {
                        return Ok(None);
                    },
                },
                0b001 => match funct7 {
                    0 => Executor::Sllw,
                    _ => {
                        return Ok(None);
                    },
                },
                0b101 => match funct7 {
                    0 => Executor::Srlw,
                    0b0100000 => Executor::Sraw,
                    _ => {
                        return Ok(None);
                    },
                },
                _ => {
                    return Ok(None);
                },
            }
        } else if opcode == RV64I_OPCODE_FENCE {
            match funct3 {
                0b000 => Executor::Fence,
                _ => {
                    return Ok(None);
                },
            }
        } else if raw == RV64I_ECALL {
            Executor::Ecall
        } else if raw == RV64I_EBREAK {
            Executor::Ebreak
        } else {
            return Ok(None);
        };
        Ok(Some((Instruction::parse(raw, executor.form()), executor)))
    }
}

/// Whether `op` works on a register and an immediate.
pub open spec fn is_alu_imm(op: Executor) -> bool {
    op is Addi || op is Slli || op is Srli || op is Srai || op is Xori || op is Ori || op is Andi
        || op is Slti || op is Sltiu || op is Addiw || op is Slliw || op is Srliw || op is Sraiw
}

/// Whether `op` works on two registers.
pub open spec fn is_alu_reg(op: Executor) -> bool {
    op is Add || op is Sub || op is Sll || op is Srl || op is Sra || op is Xor || op is Or || op is And
        || op is Slt || op is Sltu || op is Addw || op is Subw || op is Sllw || op is Srlw
        || op is Sraw
}

/// Whether `op` is a load.
pub open spec fn is_load(op: Executor) -> bool {
    op is Lb || op is Lbu || op is Lh || op is Lhu || op is Lw || op is Lwu || op is Ld
}

/// Whether `op` is a store.
pub open spec fn is_store(op: Executor) -> bool {
    op is Sb || op is Sh || op is Sw || op is Sd
}

/// Whether `op` is a conditional branch.
pub open spec fn is_branch(op: Executor) -> bool {
    op is Beq || op is Bne || op is Blt || op is Bge || op is Bltu || op is Bgeu
}

/// The value that an arithmetic or logic operation computes from its two
/// operands. Shifts of doublewords take the low six bits of `b` as the
/// shift amount, shifts of words the low five. Word operations compute in
/// 32 bits and sign-extend the result.
pub open spec fn alu(op: Executor, a: u64, b: u64) -> u64 {
    match op {
        Executor::Add | Executor::Addi => a.wrapping_add(b),
        Executor::Sub => a.wrapping_sub(b),
        Executor::Sll | Executor::Slli => a << (b & 0x3f),
        Executor::Srl | Executor::Srli => a >> (b & 0x3f),
        Executor::Sra | Executor::Srai => ((a as i64) >> (b & 0x3f)) as u64,
        Executor::Slt | Executor::Slti => if (a as i64) < (b as i64) {
            1
        } else {
            0
        },
        Executor::Sltu | Executor::Sltiu => if a < b {
            1
        } else {
            0
        },
        Executor::Xor | Executor::Xori => a ^ b,
        Executor::Or | Executor::Ori => a | b,
        Executor::And | Executor::Andi => a & b,
        Executor::Addw | Executor::Addiw => sext_spec((a as u32).wrapping_add(b as u32) as u64, 32),
        Executor::Subw => sext_spec((a as u32).wrapping_sub(b as u32) as u64, 32),
        Executor::Sllw | Executor::Slliw => sext_spec(((a as u32) << (b & 0x1f)) as u64, 32),
        Executor::Srlw | Executor::Srliw => sext_spec(((a as u32) >> (b & 0x1f)) as u64, 32),
        Executor::Sraw | Executor::Sraiw => sext_spec((((a as i32) >> (b & 0x1f)) as u32) as u64, 32),
        _ => 0,
    }
}

/// The second operand that an immediate stands for: itself for the
/// shifts, and its sign extension from 12 bits for every other operation.
pub open spec fn imm_operand(op: Executor, imm: u32) -> u64 {
    if op is Slli || op is Srli || op is Srai || op is Slliw || op is Srliw || op is Sraiw {
        imm as u64
    } else {
        sext_spec(imm as u64, 12)
    }
}

/// Whether a branch is taken on the operands `a` and `b`.
pub open spec fn taken(op: Executor, a: u64, b: u64) -> bool {
    match op {
        Executor::Beq => a == b,
        Executor::Bne => a != b,
        Executor::Blt => (a as i64) < (b as i64),
        Executor::Bge => (a as i64) >= (b as i64),
        Executor::Bltu => a < b,
        Executor::Bgeu => a >= b,
        _ => false,
    }
}

/// What a load finds at `addr`: the byte, halfword, word or doubleword
/// there, sign-extended or zero-extended to 64 bits.
pub open spec fn loaded(op: Executor, mem: GuestView, addr: u64) -> Result<u64, Error> {
    match op {
        Executor::Lb => match mem.load(addr, MemAccess::Read) {
            Ok(v) => Ok(sext_spec(v as u64, 8)),
            Err(e) => Err(e),
        },
        Executor::Lbu => match mem.load(addr, MemAccess::Read) {
            Ok(v) => Ok(v as u64),
            Err(e) => Err(e),
        },
        Executor::Lh => match mem.load_u16(addr, MemAccess::Read) {
            Ok(v) => Ok(sext_spec(v as u64, 16)),
            Err(e) => Err(e),
        },
        Executor::Lhu => match mem.load_u16(addr, MemAccess::Read) {
            Ok(v) => Ok(v as u64),
            Err(e) => Err(e),
        },
        Executor::Lw => match mem.load_u32(addr, MemAccess::Read) {
            Ok(v) => Ok(sext_spec(v as u64, 32)),
            Err(e) => Err(e),
        },
        Executor::Lwu => match mem.load_u32(addr, MemAccess::Read) {
            Ok(v) => Ok(v as u64),
            Err(e) => Err(e),
        },
        _ => mem.load_u64(addr, MemAccess::Read),
    }
}

/// Memory after a store of the low bits of `value` at `addr`, and how the
/// store ends.
pub open spec fn stored(
    op: Executor,
    mem: GuestView,
    addr: u64,
    value: u64,
) -> (GuestView, Result<(), Error>) {
    match op {
        Executor::Sb => mem.store(addr, (value & 0xff) as u8),
        Executor::Sh => mem.store_bytes(addr, le_bytes(((value & 0xffff) as u16) as int, 2)),
        Executor::Sw => mem.store_bytes(addr, le_bytes(((value & 0xffffffff) as u32) as int, 4)),
        _ => mem.store_bytes(addr, le_bytes(value as int, 8)),
    }
}

/// What an operation of the base instruction set makes of `state` and
/// `mem`. An operation that is handed an instruction of another form
/// than its own, or a register number above 31, changes nothing and fails.
/// A load or store that fails leaves the registers as they were.
pub open spec fn rv64i_effect(
    op: Executor,
    state: StateView,
    mem: GuestView,
    insn: Instruction,
) -> Outcome {
    if is_alu_imm(op) {
        match insn.i_fields() {
            Some((rd, rs1, imm)) => Outcome::done(
                state.with_reg(rd, alu(op, state.x[rs1 as int], imm_operand(op, imm))),
                mem,
            ),
            None => Outcome::breach(state, mem),
        }
    } else if is_alu_reg(op) {
        match insn.r_fields() {
            Some((rd, rs1, rs2)) => Outcome::done(
                state.with_reg(rd, alu(op, state.x[rs1 as int], state.x[rs2 as int])),
                mem,
            ),
            None => Outcome::breach(state, mem),
        }
    } else if is_load(op) {
        match insn.i_fields() {
            Some((rd, rs1, imm)) => match loaded(
                op,
                mem,
                state.x[rs1 as int].wrapping_add(sext_spec(imm as u64, 12)),
            ) {
                Ok(v) => Outcome::done(state.with_reg(rd, v), mem),
                Err(e) => Outcome::fail(e, state, mem),
            },
            None => Outcome::breach(state, mem),
        }
    } else if is_store(op) {
        match insn.s_fields() {
            Some((rs1, rs2, imm)) => {
                let (after, r) = stored(
                    op,
                    mem,
                    state.x[rs1 as int].wrapping_add(sext_spec(imm as u64, 12)),
                    state.x[rs2 as int],
                );
                Outcome { result: r, state, mem: after }
            },
            None => Outcome::breach(state, mem),
        }
    } else if is_branch(op) {
        match insn.b_fields() {
            Some((rs1, rs2, imm)) => if taken(op, state.x[rs1 as int], state.x[rs2 as int]) {
                Outcome::done(state.with_pc(state.pc.wrapping_add(sext_spec(imm as u64, 13))), mem)
            } else {
                Outcome::done(state, mem)
            },
            None => Outcome::breach(state, mem),
        }
    } else {
        match op {
            Executor::Lui => match insn.u_fields() {
                Some((rd, imm)) => Outcome::done(state.with_reg(rd, sext_spec(imm as u64, 32)), mem),
                None => Outcome::breach(state, mem),
            },
            Executor::Auipc => match insn.u_fields() {
                Some((rd, imm)) => Outcome::done(
                    state.with_reg(rd, state.pc.wrapping_add(sext_spec(imm as u64, 32))),
                    mem,
                ),
                None => Outcome::breach(state, mem),
            },
            Executor::Jal => match insn.j_fields() {
                Some((rd, imm)) => Outcome::done(
                    state.with_reg(rd, state.pc.wrapping_add(4)).with_pc(
                        state.pc.wrapping_add(sext_spec(imm as u64, 21)),
                    ),
                    mem,
                ),
                None => Outcome::breach(state, mem),
            },
            Executor::Jalr => match insn.i_fields() {
                Some((rd, rs1, imm)) => Outcome::done(
                    state.with_reg(rd, state.pc.wrapping_add(4)).with_pc(
                        state.x[rs1 as int].wrapping_add(sext_spec(imm as u64, 12)) & !1u64,
                    ),
                    mem,
                ),
                None => Outcome::breach(state, mem),
            },
            Executor::Ecall => Outcome::done(state.with_break(Some(BreakCause::Ecall)), mem),
            Executor::Ebreak => Outcome::done(state.with_break(Some(BreakCause::Ebreak)), mem),
            _ => Outcome::done(state, mem),
        }
    }
}

/// The low six bits of `b`, the shift amount of a doubleword.
fn shamt6(b: u64) -> (r: u64)
    ensures
        r == b & 0x3f,
        r < 64,
{
    assert(b & 0x3f < 64) by (bit_vector);
    b & 0x3f
}

/// The low five bits of `b`, the shift amount of a word.
fn shamt5(b: u64) -> (r: u64)
    ensures
        r == b & 0x1f,
        r < 32,
{
    assert(b & 0x1f < 32) by (bit_vector);
    b & 0x1f
}

/// Computes the value of an arithmetic or logic operation.
fn alu_value(op: Executor, a: u64, b: u64) -> (r: u64)
    ensures
        r == alu(op, a, b),
{
    match op {
        Executor::Add | Executor::Addi => a.wrapping_add(b),
        Executor::Sub => a.wrapping_sub(b),
        Executor::Sll | Executor::Slli => a << shamt6(b),
        Executor::Srl | Executor::Srli => a >> shamt6(b),
        Executor::Sra | Executor::Srai => ((a as i64) >> shamt6(b)) as u64,
        Executor::Slt | Executor::Slti => if (a as i64) < (b as i64) {
            1
        } else {
            0
        },
        Executor::Sltu | Executor::Sltiu => if a < b {
            1
        } else {
            0
        },
        Executor::Xor | Executor::Xori => a ^ b,
        Executor::Or | Executor::Ori => a | b,
        Executor::And | Executor::Andi => a & b,
        Executor::Addw | Executor::Addiw => sext((a as u32).wrapping_add(b as u32) as u64, 32),
        Executor::Subw => sext((a as u32).wrapping_sub(b as u32) as u64, 32),
        Executor::Sllw | Executor::Slliw => sext(((a as u32) << shamt5(b)) as u64, 32),
        Executor::Srlw | Executor::Srliw => sext(((a as u32) >> shamt5(b)) as u64, 32),
        Executor::Sraw | Executor::Sraiw => sext((((a as i32) >> shamt5(b)) as u32) as u64, 32),
        _ => 0,
    }
}

/// Carries out an operation on a register and an immediate.
fn alu_imm(op: Executor, state: &mut State, guest: &GuestMem, insn: &Instruction) -> (r: Result<
    (),
    Error,
>)
    requires
        is_alu_imm(op),
    ensures
        agrees(r, final(state), guest, rv64i_effect(op, old(state)@, guest@, *insn)),
{
    match insn.read_i(state) {
        Some((rd, a, imm)) => {
            let b = match op {
                Executor::Slli | Executor::Srli | Executor::Srai | Executor::Slliw
                | Executor::Srliw | Executor::Sraiw => imm as u64,
                _ => sext(imm as u64, 12),
            };
            state.set_reg(rd, alu_value(op, a, b));
            Ok(())
        },
        None => form_error(),
    }
}

/// Carries out an operation on two registers.
fn alu_reg(op: Executor, state: &mut State, guest: &GuestMem, insn: &Instruction) -> (r: Result<
    (),
    Error,
>)
    requires
        is_alu_reg(op),
    ensures
        agrees(r, final(state), guest, rv64i_effect(op, old(state)@, guest@, *insn)),
{
    match insn.read_r(state) {
        Some((rd, a, b)) => {
            state.set_reg(rd, alu_value(op, a, b));
            Ok(())
        },
        None => form_error(),
    }
}

/// Carries out a load.
fn load(
    op: Executor,
    state: &mut State,
    guest: &GuestMem,
    insn: &Instruction,
) -> (r: Result<(), Error>)
    requires
        is_load(op),
        guest.wf(),
    ensures
        agrees(r, final(state), guest, rv64i_effect(op, old(state)@, guest@, *insn)),
{
    match insn.read_i(state) {
        Some((rd, base, imm)) => {
            let addr = base.wrapping_add(sext(imm as u64, 12));
            let value = match op {
                Executor::Lb => match guest.read_u8(addr) {
                    Ok(v) => sext(v as u64, 8),
                    Err(e) => {
                        return Err(e);
                    },
                },
                Executor::Lbu => match guest.read_u8(addr) {
                    Ok(v) => v as u64,
                    Err(e) => {
                        return Err(e);
                    },
                },
                Executor::Lh => match guest.read_u16(addr) {
                    Ok(v) => sext(v as u64, 16),
                    Err(e) => {
                        return Err(e);
                    },
                },
                Executor::Lhu => match guest.read_u16(addr) {
                    Ok(v) => v as u64,
                    Err(e) => {
                        return Err(e);
                    },
                },
                Executor::Lw => match guest.read_u32(addr) {
                    Ok(v) => sext(v as u64, 32),
                    Err(e) => {
                        return Err(e);
                    },
                },
                Executor::Lwu => match guest.read_u32(addr) {
                    Ok(v) => v as u64,
                    Err(e) => {
                        return Err(e);
                    },
                },
                _ => match guest.read_u64(addr) {
                    Ok(v) => v,
                    Err(e) => {
                        return Err(e);
                    },
                },
            };
            state.set_reg(rd, value);
            Ok(())
        },
        None => form_error(),
    }
}

/// Carries out a store.
fn store(
    op: Executor,
    state: &State,
    guest: &mut GuestMem,
    insn: &Instruction,
) -> (r: Result<(), Error>)
    requires
        is_store(op),
        old(guest).wf(),
    ensures
        final(guest).wf(),
        agrees(r, state, final(guest), rv64i_effect(op, state@, old(guest)@, *insn)),
{
    match insn.read_s(state) {
        Some((base, value, imm)) => {
            let addr = base.wrapping_add(sext(imm as u64, 12));
            match op {
                Executor::Sb => guest.write_u8(addr, (value & 0xff) as u8),
                Executor::Sh => guest.write_u16(addr, (value & 0xffff) as u16),
                Executor::Sw => guest.write_u32(addr, (value & 0xffffffff) as u32),
                _ => guest.write_u64(addr, value),
            }
        },
        None => form_error(),
    }
}

/// Carries out a conditional branch.
fn branch(op: Executor, state: &mut State, guest: &GuestMem, insn: &Instruction) -> (r: Result<
    (),
    Error,
>)
    requires
        is_branch(op),
    ensures
        agrees(r, final(state), guest, rv64i_effect(op, old(state)@, guest@, *insn)),
{
    match insn.read_b(state) {
        Some((a, b, imm)) => {
            let jump = match op {
                Executor::Beq => a == b,
                Executor::Bne => a != b,
                Executor::Blt => (a as i64) < (b as i64),
                Executor::Bge => (a as i64) >= (b as i64),
                Executor::Bltu => a < b,
                Executor::Bgeu => a >= b,
                _ => false,
            };
            if jump {
                state.pc = state.pc.wrapping_add(sext(imm as u64, 13));
            }
            Ok(())
        },
        None => form_error(),
    }
}

/// `lui`: the destination holds the immediate, sign-extended from 32 bits.
pub fn rv64i_lui(
    state: &mut State,
    guest: &mut GuestMem,
    insn: &Instruction,
) -> (r: Result<(), Error>)
    ensures
        *final(guest) == *old(guest),
        agrees(
            r,
            final(state),
            final(guest),
            Executor::Lui.effect(old(state)@, old(guest)@, *insn),
        ),
{
    match insn.read_u() {
        Some((rd, imm)) => {
            state.set_reg(rd, sext(imm as u64, 32));
            Ok(())
        },
        None => form_error(),
    }
}

/// `auipc`: the destination holds the program counter plus the immediate,
/// sign-extended from 32 bits.
pub fn rv64i_auipc(
    state: &mut State,
    guest: &mut GuestMem,
    insn: &Instruction,
) -> (r: Result<(), Error>)
    ensures
        *final(guest) == *old(guest),
        agrees(
            r,
            final(state),
            final(guest),
            Executor::Auipc.effect(old(state)@, old(guest)@, *insn),
        ),
{
    match insn.read_u() {
        Some((rd, imm)) => {
            let value = state.pc.wrapping_add(sext(imm as u64, 32));
            state.set_reg(rd, value);
            Ok(())
        },
        None => form_error(),
    }
}

/// `lb`: loads a byte and sign-extends it.
pub fn rv64i_lb(
    state: &mut State,
    guest: &mut GuestMem,
    insn: &Instruction,
) -> (r: Result<(), Error>)
    requires
        old(guest).wf(),
    ensures
        *final(guest) == *old(guest),
        agrees(r, final(state), final(guest), Executor::Lb.effect(old(state)@, old(guest)@, *insn)),
{
    load(Executor::Lb, state, guest, insn)
}

/// `lbu`: loads a byte and zero-extends it.
pub fn rv64i_lbu(
    state: &mut State,
    guest: &mut GuestMem,
    insn: &Instruction,
) -> (r: Result<(), Error>)
    requires
        old(guest).wf(),
    ensures
        *final(guest) == *old(guest),
        agrees(
            r,
            final(state),
            final(guest),
            Executor::Lbu.effect(old(state)@, old(guest)@, *insn),
        ),
{
    load(Executor::Lbu, state, guest, insn)
}

/// `lh`: loads a halfword and sign-extends it.
pub fn rv64i_lh(
    state: &mut State,
    guest: &mut GuestMem,
    insn: &Instruction,
) -> (r: Result<(), Error>)
    requires
        old(guest).wf(),
    ensures
        *final(guest) == *old(guest),
        agrees(r, final(state), final(guest), Executor::Lh.effect(old(state)@, old(guest)@, *insn)),
{
    load(Executor::Lh, state, guest, insn)
}

/// `lhu`: loads a halfword and zero-extends it.
pub fn rv64i_lhu(
    state: &mut State,
    guest: &mut GuestMem,
    insn: &Instruction,
) -> (r: Result<(), Error>)
    requires
        old(guest).wf(),
    ensures
        *final(guest) == *old(guest),
        agrees(
            r,
            final(state),
            final(guest),
            Executor::Lhu.effect(old(state)@, old(guest)@, *insn),
        ),
{
    load(Executor::Lhu, state, guest, insn)
}

/// `lw`: loads a word and sign-extends it.
pub fn rv64i_lw(
    state: &mut State,
    guest: &mut GuestMem,
    insn: &Instruction,
) -> (r: Result<(), Error>)
    requires
        old(guest).wf(),
    ensures
        *final(guest) == *old(guest),
        agrees(r, final(state), final(guest), Executor::Lw.effect(old(state)@, old(guest)@, *insn)),
{
    load(Executor::Lw, state, guest, insn)
}

/// `ld`: loads a doubleword.
pub fn rv64i_ld(
    state: &mut State,
    guest: &mut GuestMem,
    insn: &Instruction,
) -> (r: Result<(), Error>)
    requires
        old(guest).wf(),
    ensures
        *final(guest) == *old(guest),
        agrees(r, final(state), final(guest), Executor::Ld.effect(old(state)@, old(guest)@, *insn)),
{
    load(Executor::Ld, state, guest, insn)
}

/// `sb`: stores the low byte of `rs2`.
pub fn rv64i_sb(
    state: &mut State,
    guest: &mut GuestMem,
    insn: &Instruction,
) -> (r: Result<(), Error>)
    requires
        old(guest).wf(),
    ensures
        final(guest).wf(),
        agrees(r, final(state), final(guest), Executor::Sb.effect(old(state)@, old(guest)@, *insn)),
{
    store(Executor::Sb, state, guest, insn)
}

/// `sh`: stores the low halfword of `rs2`.
pub fn rv64i_sh(
    state: &mut State,
    guest: &mut GuestMem,
    insn: &Instruction,
) -> (r: Result<(), Error>)
    requires
        old(guest).wf(),
    ensures
        final(guest).wf(),
        agrees(r, final(state), final(guest), Executor::Sh.effect(old(state)@, old(guest)@, *insn)),
{
    store(Executor::Sh, state, guest, insn)
}

/// `sw`: stores the low word of `rs2`.
pub fn rv64i_sw(
    state: &mut State,
    guest: &mut GuestMem,
    insn: &Instruction,
) -> (r: Result<(), Error>)
    requires
        old(guest).wf(),
    ensures
        final(guest).wf(),
        agrees(r, final(state), final(guest), Executor::Sw.effect(old(state)@, old(guest)@, *insn)),
{
    store(Executor::Sw, state, guest, insn)
}

/// `sd`: stores `rs2`.
pub fn rv64i_sd(
    state: &mut State,
    guest: &mut GuestMem,
    insn: &Instruction,
) -> (r: Result<(), Error>)
    requires
        old(guest).wf(),
    ensures
        final(guest).wf(),
        agrees(r, final(state), final(guest), Executor::Sd.effect(old(state)@, old(guest)@, *insn)),
{
    store(Executor::Sd, state, guest, insn)
}

/// `addi`: adds the sign-extended immediate.
pub fn rv64i_addi(
    state: &mut State,
    guest: &mut GuestMem,
    insn: &Instruction,
) -> (r: Result<(), Error>)
    ensures
        *final(guest) == *old(guest),
        agrees(
            r,
            final(state),
            final(guest),
            Executor::Addi.effect(old(state)@, old(guest)@, *insn),
        ),
{
    alu_imm(Executor::Addi, state, guest, insn)
}

/// `slli`: shifts left by the low six bits of the immediate.
pub fn rv64i_slli(
    state: &mut State,
    guest: &mut GuestMem,
    insn: &Instruction,
) -> (r: Result<(), Error>)
    ensures
        *final(guest) == *old(guest),
        agrees(
            r,
            final(state),
            final(guest),
            Executor::Slli.effect(old(state)@, old(guest)@, *insn),
        ),
{
    alu_imm(Executor::Slli, state, guest, insn)
}

/// `srli`: shifts right by the low six bits of the immediate, filling with zeros.
pub fn rv64i_srli(
    state: &mut State,
    guest: &mut GuestMem,
    insn: &Instruction,
) -> (r: Result<(), Error>)
    ensures
        *final(guest) == *old(guest),
        agrees(
            r,
            final(state),
            final(guest),
            Executor::Srli.effect(old(state)@, old(guest)@, *insn),
        ),
{
    alu_imm(Executor::Srli, state, guest, insn)
}

/// `srai`: shifts right by the low six bits of the immediate, filling with the sign.
pub fn rv64i_srai(
    state: &mut State,
    guest: &mut GuestMem,
    insn: &Instruction,
) -> (r: Result<(), Error>)
    ensures
        *final(guest) == *old(guest),
        agrees(
            r,
            final(state),
            final(guest),
            Executor::Srai.effect(old(state)@, old(guest)@, *insn),
        ),
{
    alu_imm(Executor::Srai, state, guest, insn)
}

/// `xori`: exclusive or with the sign-extended immediate.
pub fn rv64i_xori(
    state: &mut State,
    guest: &mut GuestMem,
    insn: &Instruction,
) -> (r: Result<(), Error>)
    ensures
        *final(guest) == *old(guest),
        agrees(
            r,
            final(state),
            final(guest),
            Executor::Xori.effect(old(state)@, old(guest)@, *insn),
        ),
{
    alu_imm(Executor::Xori, state, guest, insn)
}

/// `ori`: or with the sign-extended immediate.
pub fn rv64i_ori(
    state: &mut State,
    guest: &mut GuestMem,
    insn: &Instruction,
) -> (r: Result<(), Error>)
    ensures
        *final(guest) == *old(guest),
        agrees(
            r,
            final(state),
            final(guest),
            Executor::Ori.effect(old(state)@, old(guest)@, *insn),
        ),
{
    alu_imm(Executor::Ori, state, guest, insn)
}

/// `andi`: and with the sign-extended immediate.
pub fn rv64i_andi(
    state: &mut State,
    guest: &mut GuestMem,
    insn: &Instruction,
) -> (r: Result<(), Error>)
    ensures
        *final(guest) == *old(guest),
        agrees(
            r,
            final(state),
            final(guest),
            Executor::Andi.effect(old(state)@, old(guest)@, *insn),
        ),
{
    alu_imm(Executor::Andi, state, guest, insn)
}

/// `slti`: 1 if `rs1` is below the sign-extended immediate as signed numbers, else 0.
pub fn rv64i_slti(
    state: &mut State,
    guest: &mut GuestMem,
    insn: &Instruction,
) -> (r: Result<(), Error>)
    ensures
        *final(guest) == *old(guest),
        agrees(
            r,
            final(state),
            final(guest),
            Executor::Slti.effect(old(state)@, old(guest)@, *insn),
        ),
{
    alu_imm(Executor::Slti, state, guest, insn)
}

/// `sltiu`: 1 if `rs1` is below the sign-extended immediate as unsigned numbers, else 0.
pub fn rv64i_sltiu(
    state: &mut State,
    guest: &mut GuestMem,
    insn: &Instruction,
) -> (r: Result<(), Error>)
    ensures
        *final(guest) == *old(guest),
        agrees(
            r,
            final(state),
            final(guest),
            Executor::Sltiu.effect(old(state)@, old(guest)@, *insn),
        ),
{
    alu_imm(Executor::Sltiu, state, guest, insn)
}

/// `add`: adds, wrapping.
pub fn rv64i_add(
    state: &mut State,
    guest: &mut GuestMem,
    insn: &Instruction,
) -> (r: Result<(), Error>)
    ensures
        *final(guest) == *old(guest),
        agrees(
            r,
            final(state),
            final(guest),
            Executor::Add.effect(old(state)@, old(guest)@, *insn),
        ),
{
    alu_reg(Executor::Add, state, guest, insn)
}

/// `sub`: subtracts, wrapping.
pub fn rv64i_sub(
    state: &mut State,
    guest: &mut GuestMem,
    insn: &Instruction,
) -> (r: Result<(), Error>)
    ensures
        *final(guest) == *old(guest),
        agrees(
            r,
            final(state),
            final(guest),
            Executor::Sub.effect(old(state)@, old(guest)@, *insn),
        ),
{
    alu_reg(Executor::Sub, state, guest, insn)
}

/// `sll`: shifts left by the low six bits of `rs2`.
pub fn rv64i_sll(
    state: &mut State,
    guest: &mut GuestMem,
    insn: &Instruction,
) -> (r: Result<(), Error>)
    ensures
        *final(guest) == *old(guest),
        agrees(
            r,
            final(state),
            final(guest),
            Executor::Sll.effect(old(state)@, old(guest)@, *insn),
        ),
{
    alu_reg(Executor::Sll, state, guest, insn)
}

/// `srl`: shifts right by the low six bits of `rs2`, filling with zeros.
pub fn rv64i_srl(
    state: &mut State,
    guest: &mut GuestMem,
    insn: &Instruction,
) -> (r: Result<(), Error>)
    ensures
        *final(guest) == *old(guest),
        agrees(
            r,
            final(state),
            final(guest),
            Executor::Srl.effect(old(state)@, old(guest)@, *insn),
        ),
{
    alu_reg(Executor::Srl, state, guest, insn)
}

/// `sra`: shifts right by the low six bits of `rs2`, filling with the sign.
pub fn rv64i_sra(
    state: &mut State,
    guest: &mut GuestMem,
    insn: &Instruction,
) -> (r: Result<(), Error>)
    ensures
        *final(guest) == *old(guest),
        agrees(
            r,
            final(state),
            final(guest),
            Executor::Sra.effect(old(state)@, old(guest)@, *insn),
        ),
{
    alu_reg(Executor::Sra, state, guest, insn)
}

/// `xor`: exclusive or.
pub fn rv64i_xor(
    state: &mut State,
    guest: &mut GuestMem,
    insn: &Instruction,
) -> (r: Result<(), Error>)
    ensures
        *final(guest) == *old(guest),
        agrees(
            r,
            final(state),
            final(guest),
            Executor::Xor.effect(old(state)@, old(guest)@, *insn),
        ),
{
    alu_reg(Executor::Xor, state, guest, insn)
}

/// `or`: or.
pub fn rv64i_or(
    state: &mut State,
    guest: &mut GuestMem,
    insn: &Instruction,
) -> (r: Result<(), Error>)
    ensures
        *final(guest) == *old(guest),
        agrees(r, final(state), final(guest), Executor::Or.effect(old(state)@, old(guest)@, *insn)),
{
    alu_reg(Executor::Or, state, guest, insn)
}

/// `and`: and.
pub fn rv64i_and(
    state: &mut State,
    guest: &mut GuestMem,
    insn: &Instruction,
) -> (r: Result<(), Error>)
    ensures
        *final(guest) == *old(guest),
        agrees(
            r,
            final(state),
            final(guest),
            Executor::And.effect(old(state)@, old(guest)@, *insn),
        ),
{
    alu_reg(Executor::And, state, guest, insn)
}

/// `slt`: 1 if `rs1` is below `rs2` as signed numbers, else 0.
pub fn rv64i_slt(
    state: &mut State,
    guest: &mut GuestMem,
    insn: &Instruction,
) -> (r: Result<(), Error>)
    ensures
        *final(guest) == *old(guest),
        agrees(
            r,
            final(state),
            final(guest),
            Executor::Slt.effect(old(state)@, old(guest)@, *insn),
        ),
{
    alu_reg(Executor::Slt, state, guest, insn)
}

/// `sltu`: 1 if `rs1` is below `rs2` as unsigned numbers, else 0.
pub fn rv64i_sltu(
    state: &mut State,
    guest: &mut GuestMem,
    insn: &Instruction,
) -> (r: Result<(), Error>)
    ensures
        *final(guest) == *old(guest),
        agrees(
            r,
            final(state),
            final(guest),
            Executor::Sltu.effect(old(state)@, old(guest)@, *insn),
        ),
{
    alu_reg(Executor::Sltu, state, guest, insn)
}

/// `beq`: branches if the registers are equal.
pub fn rv64i_beq(
    state: &mut State,
    guest: &mut GuestMem,
    insn: &Instruction,
) -> (r: Result<(), Error>)
    ensures
        *final(guest) == *old(guest),
        agrees(
            r,
            final(state),
            final(guest),
            Executor::Beq.effect(old(state)@, old(guest)@, *insn),
        ),
{
    branch(Executor::Beq, state, guest, insn)
}

/// `bne`: branches if the registers differ.
pub fn rv64i_bne(
    state: &mut State,
    guest: &mut GuestMem,
    insn: &Instruction,
) -> (r: Result<(), Error>)
    ensures
        *final(guest) == *old(guest),
        agrees(
            r,
            final(state),
            final(guest),
            Executor::Bne.effect(old(state)@, old(guest)@, *insn),
        ),
{
    branch(Executor::Bne, state, guest, insn)
}

/// `blt`: branches if `rs1` is below `rs2` as signed numbers.
pub fn rv64i_blt(
    state: &mut State,
    guest: &mut GuestMem,
    insn: &Instruction,
) -> (r: Result<(), Error>)
    ensures
        *final(guest) == *old(guest),
        agrees(
            r,
            final(state),
            final(guest),
            Executor::Blt.effect(old(state)@, old(guest)@, *insn),
        ),
{
    branch(Executor::Blt, state, guest, insn)
}

/// `bge`: branches if `rs1` is not below `rs2` as signed numbers.
pub fn rv64i_bge(
    state: &mut State,
    guest: &mut GuestMem,
    insn: &Instruction,
) -> (r: Result<(), Error>)
    ensures
        *final(guest) == *old(guest),
        agrees(
            r,
            final(state),
            final(guest),
            Executor::Bge.effect(old(state)@, old(guest)@, *insn),
        ),
{
    branch(Executor::Bge, state, guest, insn)
}

/// `bltu`: branches if `rs1` is below `rs2` as unsigned numbers.
pub fn rv64i_bltu(
    state: &mut State,
    guest: &mut GuestMem,
    insn: &Instruction,
) -> (r: Result<(), Error>)
    ensures
        *final(guest) == *old(guest),
        agrees(
            r,
            final(state),
            final(guest),
            Executor::Bltu.effect(old(state)@, old(guest)@, *insn),
        ),
{
    branch(Executor::Bltu, state, guest, insn)
}

/// `bgeu`: branches if `rs1` is not below `rs2` as unsigned numbers.
pub fn rv64i_bgeu(
    state: &mut State,
    guest: &mut GuestMem,
    insn: &Instruction,
) -> (r: Result<(), Error>)
    ensures
        *final(guest) == *old(guest),
        agrees(
            r,
            final(state),
            final(guest),
            Executor::Bgeu.effect(old(state)@, old(guest)@, *insn),
        ),
{
    branch(Executor::Bgeu, state, guest, insn)
}

/// `jal`: the destination holds the address of the next instruction, and
/// the program counter moves by the immediate, sign-extended from 21 bits.
pub fn rv64i_jal(
    state: &mut State,
    guest: &mut GuestMem,
    insn: &Instruction,
) -> (r: Result<(), Error>)
    ensures
        *final(guest) == *old(guest),
        agrees(
            r,
            final(state),
            final(guest),
            Executor::Jal.effect(old(state)@, old(guest)@, *insn),
        ),
{
    match insn.read_j() {
        Some((rd, imm)) => {
            let target = state.pc.wrapping_add(sext(imm as u64, 21));
            let link = state.pc.wrapping_add(4);
            state.set_reg(rd, link);
            state.pc = target;
            Ok(())
        },
        None => form_error(),
    }
}

/// `jalr`: the destination holds the address of the next instruction, and
/// the program counter goes to `rs1` plus the sign-extended immediate,
/// with bit 0 cleared.
pub fn rv64i_jalr(
    state: &mut State,
    guest: &mut GuestMem,
    insn: &Instruction,
) -> (r: Result<(), Error>)
    ensures
        *final(guest) == *old(guest),
        agrees(
            r,
            final(state),
            final(guest),
            Executor::Jalr.effect(old(state)@, old(guest)@, *insn),
        ),
{
    match insn.read_i(state) {
        Some((rd, base, imm)) => {
            let target = base.wrapping_add(sext(imm as u64, 12)) & !1u64;
            let link = state.pc.wrapping_add(4);
            state.set_reg(rd, link);
            state.pc = target;
            Ok(())
        },
        None => form_error(),
    }
}

/// `lwu`: loads a word and zero-extends it.
pub fn rv64i_lwu(
    state: &mut State,
    guest: &mut GuestMem,
    insn: &Instruction,
) -> (r: Result<(), Error>)
    requires
        old(guest).wf(),
    ensures
        *final(guest) == *old(guest),
        agrees(
            r,
            final(state),
            final(guest),
            Executor::Lwu.effect(old(state)@, old(guest)@, *insn),
        ),
{
    load(Executor::Lwu, state, guest, insn)
}

/// `addiw`: adds the sign-extended immediate in 32 bits.
pub fn rv64i_addiw(
    state: &mut State,
    guest: &mut GuestMem,
    insn: &Instruction,
) -> (r: Result<(), Error>)
    ensures
        *final(guest) == *old(guest),
        agrees(
            r,
            final(state),
            final(guest),
            Executor::Addiw.effect(old(state)@, old(guest)@, *insn),
        ),
{
    alu_imm(Executor::Addiw, state, guest, insn)
}

/// `slliw`: shifts the low word left by the low five bits of the immediate.
pub fn rv64i_slliw(
    state: &mut State,
    guest: &mut GuestMem,
    insn: &Instruction,
) -> (r: Result<(), Error>)
    ensures
        *final(guest) == *old(guest),
        agrees(
            r,
            final(state),
            final(guest),
            Executor::Slliw.effect(old(state)@, old(guest)@, *insn),
        ),
{
    alu_imm(Executor::Slliw, state, guest, insn)
}

/// `srliw`: shifts the low word right by the low five bits of the immediate, filling with zeros.
pub fn rv64i_srliw(
    state: &mut State,
    guest: &mut GuestMem,
    insn: &Instruction,
) -> (r: Result<(), Error>)
    ensures
        *final(guest) == *old(guest),
        agrees(
            r,
            final(state),
            final(guest),
            Executor::Srliw.effect(old(state)@, old(guest)@, *insn),
        ),
{
    alu_imm(Executor::Srliw, state, guest, insn)
}

/// `sraiw`: shifts the low word right by the low five bits of the immediate, filling with the sign.
pub fn rv64i_sraiw(
    state: &mut State,
    guest: &mut GuestMem,
    insn: &Instruction,
) -> (r: Result<(), Error>)
    ensures
        *final(guest) == *old(guest),
        agrees(
            r,
            final(state),
            final(guest),
            Executor::Sraiw.effect(old(state)@, old(guest)@, *insn),
        ),
{
    alu_imm(Executor::Sraiw, state, guest, insn)
}

/// `addw`: adds in 32 bits.
pub fn rv64i_addw(
    state: &mut State,
    guest: &mut GuestMem,
    insn: &Instruction,
) -> (r: Result<(), Error>)
    ensures
        *final(guest) == *old(guest),
        agrees(
            r,
            final(state),
            final(guest),
            Executor::Addw.effect(old(state)@, old(guest)@, *insn),
        ),
{
    alu_reg(Executor::Addw, state, guest, insn)
}

/// `subw`: subtracts in 32 bits.
pub fn rv64i_subw(
    state: &mut State,
    guest: &mut GuestMem,
    insn: &Instruction,
) -> (r: Result<(), Error>)
    ensures
        *final(guest) == *old(guest),
        agrees(
            r,
            final(state),
            final(guest),
            Executor::Subw.effect(old(state)@, old(guest)@, *insn),
        ),
{
    alu_reg(Executor::Subw, state, guest, insn)
}

/// `sllw`: shifts the low word left by the low five bits of `rs2`.
pub fn rv64i_sllw(
    state: &mut State,
    guest: &mut GuestMem,
    insn: &Instruction,
) -> (r: Result<(), Error>)
    ensures
        *final(guest) == *old(guest),
        agrees(
            r,
            final(state),
            final(guest),
            Executor::Sllw.effect(old(state)@, old(guest)@, *insn),
        ),
{
    alu_reg(Executor::Sllw, state, guest, insn)
}

/// `srlw`: shifts the low word right by the low five bits of `rs2`, filling with zeros.
pub fn rv64i_srlw(
    state: &mut State,
    guest: &mut GuestMem,
    insn: &Instruction,
) -> (r: Result<(), Error>)
    ensures
        *final(guest) == *old(guest),
        agrees(
            r,
            final(state),
            final(guest),
            Executor::Srlw.effect(old(state)@, old(guest)@, *insn),
        ),
{
    alu_reg(Executor::Srlw, state, guest, insn)
}

/// `sraw`: shifts the low word right by the low five bits of `rs2`, filling with the sign.
pub fn rv64i_sraw(
    state: &mut State,
    guest: &mut GuestMem,
    insn: &Instruction,
) -> (r: Result<(), Error>)
    ensures
        *final(guest) == *old(guest),
        agrees(
            r,
            final(state),
            final(guest),
            Executor::Sraw.effect(old(state)@, old(guest)@, *insn),
        ),
{
    alu_reg(Executor::Sraw, state, guest, insn)
}

/// `ecall`: latches the trap and leaves the program counter alone.
pub fn rv64i_ecall(
    state: &mut State,
    guest: &mut GuestMem,
    insn: &Instruction,
) -> (r: Result<(), Error>)
    ensures
        *final(guest) == *old(guest),
        agrees(
            r,
            final(state),
            final(guest),
            Executor::Ecall.effect(old(state)@, old(guest)@, *insn),
        ),
{
    state.break_on = Some(BreakCause::Ecall);
    Ok(())
}

/// `ebreak`: latches the trap and leaves the program counter alone.
pub fn rv64i_ebreak(
    state: &mut State,
    guest: &mut GuestMem,
    insn: &Instruction,
) -> (r: Result<(), Error>)
    ensures
        *final(guest) == *old(guest),
        agrees(
            r,
            final(state),
            final(guest),
            Executor::Ebreak.effect(old(state)@, old(guest)@, *insn),
        ),
{
    state.break_on = Some(BreakCause::Ebreak);
    Ok(())
}

/// `fence`: nothing to do on a single hart.
pub fn rv64i_fence(
    state: &mut State,
    guest: &mut GuestMem,
    insn: &Instruction,
) -> (r: Result<(), Error>)
    ensures
        *final(guest) == *old(guest),
        agrees(
            r,
            final(state),
            final(guest),
            Executor::Fence.effect(old(state)@, old(guest)@, *insn),
        ),
{
    Ok(())
}

/// `fence.i`: nothing to do, as instructions are fetched from memory each
/// time.
pub fn rv64i_fence_i(
    state: &mut State,
    guest: &mut GuestMem,
    insn: &Instruction,
) -> (r: Result<(), Error>)
    ensures
        *final(guest) == *old(guest),
        agrees(
            r,
            final(state),
            final(guest),
            Executor::FenceI.effect(old(state)@, old(guest)@, *insn),
        ),
{
    Ok(())
}

} // verus!
