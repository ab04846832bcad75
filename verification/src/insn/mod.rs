//! Instruction decoding.
use vstd::prelude::*;
use crate::error::{Breach, Error};
use crate::guest::{GuestMem, GuestView};
use crate::state::{State, StateView};

pub mod rv32i;
pub mod rv64i;
pub mod zicsr;
pub mod zifencei;

pub use rv32i::Rv32IDecoder;
pub use rv64i::Rv64IDecoder;
pub use zicsr::ZicsrDecoder;
pub use zifencei::ZifenceiDecoder;

verus! {

/// The 'imm' field has not been sign-extended yet.
#[derive(Debug, Clone, Copy, PartialEq, Eq, Structural)]
pub enum Instruction {
    R {
        // [31:25] funct7
        // [24:20] rs2
        // [19:15] rs1
        // [14:12] funct3
        // [11:7] rd
        // [6:0] opcode
        funct7: u8,
        rs2: u8,
        rs1: u8,
        funct3: u8,
        rd: u8,
        opcode: u8,
        raw: u32,
    },
    I {
        // [31:20] imm[11:0]
        // [19:15] rs1
        // [14:12] funct3
        // [11:7] rd
        // [6:0] opcode
        imm: u32,
        rs1: u8,
        funct3: u8,
        rd: u8,
        opcode: u8,
        raw: u32,
    },
    S {
        // [31:25] imm[11:5]
        // [24:20] rs2
        // [19:15] rs1
        // [14:12] funct3
        // [11:7] imm[4:0]
        // [6:0] opcode
        imm: u32,
        rs2: u8,
        rs1: u8,
        funct3: u8,
        opcode: u8,
        raw: u32,
    },
    B {
        // [31:25] imm[12, 10:5]
        // [24:20] rs2
        // [19:15] rs1
        // [14:12] funct3
        // [11:7] imm[4:1, 11]
        // [6:0] opcode
        imm: u32,
        rs2: u8,
        rs1: u8,
        funct3: u8,
        opcode: u8,
        raw: u32,
    },
    U {
        // [31:12] imm[31:12]
        // [11:7] rd
        // [6:0] opcode
        imm: u32,
        rd: u8,
        opcode: u8,
        raw: u32,
    },
    J {
        // [31:12] imm[20, 10:1, 11, 19:12]
        // [11:7] rd
        // [6:0] opcode
        imm: u32,
        rd: u8,
        opcode: u8,
        raw: u32,
    },
    R4 {
        // [31:27] fs3
        // [26:25] funct2
        // [24:20] fs2
        // [19:15] fs1
        // [14:12] funct3
        // [11:7] fd
        // [6:0] opcode
        fs3: u8,
        funct2: u8,
        fs2: u8,
        fs1: u8,
        funct3: u8,
        fd: u8,
        opcode: u8,
        raw: u32,
    },
    C {
        // [1:0] opcode
        opcode: u8,
        raw: u32,
    },
}

#[derive(Debug, Clone, Copy, PartialEq, Eq, Structural)]
pub enum InsnType {
    R,
    I,
    S,
    B,
    U,
    J,
    R4,
    C,
}

#[derive(Debug, Clone, Copy, PartialEq, Eq, Hash, Structural)]
pub enum InsnSet {
    I,
    M,
    F,
    D,
    A,
    C,
    Ziscr,
    Zifencei,
}

impl InsnSet {
    /// The instruction set that a letter of an ISA string names.
    pub open spec fn of_letter(letter: char) -> Option<InsnSet> {
        if letter == 'I' || letter == 'i' {
            Some(InsnSet::I)
        } else if letter == 'M' || letter == 'm' {
            Some(InsnSet::M)
        } else if letter == 'F' || letter == 'f' {
            Some(InsnSet::F)
        } else if letter == 'D' || letter == 'd' {
            Some(InsnSet::D)
        } else if letter == 'A' || letter == 'a' {
            Some(InsnSet::A)
        } else if letter == 'C' || letter == 'c' {
            Some(InsnSet::C)
        } else {
            None
        }
    }

    pub fn from_letter(letter: char) -> (r: Option<InsnSet>)
        ensures
            r == Self::of_letter(letter),
    {
        if letter == 'I' || letter == 'i' {
            Some(InsnSet::I)
        } else if letter == 'M' || letter == 'm' {
            Some(InsnSet::M)
        } else if letter == 'F' || letter == 'f' {
            Some(InsnSet::F)
        } else if letter == 'D' || letter == 'd' {
            Some(InsnSet::D)
        } else if letter == 'A' || letter == 'a' {
            Some(InsnSet::A)
        } else if letter == 'C' || letter == 'c' {
            Some(InsnSet::C)
        } else {
            None
        }
    }
}

/// Bits [6:0] of an instruction word.
pub open spec fn field_opcode(raw: u32) -> u8 {
    (raw & 0x7f) as u8
}

/// Bits [11:7] of an instruction word.
pub open spec fn field_rd(raw: u32) -> u8 {
    ((raw >> 7) & 0x1f) as u8
}

/// Bits [14:12] of an instruction word.
pub open spec fn field_funct3(raw: u32) -> u8 {
    ((raw >> 12) & 0x07) as u8
}

/// Bits [19:15] of an instruction word.
pub open spec fn field_rs1(raw: u32) -> u8 {
    ((raw >> 15) & 0x1f) as u8
}

/// Bits [24:20] of an instruction word.
pub open spec fn field_rs2(raw: u32) -> u8 {
    ((raw >> 20) & 0x1f) as u8
}

/// Bits [31:25] of an instruction word.
pub open spec fn field_funct7(raw: u32) -> u8 {
    ((raw >> 25) & 0x7f) as u8
}

/// The immediate of an instruction word of the given form, each bit at its
/// place and the bits above the field zero. The forms without an
/// immediate give 0.
pub open spec fn extract_imm_spec(raw: u32, insn_type: InsnType) -> u32 {
    match insn_type {
        InsnType::I => raw >> 20,
        InsnType::S => (((raw >> 25) & 0x7f) << 5) | ((raw >> 7) & 0x1f),
        InsnType::B => (((raw >> 31) & 0x1) << 12) | (((raw >> 25) & 0x3f) << 5) | (((raw >> 8) & 0xf)
            << 1) | (((raw >> 7) & 0x1) << 11),
        InsnType::U => raw & 0xfffff000,
        InsnType::J => (((raw >> 31) & 0x1) << 20) | (((raw >> 21) & 0x3ff) << 1) | (((raw >> 20)
            & 0x1) << 11) | (((raw >> 12) & 0xff) << 12),
        _ => 0,
    }
}

/// The instruction that an instruction word is when read in the given
/// form.
pub open spec fn parse_spec(raw: u32, insn_type: InsnType) -> Instruction {
    let opcode = field_opcode(raw);
    let rd = field_rd(raw);
    let funct3 = field_funct3(raw);
    let rs1 = field_rs1(raw);
    let rs2 = field_rs2(raw);
    let funct7 = field_funct7(raw);
    let imm = extract_imm_spec(raw, insn_type);
    match insn_type {
        InsnType::R => Instruction::R { funct7, rs2, rs1, funct3, rd, opcode, raw },
        InsnType::I => Instruction::I { imm, rs1, funct3, rd, opcode, raw },
        InsnType::S => Instruction::S { imm, rs2, rs1, funct3, opcode, raw },
        InsnType::B => Instruction::B { imm, rs2, rs1, funct3, opcode, raw },
        InsnType::U => Instruction::U { imm, rd, opcode, raw },
        InsnType::J => Instruction::J { imm, rd, opcode, raw },
        InsnType::R4 => Instruction::R4 {
            fs3: ((raw >> 27) & 0x1f) as u8,
            funct2: ((raw >> 25) & 0x3) as u8,
            fs2: rs2,
            fs1: rs1,
            funct3,
            fd: rd,
            opcode,
            raw,
        },
        InsnType::C => Instruction::C { opcode: (raw & 0x3) as u8, raw },
    }
}

impl Instruction {
    pub open spec fn opcode_spec(&self) -> u8 {
        match self {
            Instruction::R { opcode, .. } => *opcode,
            Instruction::I { opcode, .. } => *opcode,
            Instruction::S { opcode, .. } => *opcode,
            Instruction::B { opcode, .. } => *opcode,
            Instruction::U { opcode, .. } => *opcode,
            Instruction::J { opcode, .. } => *opcode,
            Instruction::R4 { opcode, .. } => *opcode,
            Instruction::C { opcode, .. } => *opcode,
        }
    }

    pub open spec fn imm_spec(&self) -> Option<u32> {
        match self {
            Instruction::I { imm, .. } => Some(*imm),
            Instruction::S { imm, .. } => Some(*imm),
            Instruction::B { imm, .. } => Some(*imm),
            Instruction::U { imm, .. } => Some(*imm),
            Instruction::J { imm, .. } => Some(*imm),
            _ => None,
        }
    }

    /// Length of the instruction in bytes: 2 for the compressed form and
    /// 4 for every other.
    pub open spec fn step_size_spec(&self) -> usize {
        if self is C {
            2
        } else {
            4
        }
    }

    /// The form of the instruction.
    pub open spec fn form(&self) -> InsnType {
        match self {
            Instruction::R { .. } => InsnType::R,
            Instruction::I { .. } => InsnType::I,
            Instruction::S { .. } => InsnType::S,
            Instruction::B { .. } => InsnType::B,
            Instruction::U { .. } => InsnType::U,
            Instruction::J { .. } => InsnType::J,
            Instruction::R4 { .. } => InsnType::R4,
            Instruction::C { .. } => InsnType::C,
        }
    }

    /// The fields `(rd, rs1, rs2)` of an R instruction whose register
    /// numbers are all below 32.
    pub open spec fn r_fields(&self) -> Option<(u8, u8, u8)> {
        match self {
            Instruction::R { rd, rs1, rs2, .. } => if *rd < 32 && *rs1 < 32 && *rs2 < 32 {
                Some((*rd, *rs1, *rs2))
            } else {
                None
            },
            _ => None,
        }
    }

    /// The fields `(rd, rs1, imm)` of an I instruction whose register
    /// numbers are below 32.
    pub open spec fn i_fields(&self) -> Option<(u8, u8, u32)> {
        match self {
            Instruction::I { rd, rs1, imm, .. } => if *rd < 32 && *rs1 < 32 {
                Some((*rd, *rs1, *imm))
            } else {
                None
            },
            _ => None,
        }
    }

    /// The fields `(rs1, rs2, imm)` of an S instruction whose register
    /// numbers are below 32.
    pub open spec fn s_fields(&self) -> Option<(u8, u8, u32)> {
        match self {
            Instruction::S { rs1, rs2, imm, .. } => if *rs1 < 32 && *rs2 < 32 {
                Some((*rs1, *rs2, *imm))
            } else {
                None
            },
            _ => None,
        }
    }

    /// The fields `(rs1, rs2, imm)` of a B instruction whose register
    /// numbers are below 32.
    pub open spec fn b_fields(&self) -> Option<(u8, u8, u32)> {
        match self {
            Instruction::B { rs1, rs2, imm, .. } => if *rs1 < 32 && *rs2 < 32 {
                Some((*rs1, *rs2, *imm))
            } else {
                None
            },
            _ => None,
        }
    }

    /// The fields `(rd, imm)` of a U instruction whose register number is
    /// below 32.
    pub open spec fn u_fields(&self) -> Option<(u8, u32)> {
        match self {
            Instruction::U { rd, imm, .. } => if *rd < 32 {
                Some((*rd, *imm))
            } else {
                None
            },
            _ => None,
        }
    }

    /// The fields `(rd, imm)` of a J instruction whose register number is
    /// below 32.
    pub open spec fn j_fields(&self) -> Option<(u8, u32)> {
        match self {
            Instruction::J { rd, imm, .. } => if *rd < 32 {
                Some((*rd, *imm))
            } else {
                None
            },
            _ => None,
        }
    }

    #[verifier::when_used_as_spec(opcode_spec)]
    pub fn opcode(&self) -> (r: u8)
        ensures
            r == self.opcode_spec(),
    {
        match self {
            Instruction::R { opcode, .. } => *opcode,
            Instruction::I { opcode, .. } => *opcode,
            Instruction::S { opcode, .. } => *opcode,
            Instruction::B { opcode, .. } => *opcode,
            Instruction::U { opcode, .. } => *opcode,
            Instruction::J { opcode, .. } => *opcode,
            Instruction::R4 { opcode, .. } => *opcode,
            Instruction::C { opcode, .. } => *opcode,
        }
    }

    #[verifier::when_used_as_spec(imm_spec)]
    pub fn imm(&self) -> (r: Option<u32>)
        ensures
            r == self.imm_spec(),
    {
        match self {
            Instruction::R { .. } => None,
            Instruction::I { imm, .. } => Some(*imm),
            Instruction::S { imm, .. } => Some(*imm),
            Instruction::B { imm, .. } => Some(*imm),
            Instruction::U { imm, .. } => Some(*imm),
            Instruction::J { imm, .. } => Some(*imm),
            Instruction::R4 { .. } => None,
            Instruction::C { .. } => None,
        }
    }

    /// Extracts the immediate of an instruction word that has one. The
    /// immediate is not sign-extended.
    pub fn extract_imm(raw: u32, insn_type: InsnType) -> (r: u32)
        requires
            insn_type is I || insn_type is S || insn_type is B || insn_type is U || insn_type is J,
        ensures
            r == extract_imm_spec(raw, insn_type),
    {
        match insn_type {
            InsnType::I => raw >> 20,
            InsnType::S => (((raw >> 25) & 0x7f) << 5) | ((raw >> 7) & 0x1f),
            InsnType::B => (((raw >> 31) & 0x1) << 12) | (((raw >> 25) & 0x3f) << 5) | (((raw >> 8)
                & 0xf) << 1) | (((raw >> 7) & 0x1) << 11),
            InsnType::U => raw & 0xfffff000,
            InsnType::J => (((raw >> 31) & 0x1) << 20) | (((raw >> 21) & 0x3ff) << 1) | (((raw
                >> 20) & 0x1) << 11) | (((raw >> 12) & 0xff) << 12),
            _ => 0,
        }
    }

    #[verifier::when_used_as_spec(step_size_spec)]
    pub fn step_size(&self) -> (r: usize)
        ensures
            r == self.step_size_spec(),
    {
        if let Instruction::C { .. } = self {
            2
        } else {
            4
        }
    }

    /// Reads an instruction word in the given form.
    pub fn parse(raw: u32, insn_type: InsnType) -> (insn: Instruction)
        ensures
            insn == parse_spec(raw, insn_type),
    {
        let opcode = (raw & 0x7f) as u8;
        let rd = ((raw >> 7) & 0x1f) as u8;
        let funct3 = ((raw >> 12) & 0x07) as u8;
        let rs1 = ((raw >> 15) & 0x1f) as u8;
        let rs2 = ((raw >> 20) & 0x1f) as u8;
        let funct7 = ((raw >> 25) & 0x7f) as u8;
        match insn_type {
            InsnType::R => Instruction::R { funct7, rs2, rs1, funct3, rd, opcode, raw },
            InsnType::I => Instruction::I {
                imm: Instruction::extract_imm(raw, InsnType::I),
                rs1,
                funct3,
                rd,
                opcode,
                raw,
            },
            InsnType::S => Instruction::S {
                imm: Instruction::extract_imm(raw, InsnType::S),
                rs2,
                rs1,
                funct3,
                opcode,
                raw,
            },
            InsnType::B => Instruction::B {
                imm: Instruction::extract_imm(raw, InsnType::B),
                rs2,
                rs1,
                funct3,
                opcode,
                raw,
            },
            InsnType::U => Instruction::U {
                imm: Instruction::extract_imm(raw, InsnType::U),
                rd,
                opcode,
                raw,
            },
            InsnType::J => Instruction::J {
                imm: Instruction::extract_imm(raw, InsnType::J),
                rd,
                opcode,
                raw,
            },
            InsnType::R4 => Instruction::R4 {
                fs3: ((raw >> 27) & 0x1f) as u8,
                funct2: ((raw >> 25) & 0x3) as u8,
                fs2: rs2,
                fs1: rs1,
                funct3,
                fd: rd,
                opcode,
                raw,
            },
            InsnType::C => Instruction::C { opcode: (raw & 0x3) as u8, raw },
        }
    }

    /// The operands of an R instruction: `rd` and the values of `rs1` and
    /// `rs2`.
    pub fn read_r(&self, state: &State) -> (r: Option<(u8, u64, u64)>)
        ensures
            r == match self.r_fields() {
                Some((rd, rs1, rs2)) => Some((rd, state@.x[rs1 as int], state@.x[rs2 as int])),
                None => None,
            },
    {
        match self {
            Instruction::R { rd, rs1, rs2, .. } => if *rd < 32 && *rs1 < 32 && *rs2 < 32 {
                Some((*rd, state.reg(*rs1), state.reg(*rs2)))
            } else {
                None
            },
            _ => None,
        }
    }

    /// The operands of an I instruction: `rd`, the value of `rs1` and the
    /// immediate.
    pub fn read_i(&self, state: &State) -> (r: Option<(u8, u64, u32)>)
        ensures
            r == match self.i_fields() {
                Some((rd, rs1, imm)) => Some((rd, state@.x[rs1 as int], imm)),
                None => None,
            },
    {
        match self {
            Instruction::I { rd, rs1, imm, .. } => if *rd < 32 && *rs1 < 32 {
                Some((*rd, state.reg(*rs1), *imm))
            } else {
                None
            },
            _ => None,
        }
    }

    /// The operands of an S instruction: the values of `rs1` and `rs2` and
    /// the immediate.
    pub fn read_s(&self, state: &State) -> (r: Option<(u64, u64, u32)>)
        ensures
            r == match self.s_fields() {
                Some((rs1, rs2, imm)) => Some((state@.x[rs1 as int], state@.x[rs2 as int], imm)),
                None => None,
            },
    {
        match self {
            Instruction::S { rs1, rs2, imm, .. } => if *rs1 < 32 && *rs2 < 32 {
                Some((state.reg(*rs1), state.reg(*rs2), *imm))
            } else {
                None
            },
            _ => None,
        }
    }

    /// The operands of a B instruction: the values of `rs1` and `rs2` and
    /// the immediate.
    pub fn read_b(&self, state: &State) -> (r: Option<(u64, u64, u32)>)
        ensures
            r == match self.b_fields() {
                Some((rs1, rs2, imm)) => Some((state@.x[rs1 as int], state@.x[rs2 as int], imm)),
                None => None,
            },
    {
        match self {
            Instruction::B { rs1, rs2, imm, .. } => if *rs1 < 32 && *rs2 < 32 {
                Some((state.reg(*rs1), state.reg(*rs2), *imm))
            } else {
                None
            },
            _ => None,
        }
    }

    /// The operands of a U instruction: `rd` and the immediate.
    pub fn read_u(&self) -> (r: Option<(u8, u32)>)
        ensures
            r == self.u_fields(),
    {
        match self {
            Instruction::U { rd, imm, .. } => if *rd < 32 {
                Some((*rd, *imm))
            } else {
                None
            },
            _ => None,
        }
    }

    /// The operands of a J instruction: `rd` and the immediate.
    pub fn read_j(&self) -> (r: Option<(u8, u32)>)
        ensures
            r == self.j_fields(),
    {
        match self {
            Instruction::J { rd, imm, .. } => if *rd < 32 {
                Some((*rd, *imm))
            } else {
                None
            },
            _ => None,
        }
    }
}

/// How an operation is encoded: which bits of an instruction word are
/// fixed, and to what.
pub enum Encoding {
    /// The opcode alone.
    Opcode(u8),
    /// The opcode and `funct3`.
    Funct3(u8, u8),
    /// The opcode, `funct3` and `funct7`.
    Funct7(u8, u8, u8),
    /// The opcode, `funct3` and the upper six bits of `funct7`: the form of
    /// the shifts by an immediate of six bits.
    Funct6(u8, u8, u8),
    /// Every bit.
    Word(u32),
}

impl Encoding {
    /// The bits of an instruction word that the encoding fixes.
    pub open spec fn mask(self) -> u32 {
        match self {
            Encoding::Opcode(_) => 0x0000_007f,
            Encoding::Funct3(_, _) => 0x0000_707f,
            Encoding::Funct7(_, _, _) => 0xfe00_707f,
            Encoding::Funct6(_, _, _) => 0xfc00_707f,
            Encoding::Word(_) => 0xffff_ffff,
        }
    }

    /// What the fixed bits hold.
    pub open spec fn bits(self) -> u32 {
        match self {
            Encoding::Opcode(opcode) => opcode as u32,
            Encoding::Funct3(opcode, funct3) => ((funct3 as u32) << 12) | opcode as u32,
            Encoding::Funct7(opcode, funct3, funct7) => ((funct7 as u32) << 25) | ((funct3 as u32)
                << 12) | opcode as u32,
            Encoding::Funct6(opcode, funct3, funct6) => ((funct6 as u32) << 26) | ((funct3 as u32)
                << 12) | opcode as u32,
            Encoding::Word(word) => word,
        }
    }

    /// Whether the fields fit their places in an instruction word.
    pub open spec fn wf(self) -> bool {
        match self {
            Encoding::Opcode(opcode) => opcode < 0x80,
            Encoding::Funct3(opcode, funct3) => opcode < 0x80 && funct3 < 8,
            Encoding::Funct7(opcode, funct3, funct7) => opcode < 0x80 && funct3 < 8 && funct7 < 0x80,
            Encoding::Funct6(opcode, funct3, funct6) => opcode < 0x80 && funct3 < 8 && funct6 < 0x40,
            Encoding::Word(_) => true,
        }
    }

    /// Whether the instruction word `raw` holds the fixed bits.
    pub open spec fn matches_word(self, raw: u32) -> bool {
        raw & self.mask() == self.bits()
    }

    /// What an encoding asks of the fields of an instruction word.
    pub open spec fn matches_fields(self, raw: u32) -> bool {
        match self {
            Encoding::Opcode(opcode) => field_opcode(raw) == opcode,
            Encoding::Funct3(opcode, funct3) => field_opcode(raw) == opcode && field_funct3(raw)
                == funct3,
            Encoding::Funct7(opcode, funct3, funct7) => field_opcode(raw) == opcode && field_funct3(
                raw,
            ) == funct3 && field_funct7(raw) == funct7,
            Encoding::Funct6(opcode, funct3, funct6) => field_opcode(raw) == opcode && field_funct3(
                raw,
            ) == funct3 && field_funct7(raw) >> 1 == funct6,
            Encoding::Word(word) => raw == word,
        }
    }
}

/// An instruction word holds the fixed bits of an encoding just when its
/// fields are those of the encoding.
pub proof fn lemma_encoding_fields(e: Encoding, raw: u32)
    requires
        e.wf(),
    ensures
        e.matches_word(raw) == e.matches_fields(raw),
{
    match e {
        Encoding::Opcode(opcode) => {
            assert((raw & 0x0000_007f == opcode as u32) == ((raw & 0x7f) as u8 == opcode))
                by (bit_vector)
                requires
                    opcode < 0x80,
            ;
        },
        Encoding::Funct3(opcode, funct3) => {
            assert((raw & 0x0000_707f == ((funct3 as u32) << 12) | opcode as u32) == ((raw & 0x7f) as u8
                == opcode && ((raw >> 12) & 0x07) as u8 == funct3)) by (bit_vector)
                requires
                    opcode < 0x80,
                    funct3 < 8,
            ;
        },
        Encoding::Funct7(opcode, funct3, funct7) => {
            assert((raw & 0xfe00_707f == ((funct7 as u32) << 25) | ((funct3 as u32) << 12)
                | opcode as u32) == ((raw & 0x7f) as u8 == opcode && ((raw >> 12) & 0x07) as u8
                == funct3 && ((raw >> 25) & 0x7f) as u8 == funct7)) by (bit_vector)
                requires
                    opcode < 0x80,
                    funct3 < 8,
                    funct7 < 0x80,
            ;
        },
        Encoding::Funct6(opcode, funct3, funct6) => {
            assert((raw & 0xfc00_707f == ((funct6 as u32) << 26) | ((funct3 as u32) << 12)
                | opcode as u32) == ((raw & 0x7f) as u8 == opcode && ((raw >> 12) & 0x07) as u8
                == funct3 && (((raw >> 25) & 0x7f) as u8) >> 1 == funct6)) by (bit_vector)
                requires
                    opcode < 0x80,
                    funct3 < 8,
                    funct6 < 0x40,
            ;
        },
        Encoding::Word(word) => {
            assert((raw & 0xffff_ffff == word) == (raw == word)) by (bit_vector);
        },
    }
}

/// The operations that the decoders know. Each names the function that
/// carries the operation out.
#[derive(Debug, Clone, Copy, PartialEq, Eq, Structural)]
pub enum Executor {
    Lui,
    Auipc,
    Lb,
    Lh,
    Lw,
    Ld,
    Lbu,
    Lhu,
    Lwu,
    Sb,
    Sh,
    Sw,
    Sd,
    Addi,
    Slli,
    Slti,
    Sltiu,
    Xori,
    Srli,
    Srai,
    Ori,
    Andi,
    Beq,
    Bne,
    Blt,
    Bge,
    Bltu,
    Bgeu,
    Jal,
    Jalr,
    Add,
    Sub,
    Sll,
    Slt,
    Sltu,
    Xor,
    Srl,
    Sra,
    Or,
    And,
    Addiw,
    Slliw,
    Srliw,
    Sraiw,
    Addw,
    Subw,
    Sllw,
    Srlw,
    Sraw,
    Ecall,
    Ebreak,
    Fence,
    FenceI,
    Csrrw,
    Csrrs,
    Csrrc,
    Csrrwi,
    Csrrsi,
    Csrrci,
    Mret,
    Lui32,
}

/// What an executor leaves behind: its result, the state and the memory.
pub struct Outcome {
    pub result: Result<(), Error>,
    pub state: StateView,
    pub mem: GuestView,
}

impl Outcome {
    /// The executor succeeded and left `state` and `mem`.
    pub open spec fn done(state: StateView, mem: GuestView) -> Outcome {
        Outcome { result: Ok(()), state, mem }
    }

    /// The executor failed with `e` and left `state` and `mem`.
    pub open spec fn fail(e: Error, state: StateView, mem: GuestView) -> Outcome {
        Outcome { result: Err(e), state, mem }
    }

    /// The executor was handed an instruction that it cannot read, and
    /// changed nothing.
    pub open spec fn breach(state: StateView, mem: GuestView) -> Outcome {
        Outcome { result: Err(Error::InternalError(Breach::InsnForm)), state, mem }
    }
}

impl Executor {
    /// The form in which the operation's instruction word is read.
    pub open spec fn form_spec(self) -> InsnType {
        match self {
            Executor::Lui | Executor::Auipc | Executor::Lui32 => InsnType::U,
            Executor::Jal => InsnType::J,
            Executor::Sb | Executor::Sh | Executor::Sw | Executor::Sd => InsnType::S,
            Executor::Beq | Executor::Bne | Executor::Blt | Executor::Bge | Executor::Bltu
            | Executor::Bgeu => InsnType::B,
            Executor::Add | Executor::Sub | Executor::Sll | Executor::Slt | Executor::Sltu
            | Executor::Xor | Executor::Srl | Executor::Sra | Executor::Or | Executor::And
            | Executor::Addw | Executor::Subw | Executor::Sllw | Executor::Srlw | Executor::Sraw => InsnType::R,
            _ => InsnType::I,
        }
    }

    #[verifier::when_used_as_spec(form_spec)]
    pub fn form(self) -> (r: InsnType)
        ensures
            r == self.form_spec(),
    {
        match self {
            Executor::Lui | Executor::Auipc | Executor::Lui32 => InsnType::U,
            Executor::Jal => InsnType::J,
            Executor::Sb | Executor::Sh | Executor::Sw | Executor::Sd => InsnType::S,
            Executor::Beq | Executor::Bne | Executor::Blt | Executor::Bge | Executor::Bltu
            | Executor::Bgeu => InsnType::B,
            Executor::Add | Executor::Sub | Executor::Sll | Executor::Slt | Executor::Sltu
            | Executor::Xor | Executor::Srl | Executor::Sra | Executor::Or | Executor::And
            | Executor::Addw | Executor::Subw | Executor::Sllw | Executor::Srlw | Executor::Sraw => InsnType::R,
            _ => InsnType::I,
        }
    }

    /// Whether the operation belongs to the control register stub.
    pub open spec fn is_zicsr(self) -> bool {
        self is Csrrw || self is Csrrs || self is Csrrc || self is Csrrwi || self is Csrrsi
            || self is Csrrci || self is Mret
    }

    /// What carrying the operation out on `insn` makes of `state` and
    /// `mem`.
    pub open spec fn effect(self, state: StateView, mem: GuestView, insn: Instruction) -> Outcome {
        if self.is_zicsr() {
            zicsr::zicsr_effect(self, state, mem, insn)
        } else if self is Lui32 {
            rv32i::rv32i_effect(state, mem, insn)
        } else {
            rv64i::rv64i_effect(self, state, mem, insn)
        }
    }
}

impl Executor {
    /// Carries the operation out on `insn`.
    pub fn execute(self, state: &mut State, guest: &mut GuestMem, insn: &Instruction) -> (r: Result<
        (),
        Error,
    >)
        requires
            old(guest).wf(),
        ensures
            final(guest).wf(),
            agrees(r, final(state), final(guest), self.effect(old(state)@, old(guest)@, *insn)),
    {
        match self {
            Executor::Lui => rv64i::rv64i_lui(state, guest, insn),
            Executor::Auipc => rv64i::rv64i_auipc(state, guest, insn),
            Executor::Lb => rv64i::rv64i_lb(state, guest, insn),
            Executor::Lh => rv64i::rv64i_lh(state, guest, insn),
            Executor::Lw => rv64i::rv64i_lw(state, guest, insn),
            Executor::Ld => rv64i::rv64i_ld(state, guest, insn),
            Executor::Lbu => rv64i::rv64i_lbu(state, guest, insn),
            Executor::Lhu => rv64i::rv64i_lhu(state, guest, insn),
            Executor::Lwu => rv64i::rv64i_lwu(state, guest, insn),
            Executor::Sb => rv64i::rv64i_sb(state, guest, insn),
            Executor::Sh => rv64i::rv64i_sh(state, guest, insn),
            Executor::Sw => rv64i::rv64i_sw(state, guest, insn),
            Executor::Sd => rv64i::rv64i_sd(state, guest, insn),
            Executor::Addi => rv64i::rv64i_addi(state, guest, insn),
            Executor::Slli => rv64i::rv64i_slli(state, guest, insn),
            Executor::Slti => rv64i::rv64i_slti(state, guest, insn),
            Executor::Sltiu => rv64i::rv64i_sltiu(state, guest, insn),
            Executor::Xori => rv64i::rv64i_xori(state, guest, insn),
            Executor::Srli => rv64i::rv64i_srli(state, guest, insn),
            Executor::Srai => rv64i::rv64i_srai(state, guest, insn),
            Executor::Ori => rv64i::rv64i_ori(state, guest, insn),
            Executor::Andi => rv64i::rv64i_andi(state, guest, insn),
            Executor::Beq => rv64i::rv64i_beq(state, guest, insn),
            Executor::Bne => rv64i::rv64i_bne(state, guest, insn),
            Executor::Blt => rv64i::rv64i_blt(state, guest, insn),
            Executor::Bge => rv64i::rv64i_bge(state, guest, insn),
            Executor::Bltu => rv64i::rv64i_bltu(state, guest, insn),
            Executor::Bgeu => rv64i::rv64i_bgeu(state, guest, insn),
            Executor::Jal => rv64i::rv64i_jal(state, guest, insn),
            Executor::Jalr => rv64i::rv64i_jalr(state, guest, insn),
            Executor::Add => rv64i::rv64i_add(state, guest, insn),
            Executor::Sub => rv64i::rv64i_sub(state, guest, insn),
            Executor::Sll => rv64i::rv64i_sll(state, guest, insn),
            Executor::Slt => rv64i::rv64i_slt(state, guest, insn),
            Executor::Sltu => rv64i::rv64i_sltu(state, guest, insn),
            Executor::Xor => rv64i::rv64i_xor(state, guest, insn),
            Executor::Srl => rv64i::rv64i_srl(state, guest, insn),
            Executor::Sra => rv64i::rv64i_sra(state, guest, insn),
            Executor::Or => rv64i::rv64i_or(state, guest, insn),
            Executor::And => rv64i::rv64i_and(state, guest, insn),
            Executor::Addiw => rv64i::rv64i_addiw(state, guest, insn),
            Executor::Slliw => rv64i::rv64i_slliw(state, guest, insn),
            Executor::Srliw => rv64i::rv64i_srliw(state, guest, insn),
            Executor::Sraiw => rv64i::rv64i_sraiw(state, guest, insn),
            Executor::Addw => rv64i::rv64i_addw(state, guest, insn),
            Executor::Subw => rv64i::rv64i_subw(state, guest, insn),
            Executor::Sllw => rv64i::rv64i_sllw(state, guest, insn),
            Executor::Srlw => rv64i::rv64i_srlw(state, guest, insn),
            Executor::Sraw => rv64i::rv64i_sraw(state, guest, insn),
            Executor::Ecall => rv64i::rv64i_ecall(state, guest, insn),
            Executor::Ebreak => rv64i::rv64i_ebreak(state, guest, insn),
            Executor::Fence => rv64i::rv64i_fence(state, guest, insn),
            Executor::FenceI => rv64i::rv64i_fence_i(state, guest, insn),
            Executor::Csrrw => zicsr::zicsr_csrrw(state, guest, insn),
            Executor::Csrrs => zicsr::zicsr_csrrs(state, guest, insn),
            Executor::Csrrc => zicsr::zicsr_csrrc(state, guest, insn),
            Executor::Csrrwi => zicsr::zicsr_csrrwi(state, guest, insn),
            Executor::Csrrsi => zicsr::zicsr_csrrsi(state, guest, insn),
            Executor::Csrrci => zicsr::zicsr_csrrci(state, guest, insn),
            Executor::Mret => zicsr::priv_mret(state, guest, insn),
            Executor::Lui32 => rv32i::rv32i_lui(state, guest, insn),
        }
    }
}

/// Whether an executor that returned `r` and left `state` and `guest`
/// did what `outcome` says.
pub open spec fn agrees(
    r: Result<(), Error>,
    state: &State,
    guest: &GuestMem,
    outcome: Outcome,
) -> bool {
    outcome == (Outcome { result: r, state: state@, mem: guest@ })
}

/// What a decoder makes of an instruction word that `op` claims: the word
/// read in the form of `op`, and `op`.
pub open spec fn claimed(
    raw: u32,
    op: Option<Executor>,
) -> Result<Option<(Instruction, Executor)>, Error> {
    match op {
        Some(op) => Ok(Some((parse_spec(raw, op.form_spec()), op))),
        None => Ok(None),
    }
}

pub trait Decoder {
    /// Whether the decoder may make `r` of `insn_raw`. Each decoder says
    /// for itself what it makes of a word; one that does not say may make
    /// anything of it.
    open spec fn decodes(
        &self,
        insn_raw: u32,
        r: Result<Option<(Instruction, Executor)>, Error>,
    ) -> bool {
        true
    }

    /// Decodes `insn_raw`: `None` where the decoder does not claim the
    /// encoding.
    fn decode(&self, insn_raw: u32) -> (r: Result<Option<(Instruction, Executor)>, Error>)
        ensures
            self.decodes(insn_raw, r),
    ;
}

/// The error of an executor that was handed an instruction of another
/// form than its own.
pub fn form_error() -> (r: Result<(), Error>)
    ensures
        r == Err::<(), Error>(Error::InternalError(Breach::InsnForm)),
{
    Err(Error::InternalError(Breach::InsnForm))
}

} // verus!
