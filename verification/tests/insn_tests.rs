use rvemu_core::error::{Breach, Error};
use rvemu_core::guest::{GuestMem, MemFlags};
use rvemu_core::insn::rv64i::{rv64i_addi, rv64i_beq, rv64i_jal, rv64i_lui, rv64i_lw, rv64i_sll, rv64i_sw};
use rvemu_core::insn::{
    Decoder, Executor, InsnSet, InsnType, Instruction, Rv32IDecoder, Rv64IDecoder, ZicsrDecoder,
    ZifenceiDecoder,
};
use rvemu_core::state::{BreakCause, State};
use rvemu_core::utils::sign_extend;

fn r_type(funct7: u32, rs2: u32, rs1: u32, funct3: u32, rd: u32, opcode: u32) -> u32 {
    (funct7 << 25) | (rs2 << 20) | (rs1 << 15) | (funct3 << 12) | (rd << 7) | opcode
}

fn i_type(imm: i32, rs1: u32, funct3: u32, rd: u32, opcode: u32) -> u32 {
    (((imm as u32) & 0xfff) << 20) | (rs1 << 15) | (funct3 << 12) | (rd << 7) | opcode
}

fn s_type(imm: i32, rs2: u32, rs1: u32, funct3: u32, opcode: u32) -> u32 {
    let imm = imm as u32;
    (((imm >> 5) & 0x7f) << 25) | (rs2 << 20) | (rs1 << 15) | (funct3 << 12) | ((imm & 0x1f) << 7) | opcode
}

fn b_type(imm: i32, rs2: u32, rs1: u32, funct3: u32) -> u32 {
    let imm = imm as u32;
    (((imm >> 12) & 1) << 31)
        | (((imm >> 5) & 0x3f) << 25)
        | (rs2 << 20)
        | (rs1 << 15)
        | (funct3 << 12)
        | (((imm >> 1) & 0xf) << 8)
        | (((imm >> 11) & 1) << 7)
        | 0x63
}

fn j_type(imm: i32, rd: u32) -> u32 {
    let imm = imm as u32;
    (((imm >> 20) & 1) << 31)
        | (((imm >> 1) & 0x3ff) << 21)
        | (((imm >> 11) & 1) << 20)
        | (((imm >> 12) & 0xff) << 12)
        | (rd << 7)
        | 0x6f
}

fn run_one(raw: u32, state: &mut State, guest: &mut GuestMem) -> Result<(), Error> {
    let (insn, executor) = Rv64IDecoder.decode(raw).unwrap().expect("not decoded");
    executor.execute(state, guest, &insn)
}

fn exec(raw: u32, state: &mut State) {
    let mut guest = GuestMem::new();
    run_one(raw, state, &mut guest).unwrap();
}

fn executor_of(raw: u32) -> Option<Executor> {
    Rv64IDecoder.decode(raw).unwrap().map(|(_, e)| e)
}

#[test]
fn test_extract_imm() {
    // I-type
    let addi = 0x02010113;
    let imm = Instruction::extract_imm(addi, InsnType::I);
    assert_eq!(imm, 0x20);

    let addi = 0x06400293;
    let imm = Instruction::extract_imm(addi, InsnType::I);
    assert_eq!(imm, 0x64);

    let addi = 0xfff00313;
    let imm = Instruction::extract_imm(addi, InsnType::I);
    assert_eq!(((imm as i32) << 20) >> 20, -1);

    let lw = 0x00842303;
    let imm = Instruction::extract_imm(lw, InsnType::I);
    assert_eq!(imm, 0x8);

    let lb = 0xFFC50483;
    let imm = Instruction::extract_imm(lb, InsnType::I);
    assert_eq!(((imm as i32) << 20) >> 20, -4);

    // S-type
    let sw = 0x00532623;
    let imm = Instruction::extract_imm(sw, InsnType::S);
    assert_eq!(imm, 12);

    let sb = 0xfe740c23;
    let imm = Instruction::extract_imm(sb, InsnType::S);
    assert_eq!(((imm as i32) << 20) >> 20, -8);

    // B-type
    let beq = 0x00000463;
    let imm = Instruction::extract_imm(beq, InsnType::B);
    assert_eq!(imm, 8);

    let bne = 0xffd11ee3;
    let imm = Instruction::extract_imm(bne, InsnType::B);
    assert_eq!(((imm as i32) << 19) >> 19, -4);

    // U-type
    let lui = 0x12345537;
    let imm = Instruction::extract_imm(lui, InsnType::U);
    assert_eq!(imm, 0x12345 << 12);

    let auipc = 0xfffff5bb;
    let imm = Instruction::extract_imm(auipc, InsnType::U);
    assert_eq!(imm, 0xfffff << 12);

    // J-type
    let jal = 0x028000ef;
    let imm = Instruction::extract_imm(jal, InsnType::J);
    assert_eq!(imm, 40);

    let jal = 0xff80006f;
    let imm = Instruction::extract_imm(jal, InsnType::J);
    assert_eq!(((imm as i32) << 11) >> 11, -1046536);
    assert_eq!(sign_extend(imm as u64, 21), -1046536);
}

#[test]
fn immediates_of_the_table() {
    let sx = |raw: u32, form: InsnType, bits: u32| sign_extend(Instruction::extract_imm(raw, form) as u64, bits);
    assert_eq!(sx(0x02010113, InsnType::I, 12), 0x20);
    assert_eq!(sx(0xfff00313, InsnType::I, 12), -1);
    assert_eq!(sx(0x00842303, InsnType::I, 12), 0x8);
    assert_eq!(sx(0x00532623, InsnType::S, 12), 12);
    assert_eq!(sx(0xfe740c23, InsnType::S, 12), -8);
    assert_eq!(sx(0x00000463, InsnType::B, 13), 8);
    assert_eq!(sx(0xffd11ee3, InsnType::B, 13), -4);
    assert_eq!(sx(0x12345537, InsnType::U, 32), 0x12345000);
    assert_eq!(sx(0x028000ef, InsnType::J, 21), 40);
    assert_eq!(sx(0xff80006f, InsnType::J, 21), -1046536);
}

#[test]
fn immediates_come_back_from_the_encoders() {
    for imm in [-2048, -1, 0, 1, 5, 2047] {
        assert_eq!(sign_extend(Instruction::extract_imm(i_type(imm, 1, 0, 2, 0x13), InsnType::I) as u64, 12), imm as i64);
        assert_eq!(sign_extend(Instruction::extract_imm(s_type(imm, 1, 2, 0, 0x23), InsnType::S) as u64, 12), imm as i64);
    }
    for imm in [-4096, -2, 0, 2, 8, 4094] {
        assert_eq!(sign_extend(Instruction::extract_imm(b_type(imm, 1, 2, 0), InsnType::B) as u64, 13), imm as i64);
    }
    for imm in [-1048576, -2, 0, 2, 40, 1048574] {
        assert_eq!(sign_extend(Instruction::extract_imm(j_type(imm, 1), InsnType::J) as u64, 21), imm as i64);
    }
}

#[test]
fn fields_of_a_parsed_instruction() {
    // add x5, x6, x7
    let raw = r_type(0, 7, 6, 0, 5, 0x33);
    let insn = Instruction::parse(raw, InsnType::R);
    assert_eq!(
        insn,
        Instruction::R { funct7: 0, rs2: 7, rs1: 6, funct3: 0, rd: 5, opcode: 0x33, raw }
    );
    assert_eq!(insn.opcode(), 0x33);
    assert_eq!(insn.imm(), None);
    assert_eq!(insn.step_size(), 4);
    let raw = i_type(-1, 6, 0, 5, 0x13);
    let insn = Instruction::parse(raw, InsnType::I);
    assert_eq!(insn, Instruction::I { imm: 0xfff, rs1: 6, funct3: 0, rd: 5, opcode: 0x13, raw });
    assert_eq!(insn.imm(), Some(0xfff));
    let c = Instruction::C { opcode: 1, raw: 1 };
    assert_eq!(c.step_size(), 2);
    assert_eq!(c.imm(), None);
    assert_eq!(c.opcode(), 1);
}

#[test]
fn base_decoder_knows_every_operation() {
    assert_eq!(executor_of(0x12345537), Some(Executor::Lui));
    assert_eq!(executor_of(0x00000017), Some(Executor::Auipc));
    let loads = [Executor::Lb, Executor::Lh, Executor::Lw, Executor::Ld, Executor::Lbu, Executor::Lhu, Executor::Lwu];
    for (f3, e) in loads.iter().enumerate() {
        assert_eq!(executor_of(i_type(0, 1, f3 as u32, 2, 0x03)), Some(*e));
    }
    assert_eq!(executor_of(i_type(0, 1, 7, 2, 0x03)), None);
    let stores = [Executor::Sb, Executor::Sh, Executor::Sw, Executor::Sd];
    for (f3, e) in stores.iter().enumerate() {
        assert_eq!(executor_of(s_type(0, 1, 2, f3 as u32, 0x23)), Some(*e));
    }
    assert_eq!(executor_of(s_type(0, 1, 2, 4, 0x23)), None);
    let imms = [
        (0, Executor::Addi), (1, Executor::Slli), (2, Executor::Slti), (3, Executor::Sltiu),
        (4, Executor::Xori), (5, Executor::Srli), (6, Executor::Ori), (7, Executor::Andi),
    ];
    for (f3, e) in imms {
        assert_eq!(executor_of(i_type(3, 1, f3, 2, 0x13)), Some(e));
    }
    assert_eq!(executor_of(i_type(0x400 | 3, 1, 5, 2, 0x13)), Some(Executor::Srai));
    assert_eq!(executor_of(i_type(0x200 | 3, 1, 5, 2, 0x13)), None);
    let branches = [
        (0, Some(Executor::Beq)), (1, Some(Executor::Bne)), (2, None), (3, None),
        (4, Some(Executor::Blt)), (5, Some(Executor::Bge)), (6, Some(Executor::Bltu)), (7, Some(Executor::Bgeu)),
    ];
    for (f3, e) in branches {
        assert_eq!(executor_of(b_type(8, 1, 2, f3)), e);
    }
    assert_eq!(executor_of(j_type(40, 1)), Some(Executor::Jal));
    assert_eq!(executor_of(i_type(0, 1, 0, 0, 0x67)), Some(Executor::Jalr));
    assert_eq!(executor_of(i_type(0, 1, 1, 0, 0x67)), None);
    let ops = [
        (0, 0, Some(Executor::Add)), (0, 0x20, Some(Executor::Sub)), (1, 0, Some(Executor::Sll)),
        (2, 0, Some(Executor::Slt)), (3, 0, Some(Executor::Sltu)), (4, 0, Some(Executor::Xor)),
        (5, 0, Some(Executor::Srl)), (5, 0x20, Some(Executor::Sra)), (6, 0, Some(Executor::Or)),
        (7, 0, Some(Executor::And)), (0, 1, None), (1, 0x20, None), (7, 1, None),
    ];
    for (f3, f7, e) in ops {
        assert_eq!(executor_of(r_type(f7, 3, 1, f3, 2, 0x33)), e);
    }
    let words = [
        (0, 0, Some(Executor::Addw)), (0, 0x20, Some(Executor::Subw)), (1, 0, Some(Executor::Sllw)),
        (5, 0, Some(Executor::Srlw)), (5, 0x20, Some(Executor::Sraw)), (2, 0, None), (1, 0x20, None),
    ];
    for (f3, f7, e) in words {
        assert_eq!(executor_of(r_type(f7, 3, 1, f3, 2, 0x3b)), e);
    }
    assert_eq!(executor_of(i_type(1, 1, 0, 2, 0x1b)), Some(Executor::Addiw));
    assert_eq!(executor_of(i_type(1, 1, 1, 2, 0x1b)), Some(Executor::Slliw));
    assert_eq!(executor_of(i_type(1, 1, 5, 2, 0x1b)), Some(Executor::Srliw));
    assert_eq!(executor_of(i_type(0x401, 1, 5, 2, 0x1b)), Some(Executor::Sraiw));
    assert_eq!(executor_of(i_type(0x21, 1, 1, 2, 0x1b)), None);
    assert_eq!(executor_of(0x0ff0000f), Some(Executor::Fence));
    assert_eq!(executor_of(0x0000100f), None);
    assert_eq!(executor_of(0x00000073), Some(Executor::Ecall));
    assert_eq!(executor_of(0x00100073), Some(Executor::Ebreak));
    assert_eq!(executor_of(0x30200073), None);
    assert_eq!(executor_of(0x00000000), None);
    assert_eq!(executor_of(0xffffffff), None);
}

#[test]
fn decoded_instruction_has_the_form_of_its_operation() {
    let (insn, e) = Rv64IDecoder.decode(0x00532623).unwrap().unwrap();
    assert_eq!(e, Executor::Sw);
    assert_eq!(e.form(), InsnType::S);
    assert_eq!(insn, Instruction::S { imm: 12, rs2: 5, rs1: 6, funct3: 2, opcode: 0x23, raw: 0x00532623 });
    let (insn, e) = Rv64IDecoder.decode(0x028000ef).unwrap().unwrap();
    assert_eq!(e, Executor::Jal);
    assert_eq!(insn, Instruction::J { imm: 40, rd: 1, opcode: 0x6f, raw: 0x028000ef });
    let (insn, e) = Rv64IDecoder.decode(0x12345537).unwrap().unwrap();
    assert_eq!(e, Executor::Lui);
    assert_eq!(insn, Instruction::U { imm: 0x12345000, rd: 10, opcode: 0x37, raw: 0x12345537 });
}

#[test]
fn shifts_of_doublewords_take_six_bits() {
    let mut s = State::zero();
    s.x[1] = 1;
    // slli x2, x1, 63
    exec(i_type(63, 1, 1, 2, 0x13), &mut s);
    assert_eq!(s.x[2], 1 << 63);
    // srli x3, x2, 63
    exec(i_type(63, 2, 5, 3, 0x13), &mut s);
    assert_eq!(s.x[3], 1);
    // srai x4, x2, 63
    exec(i_type(0x400 | 63, 2, 5, 4, 0x13), &mut s);
    assert_eq!(s.x[4], u64::MAX);
    // sll x5, x1, x6 with x6 = 64 + 33: the amount is 33
    s.x[6] = 97;
    exec(r_type(0, 6, 1, 1, 5, 0x33), &mut s);
    assert_eq!(s.x[5], 1 << 33);
    // srl and sra by x6
    s.x[7] = 0x8000_0000_0000_0000;
    exec(r_type(0, 6, 7, 5, 8, 0x33), &mut s);
    assert_eq!(s.x[8], 0x8000_0000_0000_0000 >> 33);
    exec(r_type(0x20, 6, 7, 5, 9, 0x33), &mut s);
    assert_eq!(s.x[9], ((0x8000_0000_0000_0000u64 as i64) >> 33) as u64);
}

#[test]
fn shifts_of_words_take_five_bits() {
    let mut s = State::zero();
    s.x[1] = 0x1_8000_0001;
    // slliw x2, x1, 31
    exec(i_type(31, 1, 1, 2, 0x1b), &mut s);
    assert_eq!(s.x[2], 0xffff_ffff_8000_0000);
    // srliw x3, x1, 31
    exec(i_type(31, 1, 5, 3, 0x1b), &mut s);
    assert_eq!(s.x[3], 1);
    // sraiw x4, x1, 31
    exec(i_type(0x400 | 31, 1, 5, 4, 0x1b), &mut s);
    assert_eq!(s.x[4], u64::MAX);
    // sllw x5, x1, x6 with x6 = 32 + 4: the amount is 4
    s.x[6] = 36;
    exec(r_type(0, 6, 1, 1, 5, 0x3b), &mut s);
    assert_eq!(s.x[5], 0x10);
    exec(r_type(0, 6, 1, 5, 7, 0x3b), &mut s);
    assert_eq!(s.x[7], 0x0800_0000);
    exec(r_type(0x20, 6, 1, 5, 8, 0x3b), &mut s);
    assert_eq!(s.x[8], 0xffff_ffff_f800_0000);
}

#[test]
fn arithmetic_on_registers() {
    let mut s = State::zero();
    s.x[1] = u64::MAX;
    s.x[2] = 2;
    exec(r_type(0, 2, 1, 0, 3, 0x33), &mut s);
    assert_eq!(s.x[3], 1);
    exec(r_type(0x20, 1, 2, 0, 3, 0x33), &mut s);
    assert_eq!(s.x[3], 3);
    exec(r_type(0, 2, 1, 2, 3, 0x33), &mut s);
    assert_eq!(s.x[3], 1, "slt: -1 < 2");
    exec(r_type(0, 2, 1, 3, 3, 0x33), &mut s);
    assert_eq!(s.x[3], 0, "sltu: max is not below 2");
    exec(r_type(0, 2, 1, 4, 3, 0x33), &mut s);
    assert_eq!(s.x[3], u64::MAX ^ 2);
    exec(r_type(0, 2, 1, 6, 3, 0x33), &mut s);
    assert_eq!(s.x[3], u64::MAX);
    exec(r_type(0, 2, 1, 7, 3, 0x33), &mut s);
    assert_eq!(s.x[3], 2);
    s.x[4] = 0x7fff_ffff;
    s.x[5] = 1;
    exec(r_type(0, 5, 4, 0, 3, 0x3b), &mut s);
    assert_eq!(s.x[3], 0xffff_ffff_8000_0000, "addw wraps in 32 bits");
    s.x[4] = 0x1_0000_0000;
    exec(r_type(0x20, 5, 4, 0, 3, 0x3b), &mut s);
    assert_eq!(s.x[3], u64::MAX, "subw: 0 - 1 in 32 bits");
}

#[test]
fn arithmetic_on_immediates() {
    let mut s = State::zero();
    s.x[1] = 10;
    exec(i_type(-11, 1, 0, 2, 0x13), &mut s);
    assert_eq!(s.x[2], u64::MAX);
    exec(i_type(-1, 1, 2, 2, 0x13), &mut s);
    assert_eq!(s.x[2], 0, "slti: 10 is not below -1");
    exec(i_type(-1, 1, 3, 2, 0x13), &mut s);
    assert_eq!(s.x[2], 1, "sltiu: 10 is below the greatest number");
    exec(i_type(-1, 1, 4, 2, 0x13), &mut s);
    assert_eq!(s.x[2], !10u64);
    exec(i_type(0x700, 1, 6, 2, 0x13), &mut s);
    assert_eq!(s.x[2], 0x70a);
    exec(i_type(-2, 1, 7, 2, 0x13), &mut s);
    assert_eq!(s.x[2], 10);
    s.x[1] = 0x7fff_ffff;
    exec(i_type(1, 1, 0, 2, 0x1b), &mut s);
    assert_eq!(s.x[2], 0xffff_ffff_8000_0000, "addiw");
}

#[test]
fn lui_and_auipc_sign_extend_the_immediate() {
    let mut s = State::zero();
    exec(0x12345537, &mut s);
    assert_eq!(s.x[10], 0x12345000);
    // lui x5, 0x80000
    exec(0x800002b7, &mut s);
    assert_eq!(s.x[5], 0xffff_ffff_8000_0000);
    s.pc = 0x1000;
    // auipc x6, 0xfffff
    exec(0xfffff317, &mut s);
    assert_eq!(s.x[6], 0);
    assert_eq!(s.pc, 0x1000);
}

#[test]
fn branches_and_jumps_move_the_program_counter() {
    let mut guest = GuestMem::new();
    let mut s = State::zero();
    s.pc = 0x1000;
    s.x[1] = 5;
    s.x[2] = 5;
    let insn = Instruction::parse(b_type(-4, 2, 1, 0), InsnType::B);
    rv64i_beq(&mut s, &mut guest, &insn).unwrap();
    assert_eq!(s.pc, 0xffc);
    s.x[2] = 6;
    rv64i_beq(&mut s, &mut guest, &insn).unwrap();
    assert_eq!(s.pc, 0xffc, "not taken");
    // bne, blt, bge, bltu, bgeu with x1 = -1, x2 = 1
    s.x[1] = u64::MAX;
    s.x[2] = 1;
    for (f3, taken) in [(1, true), (4, true), (5, false), (6, false), (7, true)] {
        s.pc = 0x2000;
        run_one(b_type(16, 2, 1, f3), &mut s, &mut guest).unwrap();
        assert_eq!(s.pc, if taken { 0x2010 } else { 0x2000 }, "funct3 {}", f3);
    }
    s.pc = 0x2000;
    let insn = Instruction::parse(0xff80006f, InsnType::J);
    rv64i_jal(&mut s, &mut guest, &insn).unwrap();
    assert_eq!(s.pc, 0x2000u64.wrapping_sub(1046536));
    s.pc = 0x3000;
    let insn = Instruction::parse(0x028000ef, InsnType::J);
    rv64i_jal(&mut s, &mut guest, &insn).unwrap();
    assert_eq!(s.pc, 0x3028);
    assert_eq!(s.x[1], 0x3004);
    // jalr x1, 3(x5): bit 0 of the target is cleared
    s.x[5] = 0x4000;
    s.pc = 0x3000;
    run_one(i_type(3, 5, 0, 1, 0x67), &mut s, &mut guest).unwrap();
    assert_eq!(s.pc, 0x4002);
    assert_eq!(s.x[1], 0x3004);
}

#[test]
fn loads_and_stores_go_through_guest_memory() {
    let mut guest = GuestMem::new();
    guest.add_segment(0x10000, 4096, MemFlags::read() | MemFlags::write(), None).unwrap();
    let mut s = State::zero();
    s.x[6] = 0x10010;
    s.x[5] = 0xdead_beef_8765_4321;
    // sw x5, 12(x6)
    let insn = Instruction::parse(0x00532623, InsnType::S);
    rv64i_sw(&mut s, &mut guest, &insn).unwrap();
    assert_eq!(guest.read_u32(0x1001c).unwrap(), 0x8765_4321);
    assert_eq!(guest.read_u8(0x10020).unwrap(), 0);
    // lw x7, 12(x6) sign-extends
    let insn = Instruction::parse(i_type(12, 6, 2, 7, 0x03), InsnType::I);
    rv64i_lw(&mut s, &mut guest, &insn).unwrap();
    assert_eq!(s.x[7], 0xffff_ffff_8765_4321);
    // lwu, lh, lhu, lb, lbu
    run_one(i_type(12, 6, 6, 7, 0x03), &mut s, &mut guest).unwrap();
    assert_eq!(s.x[7], 0x8765_4321);
    run_one(i_type(14, 6, 1, 7, 0x03), &mut s, &mut guest).unwrap();
    assert_eq!(s.x[7], 0xffff_ffff_ffff_8765);
    run_one(i_type(14, 6, 5, 7, 0x03), &mut s, &mut guest).unwrap();
    assert_eq!(s.x[7], 0x8765);
    run_one(i_type(15, 6, 0, 7, 0x03), &mut s, &mut guest).unwrap();
    assert_eq!(s.x[7], 0xffff_ffff_ffff_ff87);
    run_one(i_type(15, 6, 4, 7, 0x03), &mut s, &mut guest).unwrap();
    assert_eq!(s.x[7], 0x87);
    // sd and ld with a negative offset
    run_one(s_type(-8, 5, 6, 3, 0x23), &mut s, &mut guest).unwrap();
    run_one(i_type(-8, 6, 3, 8, 0x03), &mut s, &mut guest).unwrap();
    assert_eq!(s.x[8], 0xdead_beef_8765_4321);
    // sb and sh
    run_one(s_type(0, 5, 6, 0, 0x23), &mut s, &mut guest).unwrap();
    assert_eq!(guest.read_u16(0x10010).unwrap(), 0x21);
    run_one(s_type(0, 5, 6, 1, 0x23), &mut s, &mut guest).unwrap();
    assert_eq!(guest.read_u32(0x10010).unwrap(), 0x4321);
}

#[test]
fn a_load_that_faults_leaves_the_registers() {
    let mut guest = GuestMem::new();
    let mut s = State::zero();
    s.x[7] = 77;
    s.x[6] = 0x5000;
    let r = run_one(i_type(4, 6, 3, 7, 0x03), &mut s, &mut guest);
    assert_eq!(r, Err(Error::MemAccessFault(rvemu_core::guest::MemAccess::Read, 0x5004)));
    assert_eq!(s.x[7], 77);
    let r = run_one(s_type(4, 7, 6, 2, 0x23), &mut s, &mut guest);
    assert_eq!(r, Err(Error::MemAccessFault(rvemu_core::guest::MemAccess::Write, 0x5004)));
}

#[test]
fn an_executor_refuses_another_form() {
    let mut guest = GuestMem::new();
    let mut s = State::zero();
    let r_insn = Instruction::parse(r_type(0, 2, 1, 0, 3, 0x33), InsnType::R);
    assert_eq!(rv64i_addi(&mut s, &mut guest, &r_insn), Err(Error::InternalError(Breach::InsnForm)));
    assert_eq!(rv64i_lui(&mut s, &mut guest, &r_insn), Err(Error::InternalError(Breach::InsnForm)));
    let i_insn = Instruction::parse(i_type(1, 1, 0, 3, 0x13), InsnType::I);
    assert_eq!(rv64i_sll(&mut s, &mut guest, &i_insn), Err(Error::InternalError(Breach::InsnForm)));
    let bad = Instruction::I { imm: 1, rs1: 40, funct3: 0, rd: 3, opcode: 0x13, raw: 0 };
    assert_eq!(rv64i_addi(&mut s, &mut guest, &bad), Err(Error::InternalError(Breach::InsnForm)));
    assert_eq!(s.x, [0u64; 32]);
}

#[test]
fn ecall_and_ebreak_latch_the_trap() {
    let mut s = State::zero();
    s.pc = 0x100;
    exec(0x00000073, &mut s);
    assert_eq!(s.break_on, Some(BreakCause::Ecall));
    assert_eq!(s.pc, 0x100);
    exec(0x00100073, &mut s);
    assert_eq!(s.break_on, Some(BreakCause::Ebreak));
    s.break_on = None;
    exec(0x0ff0000f, &mut s);
    assert_eq!(s.break_on, None);
    assert_eq!(s.pc, 0x100);
}

#[test]
fn control_register_stub() {
    let mut guest = GuestMem::new();
    let d = ZicsrDecoder;
    let mut s = State::zero();
    assert_eq!(d.decode(0x00000013).unwrap(), None);
    assert_eq!(d.decode(0x00000073).unwrap(), None, "ecall is not claimed");
    // csrr a0, mhartid = csrrs x10, 0xf14, x0
    s.x[10] = 99;
    let (insn, e) = d.decode(0xf1402573).unwrap().unwrap();
    assert_eq!(e, Executor::Csrrs);
    e.execute(&mut s, &mut guest, &insn).unwrap();
    assert_eq!(s.x[10], 0);
    // csrw mepc, t0 = csrrw x0, 0x341, x5
    s.x[5] = 0x8000_0010;
    let (insn, e) = d.decode(0x34129073).unwrap().unwrap();
    assert_eq!(e, Executor::Csrrw);
    e.execute(&mut s, &mut guest, &insn).unwrap();
    assert_eq!(s.mepc, 0x8000_0010);
    // csrrsi x6, mepc, 5
    let (insn, e) = d.decode(0x3412e373).unwrap().unwrap();
    assert_eq!(e, Executor::Csrrsi);
    e.execute(&mut s, &mut guest, &insn).unwrap();
    assert_eq!(s.x[6], 0x8000_0010);
    assert_eq!(s.mepc, 0x8000_0015);
    // csrrci x0, mepc, 4
    let (insn, e) = d.decode(0x34127073).unwrap().unwrap();
    assert_eq!(e, Executor::Csrrci);
    e.execute(&mut s, &mut guest, &insn).unwrap();
    assert_eq!(s.mepc, 0x8000_0011);
    // csrrc x0, mepc, x7 and csrrwi x0, mepc, 3
    s.x[7] = 0x1;
    let (insn, e) = d.decode(0x3413b073).unwrap().unwrap();
    assert_eq!(e, Executor::Csrrc);
    e.execute(&mut s, &mut guest, &insn).unwrap();
    assert_eq!(s.mepc, 0x8000_0010);
    let (insn, e) = d.decode(0x3411d073).unwrap().unwrap();
    assert_eq!(e, Executor::Csrrwi);
    e.execute(&mut s, &mut guest, &insn).unwrap();
    assert_eq!(s.mepc, 3);
    // another register: nothing happens
    s.x[8] = 5;
    let (insn, e) = d.decode(0x30529473).unwrap().unwrap();
    e.execute(&mut s, &mut guest, &insn).unwrap();
    assert_eq!(s.x[8], 5);
    // mret
    s.mepc = 0x2000;
    let (insn, e) = d.decode(0x30200073).unwrap().unwrap();
    assert_eq!(e, Executor::Mret);
    e.execute(&mut s, &mut guest, &insn).unwrap();
    assert_eq!(s.pc, 0x2000);
    assert_eq!(d.decode(0x10200073).unwrap(), None, "sret is not claimed");
}

#[test]
fn fence_i_decoder_claims_one_word() {
    let d = ZifenceiDecoder;
    let (_, e) = d.decode(0x0000100f).unwrap().unwrap();
    assert_eq!(e, Executor::FenceI);
    assert_eq!(d.decode(0x0000000f).unwrap(), None);
    assert_eq!(d.decode(0x0000100e).unwrap(), None);
    let mut s = State::zero();
    let mut guest = GuestMem::new();
    let insn = Instruction::parse(0x0000100f, InsnType::I);
    e.execute(&mut s, &mut guest, &insn).unwrap();
    assert_eq!(s.x, [0u64; 32]);
    assert_eq!(s.pc, 0);
}

#[test]
fn small_decoder_knows_lui() {
    let d = Rv32IDecoder;
    let (insn, e) = d.decode(0x800002b7).unwrap().unwrap();
    assert_eq!(e, Executor::Lui32);
    let mut s = State::zero();
    let mut guest = GuestMem::new();
    e.execute(&mut s, &mut guest, &insn).unwrap();
    assert_eq!(s.x[5], 0x8000_0000);
    assert_eq!(d.decode(0x00000013).unwrap(), None);
}

#[test]
fn letters_of_instruction_sets() {
    assert_eq!(InsnSet::from_letter('I'), Some(InsnSet::I));
    assert_eq!(InsnSet::from_letter('m'), Some(InsnSet::M));
    assert_eq!(InsnSet::from_letter('F'), Some(InsnSet::F));
    assert_eq!(InsnSet::from_letter('D'), Some(InsnSet::D));
    assert_eq!(InsnSet::from_letter('A'), Some(InsnSet::A));
    assert_eq!(InsnSet::from_letter('C'), Some(InsnSet::C));
    assert_eq!(InsnSet::from_letter('Z'), None);
}

fn next(seed: &mut u64) -> u64 {
    *seed = seed.wrapping_mul(6364136223846793005).wrapping_add(1442695040888963407);
    let hi = *seed >> 33;
    *seed = seed.wrapping_mul(6364136223846793005).wrapping_add(1442695040888963407);
    (hi << 32) ^ (*seed >> 16)
}

#[test]
fn register_operations_on_many_values() {
    let mut seed = 0x1234_5678_9abc_def0u64;
    let w = |v: u32| v as i32 as i64 as u64;
    for round in 0..2000 {
        let mut a = next(&mut seed);
        let mut b = next(&mut seed);
        if round % 7 == 0 {
            b &= 0x7f;
        }
        if round % 11 == 0 {
            a = u64::MAX - (a & 3);
        }
        let cases: [(u32, u32, u32, u64); 15] = [
            (0x33, 0, 0x00, a.wrapping_add(b)),
            (0x33, 0, 0x20, a.wrapping_sub(b)),
            (0x33, 1, 0x00, a << (b & 63)),
            (0x33, 2, 0x00, ((a as i64) < (b as i64)) as u64),
            (0x33, 3, 0x00, (a < b) as u64),
            (0x33, 4, 0x00, a ^ b),
            (0x33, 5, 0x00, a >> (b & 63)),
            (0x33, 5, 0x20, ((a as i64) >> (b & 63)) as u64),
            (0x33, 6, 0x00, a | b),
            (0x33, 7, 0x00, a & b),
            (0x3b, 0, 0x00, w((a as u32).wrapping_add(b as u32))),
            (0x3b, 0, 0x20, w((a as u32).wrapping_sub(b as u32))),
            (0x3b, 1, 0x00, w((a as u32) << (b & 31))),
            (0x3b, 5, 0x00, w((a as u32) >> (b & 31))),
            (0x3b, 5, 0x20, w(((a as i32) >> (b & 31)) as u32)),
        ];
        for (opcode, f3, f7, expected) in cases {
            let mut s = State::zero();
            s.x[1] = a;
            s.x[2] = b;
            exec(r_type(f7, 2, 1, f3, 3, opcode), &mut s);
            assert_eq!(s.x[3], expected, "opcode {:#x} funct3 {} funct7 {:#x} on {:#x}, {:#x}", opcode, f3, f7, a, b);
            assert_eq!(s.x[1], a);
            assert_eq!(s.x[2], b);
        }
    }
}

#[test]
fn immediate_operations_on_many_values() {
    let mut seed = 0x0fed_cba9_8765_4321u64;
    let w = |v: u32| v as i32 as i64 as u64;
    for _ in 0..2000 {
        let a = next(&mut seed);
        let imm = (next(&mut seed) % 4096) as i32 - 2048;
        let sh = (next(&mut seed) % 64) as i32;
        let shw = sh % 32;
        let i = imm as i64 as u64;
        let cases: [(u32, u32, i32, u64); 13] = [
            (0x13, 0, imm, a.wrapping_add(i)),
            (0x13, 2, imm, ((a as i64) < (imm as i64)) as u64),
            (0x13, 3, imm, (a < i) as u64),
            (0x13, 4, imm, a ^ i),
            (0x13, 6, imm, a | i),
            (0x13, 7, imm, a & i),
            (0x13, 1, sh, a << sh),
            (0x13, 5, sh, a >> sh),
            (0x13, 5, 0x400 | sh, ((a as i64) >> sh) as u64),
            (0x1b, 0, imm, w((a as u32).wrapping_add(imm as u32))),
            (0x1b, 1, shw, w((a as u32) << shw)),
            (0x1b, 5, shw, w((a as u32) >> shw)),
            (0x1b, 5, 0x400 | shw, w(((a as i32) >> shw) as u32)),
        ];
        for (opcode, f3, field, expected) in cases {
            let mut s = State::zero();
            s.x[1] = a;
            exec(i_type(field, 1, f3, 3, opcode), &mut s);
            assert_eq!(s.x[3], expected, "opcode {:#x} funct3 {} field {:#x} on {:#x}", opcode, f3, field, a);
        }
    }
}

#[test]
fn branches_on_many_values() {
    let mut seed = 0x5555_aaaa_1234_8765u64;
    for round in 0..2000 {
        let a = next(&mut seed);
        let b = if round % 5 == 0 { a } else { next(&mut seed) };
        let offset = ((next(&mut seed) % 4096) as i32 - 2048) * 2;
        let pc = next(&mut seed) & !3;
        let cases = [
            (0, a == b),
            (1, a != b),
            (4, (a as i64) < (b as i64)),
            (5, (a as i64) >= (b as i64)),
            (6, a < b),
            (7, a >= b),
        ];
        for (f3, taken) in cases {
            let mut s = State::zero();
            s.pc = pc;
            s.x[1] = a;
            s.x[2] = b;
            exec(b_type(offset, 2, 1, f3), &mut s);
            let target = if taken { pc.wrapping_add(offset as i64 as u64) } else { pc };
            assert_eq!(s.pc, target, "funct3 {} on {:#x}, {:#x}", f3, a, b);
        }
    }
}
