//! Instruction words. Classifying a 32-bit word as one of the fourteen RISC-U
//! instructions (or rejecting it) is delegated to the external decoder, which
//! always hands the raw word back as the payload of the classified variant;
//! the operand fields are then extracted here from the word's bits, exactly as
//! the RISC-V base encoding lays them out.

use vstd::prelude::*;

verus! {

#[verifier::external_type_specification]
pub struct ExInstruction(riscu::Instruction);

#[verifier::external_type_specification]
pub struct ExIType(riscu::types::IType);

#[verifier::external_type_specification]
pub struct ExUType(riscu::types::UType);

#[verifier::external_type_specification]
pub struct ExSType(riscu::types::SType);

#[verifier::external_type_specification]
pub struct ExRType(riscu::types::RType);

#[verifier::external_type_specification]
pub struct ExBType(riscu::types::BType);

#[verifier::external_type_specification]
pub struct ExJType(riscu::types::JType);

#[verifier::external_type_specification]
#[verifier::external_body]
pub struct ExDecodingError(riscu::DecodingError);

/// The classification of a 32-bit word by the external decoder: which of the
/// fourteen RISC-U instructions it encodes, or nothing for an invalid word.
pub uninterp spec fn opcode_of(word: u32) -> Option<Opcode>;

/// The instruction value the external decoder returns for a word it accepts:
/// the variant named by the classification, carrying the raw word itself.
pub open spec fn riscu_decoded(word: u32) -> Option<riscu::Instruction> {
    match opcode_of(word) {
        None => None,
        Some(Opcode::Lui) => Some(riscu::Instruction::Lui(riscu::types::UType(word))),
        Some(Opcode::Jal) => Some(riscu::Instruction::Jal(riscu::types::JType(word))),
        Some(Opcode::Jalr) => Some(riscu::Instruction::Jalr(riscu::types::IType(word))),
        Some(Opcode::Beq) => Some(riscu::Instruction::Beq(riscu::types::BType(word))),
        Some(Opcode::Ld) => Some(riscu::Instruction::Ld(riscu::types::IType(word))),
        Some(Opcode::Sd) => Some(riscu::Instruction::Sd(riscu::types::SType(word))),
        Some(Opcode::Addi) => Some(riscu::Instruction::Addi(riscu::types::IType(word))),
        Some(Opcode::Add) => Some(riscu::Instruction::Add(riscu::types::RType(word))),
        Some(Opcode::Sub) => Some(riscu::Instruction::Sub(riscu::types::RType(word))),
        Some(Opcode::Sltu) => Some(riscu::Instruction::Sltu(riscu::types::RType(word))),
        Some(Opcode::Mul) => Some(riscu::Instruction::Mul(riscu::types::RType(word))),
        Some(Opcode::Divu) => Some(riscu::Instruction::Divu(riscu::types::RType(word))),
        Some(Opcode::Remu) => Some(riscu::Instruction::Remu(riscu::types::RType(word))),
        Some(Opcode::Ecall) => Some(riscu::Instruction::Ecall(riscu::types::IType(word))),
    }
}

/// Relies on riscu::decode: it either rejects a word or returns the RISC-U
/// instruction variant for it, whose payload is always the raw word itself.
pub assume_specification[ riscu::decode ](word: u32) -> (r: Result<
    riscu::Instruction,
    riscu::DecodingError,
>)
    ensures
        (r is Ok) == (opcode_of(word) is Some),
        (r matches Ok(inst) ==> Some(inst) == riscu_decoded(word)),
;

/// The kind of a RISC-U instruction.
#[derive(Clone, Copy, Debug, PartialEq, Eq, Structural)]
pub enum Opcode {
    Lui,
    Jal,
    Jalr,
    Beq,
    Ld,
    Sd,
    Addi,
    Add,
    Sub,
    Sltu,
    Mul,
    Divu,
    Remu,
    Ecall,
}

/// A decoded RISC-U instruction. Register operands are architectural register
/// indices below 32; immediates are already sign-extended to 64 bits, except
/// for `Lui`, which carries its raw 20-bit upper immediate.
#[derive(Clone, Copy, Debug, PartialEq, Eq, Structural)]
#[allow(inconsistent_fields)]
pub enum Instr {
    Addi { rd: u8, rs1: u8, imm: u64 },
    Lui { rd: u8, imm: u32 },
    Ld { rd: u8, rs1: u8, imm: u64 },
    Sd { rs1: u8, rs2: u8, imm: u64 },
    Add { rd: u8, rs1: u8, rs2: u8 },
    Sub { rd: u8, rs1: u8, rs2: u8 },
    Mul { rd: u8, rs1: u8, rs2: u8 },
    Divu { rd: u8, rs1: u8, rs2: u8 },
    Remu { rd: u8, rs1: u8, rs2: u8 },
    Sltu { rd: u8, rs1: u8, rs2: u8 },
    Beq { rs1: u8, rs2: u8, imm: u64 },
    Jal { rd: u8, imm: u64 },
    Jalr { rd: u8, rs1: u8, imm: u64 },
    Ecall,
}

/// Destination register field: bits 7..12.
pub open spec fn field_rd(w: u32) -> u8 {
    ((w >> 7) & 0x1f) as u8
}

/// First source register field: bits 15..20.
pub open spec fn field_rs1(w: u32) -> u8 {
    ((w >> 15) & 0x1f) as u8
}

/// Second source register field: bits 20..25.
pub open spec fn field_rs2(w: u32) -> u8 {
    ((w >> 20) & 0x1f) as u8
}

/// I-format immediate: bits 20..32, sign-extended to 64 bits.
pub open spec fn imm_i(w: u32) -> u64 {
    if w >> 31 == 1 {
        ((w >> 20) as u64) | 0xffff_ffff_ffff_f000u64
    } else {
        (w >> 20) as u64
    }
}

/// S-format immediate: bits 25..32 and 7..12, sign-extended to 64 bits.
pub open spec fn imm_s(w: u32) -> u64 {
    if w >> 31 == 1 {
        ((((w >> 20) & 0xfe0) | ((w >> 7) & 0x1f)) as u64) | 0xffff_ffff_ffff_f000u64
    } else {
        (((w >> 20) & 0xfe0) | ((w >> 7) & 0x1f)) as u64
    }
}

/// B-format immediate: the 13-bit branch offset, sign-extended to 64 bits.
pub open spec fn imm_b(w: u32) -> u64 {
    if w >> 31 == 1 {
        ((((w & 0x8000_0000) >> 19) | ((w & 0x7e00_0000) >> 20) | ((w & 0x0000_0f00) >> 7) | ((w
            & 0x0000_0080) << 4)) as u64) | 0xffff_ffff_ffff_e000u64
    } else {
        (((w & 0x8000_0000) >> 19) | ((w & 0x7e00_0000) >> 20) | ((w & 0x0000_0f00) >> 7) | ((w
            & 0x0000_0080) << 4)) as u64
    }
}

/// J-format immediate: the 21-bit jump offset, sign-extended to 64 bits.
pub open spec fn imm_j(w: u32) -> u64 {
    if w >> 31 == 1 {
        ((((w & 0x8000_0000) >> 11) | ((w & 0x7fe0_0000) >> 20) | ((w & 0x0010_0000) >> 9) | (w
            & 0x000f_f000)) as u64) | 0xffff_ffff_ffe0_0000u64
    } else {
        (((w & 0x8000_0000) >> 11) | ((w & 0x7fe0_0000) >> 20) | ((w & 0x0010_0000) >> 9) | (w
            & 0x000f_f000)) as u64
    }
}

/// U-format immediate: bits 12..32, not shifted.
pub open spec fn imm_u(w: u32) -> u32 {
    (w & 0xffff_f000) >> 12
}

/// The decoded instruction for a word the classifier accepts.
pub open spec fn instr_for(op: Opcode, w: u32) -> Instr {
    match op {
        Opcode::Lui => Instr::Lui { rd: field_rd(w), imm: imm_u(w) },
        Opcode::Jal => Instr::Jal { rd: field_rd(w), imm: imm_j(w) },
        Opcode::Jalr => Instr::Jalr { rd: field_rd(w), rs1: field_rs1(w), imm: imm_i(w) },
        Opcode::Beq => Instr::Beq { rs1: field_rs1(w), rs2: field_rs2(w), imm: imm_b(w) },
        Opcode::Ld => Instr::Ld { rd: field_rd(w), rs1: field_rs1(w), imm: imm_i(w) },
        Opcode::Sd => Instr::Sd { rs1: field_rs1(w), rs2: field_rs2(w), imm: imm_s(w) },
        Opcode::Addi => Instr::Addi { rd: field_rd(w), rs1: field_rs1(w), imm: imm_i(w) },
        Opcode::Add => Instr::Add { rd: field_rd(w), rs1: field_rs1(w), rs2: field_rs2(w) },
        Opcode::Sub => Instr::Sub { rd: field_rd(w), rs1: field_rs1(w), rs2: field_rs2(w) },
        Opcode::Sltu => Instr::Sltu { rd: field_rd(w), rs1: field_rs1(w), rs2: field_rs2(w) },
        Opcode::Mul => Instr::Mul { rd: field_rd(w), rs1: field_rs1(w), rs2: field_rs2(w) },
        Opcode::Divu => Instr::Divu { rd: field_rd(w), rs1: field_rs1(w), rs2: field_rs2(w) },
        Opcode::Remu => Instr::Remu { rd: field_rd(w), rs1: field_rs1(w), rs2: field_rs2(w) },
        Opcode::Ecall => Instr::Ecall,
    }
}

/// What decoding a word yields: the instruction for its classification, or
/// nothing for a word the external decoder rejects.
pub open spec fn decoded(w: u32) -> Option<Instr> {
    match opcode_of(w) {
        None => None,
        Some(op) => Some(instr_for(op, w)),
    }
}

/// All register operands of an instruction are architectural indices below 32.
pub open spec fn instr_regs_wf(i: Instr) -> bool {
    match i {
        Instr::Addi { rd, rs1, .. } => rd < 32 && rs1 < 32,
        Instr::Lui { rd, .. } => rd < 32,
        Instr::Ld { rd, rs1, .. } => rd < 32 && rs1 < 32,
        Instr::Sd { rs1, rs2, .. } => rs1 < 32 && rs2 < 32,
        Instr::Add { rd, rs1, rs2 } => rd < 32 && rs1 < 32 && rs2 < 32,
        Instr::Sub { rd, rs1, rs2 } => rd < 32 && rs1 < 32 && rs2 < 32,
        Instr::Mul { rd, rs1, rs2 } => rd < 32 && rs1 < 32 && rs2 < 32,
        Instr::Divu { rd, rs1, rs2 } => rd < 32 && rs1 < 32 && rs2 < 32,
        Instr::Remu { rd, rs1, rs2 } => rd < 32 && rs1 < 32 && rs2 < 32,
        Instr::Sltu { rd, rs1, rs2 } => rd < 32 && rs1 < 32 && rs2 < 32,
        Instr::Beq { rs1, rs2, .. } => rs1 < 32 && rs2 < 32,
        Instr::Jal { rd, .. } => rd < 32,
        Instr::Jalr { rd, rs1, .. } => rd < 32 && rs1 < 32,
        Instr::Ecall => true,
    }
}

/// Every decoded instruction has well-formed register operands.
pub proof fn lemma_decoded_regs_wf(w: u32)
    ensures
        decoded(w) matches Some(i) ==> instr_regs_wf(i),
{
    assert((w >> 7) & 0x1f < 32 && (w >> 15) & 0x1f < 32 && (w >> 20) & 0x1f < 32) by (bit_vector);
}

fn extract_rd(w: u32) -> (r: u8)
    ensures
        r == field_rd(w),
{
    ((w >> 7) & 0x1f) as u8
}

fn extract_rs1(w: u32) -> (r: u8)
    ensures
        r == field_rs1(w),
{
    ((w >> 15) & 0x1f) as u8
}

fn extract_rs2(w: u32) -> (r: u8)
    ensures
        r == field_rs2(w),
{
    ((w >> 20) & 0x1f) as u8
}

fn extract_imm_i(w: u32) -> (r: u64)
    ensures
        r == imm_i(w),
{
    if w >> 31 == 1 {
        ((w >> 20) as u64) | 0xffff_ffff_ffff_f000u64
    } else {
        (w >> 20) as u64
    }
}

fn extract_imm_s(w: u32) -> (r: u64)
    ensures
        r == imm_s(w),
{
    let low = ((w >> 20) & 0xfe0) | ((w >> 7) & 0x1f);
    if w >> 31 == 1 {
        (low as u64) | 0xffff_ffff_ffff_f000u64
    } else {
        low as u64
    }
}

fn extract_imm_b(w: u32) -> (r: u64)
    ensures
        r == imm_b(w),
{
    let low = ((w & 0x8000_0000) >> 19) | ((w & 0x7e00_0000) >> 20) | ((w & 0x0000_0f00) >> 7) | ((w
        & 0x0000_0080) << 4);
    if w >> 31 == 1 {
        (low as u64) | 0xffff_ffff_ffff_e000u64
    } else {
        low as u64
    }
}

fn extract_imm_j(w: u32) -> (r: u64)
    ensures
        r == imm_j(w),
{
    let low = ((w & 0x8000_0000) >> 11) | ((w & 0x7fe0_0000) >> 20) | ((w & 0x0010_0000) >> 9) | (w
        & 0x000f_f000);
    if w >> 31 == 1 {
        (low as u64) | 0xffff_ffff_ffe0_0000u64
    } else {
        low as u64
    }
}

fn extract_imm_u(w: u32) -> (r: u32)
    ensures
        r == imm_u(w),
{
    (w & 0xffff_f000) >> 12
}

/// Decodes one instruction word, delegating the classification of the word to
/// the external decoder and extracting the operand fields from its bits.
pub fn decode_instruction(word: u32) -> (r: Option<Instr>)
    ensures
        r == decoded(word),
        (r matches Some(i) ==> instr_regs_wf(i)),
{
    proof {
        lemma_decoded_regs_wf(word);
    }
    match riscu::decode(word) {
        Ok(inst) => match inst {
            riscu::Instruction::Addi(_) => Some(
                Instr::Addi { rd: extract_rd(word), rs1: extract_rs1(word), imm: extract_imm_i(word) },
            ),
            riscu::Instruction::Lui(_) => Some(
                Instr::Lui { rd: extract_rd(word), imm: extract_imm_u(word) },
            ),
            riscu::Instruction::Ld(_) => Some(
                Instr::Ld { rd: extract_rd(word), rs1: extract_rs1(word), imm: extract_imm_i(word) },
            ),
            riscu::Instruction::Sd(_) => Some(
                Instr::Sd { rs1: extract_rs1(word), rs2: extract_rs2(word), imm: extract_imm_s(word) },
            ),
            riscu::Instruction::Add(_) => Some(
                Instr::Add { rd: extract_rd(word), rs1: extract_rs1(word), rs2: extract_rs2(word) },
            ),
            riscu::Instruction::Sub(_) => Some(
                Instr::Sub { rd: extract_rd(word), rs1: extract_rs1(word), rs2: extract_rs2(word) },
            ),
            riscu::Instruction::Mul(_) => Some(
                Instr::Mul { rd: extract_rd(word), rs1: extract_rs1(word), rs2: extract_rs2(word) },
            ),
            riscu::Instruction::Divu(_) => Some(
                Instr::Divu { rd: extract_rd(word), rs1: extract_rs1(word), rs2: extract_rs2(word) },
            ),
            riscu::Instruction::Remu(_) => Some(
                Instr::Remu { rd: extract_rd(word), rs1: extract_rs1(word), rs2: extract_rs2(word) },
            ),
            riscu::Instruction::Sltu(_) => Some(
                Instr::Sltu { rd: extract_rd(word), rs1: extract_rs1(word), rs2: extract_rs2(word) },
            ),
            riscu::Instruction::Beq(_) => Some(
                Instr::Beq { rs1: extract_rs1(word), rs2: extract_rs2(word), imm: extract_imm_b(word) },
            ),
            riscu::Instruction::Jal(_) => Some(
                Instr::Jal { rd: extract_rd(word), imm: extract_imm_j(word) },
            ),
            riscu::Instruction::Jalr(_) => Some(
                Instr::Jalr { rd: extract_rd(word), rs1: extract_rs1(word), imm: extract_imm_i(word) },
            ),
            riscu::Instruction::Ecall(_) => Some(Instr::Ecall),
        },
        Err(_) => None,
    }
}

/// The little-endian 32-bit word starting at byte offset `4 * k` of `code`.
pub open spec fn word_at(code: Seq<u8>, k: int) -> u32
    recommends
        0 <= k,
        4 * k + 4 <= code.len(),
{
    (code[4 * k] as u32) | ((code[4 * k + 1] as u32) << 8) | ((code[4 * k + 2] as u32) << 16) | ((
    code[4 * k + 3] as u32) << 24)
}

/// Reads the little-endian 32-bit word starting at byte offset `4 * k`.
pub fn read_word(code: &Vec<u8>, k: usize) -> (r: u32)
    requires
        4 * k + 4 <= code@.len(),
    ensures
        r == word_at(code@, k as int),
{
    let n: usize = code.len();
    assert(4 * k + 4 <= n);
    (code[4 * k] as u32) | ((code[4 * k + 1] as u32) << 8) | ((code[4 * k + 2] as u32) << 16) | ((
    code[4 * k + 3] as u32) << 24)
}

} // verus!
