//! A plain model of a decoded ARMv7/Thumb instruction, as far as the
//! next-pc predictor reads it, and the decoder that produces it.

use vstd::prelude::*;
use yaxpeax_arch::Decoder;
use yaxpeax_arm::armv7 as yx;

verus! {

/// The opcodes that the next-pc predictor distinguishes; every other opcode
/// is `Other`.
#[derive(Clone, Copy, Debug, PartialEq, Eq, Structural)]
pub enum OpKind {
    B,
    BL,
    BLX,
    BX,
    BXJ,
    CBZ,
    CBNZ,
    AND,
    EOR,
    SUB,
    RSB,
    ADD,
    ADC,
    SBC,
    RSC,
    ORR,
    MOV,
    BIC,
    MVN,
    LSL,
    LSR,
    ASR,
    RRX,
    ROR,
    ADR,
    LDR,
    LDRT,
    /// `LDM(add, pre, wback, usermode)`
    LDM(bool, bool, bool, bool),
    POP,
    TBB,
    TBH,
    Other,
}

/// The operand forms that the next-pc predictor distinguishes, with
/// registers given by their number (0..=15); every other form is `Other`.
#[derive(Clone, Copy, Debug, PartialEq, Eq, Structural)]
pub enum ArgKind {
    Reg(u8),
    RegWBack(u8, bool),
    RegList(u16),
    RegDeref(u8),
    /// base, offset, add, writeback
    RegDerefPreindexOffset(u8, u16, bool, bool),
    /// base, offset, add, writeback
    RegDerefPostindexOffset(u8, u16, bool, bool),
    /// base, index, add, writeback
    RegDerefPreindexReg(u8, u8, bool, bool),
    Imm12(u16),
    Imm32(u32),
    BranchOffset(i32),
    BranchThumbOffset(i32),
    Nothing,
    Other,
}

/// A decoded instruction. `condition` is the ARM condition code number
/// (0 = EQ, ..., 14 = AL).
#[derive(Clone, Copy, Debug)]
pub struct DecodedInsn {
    pub condition: u8,
    pub opcode: OpKind,
    pub operands: [ArgKind; 4],
    pub thumb: bool,
    pub wide: bool,
}

impl ArgKind {
    /// Every register number in the operand is a register of the core (0..=15).
    pub open spec fn wf(self) -> bool {
        match self {
            ArgKind::Reg(r) => r < 16,
            ArgKind::RegWBack(r, _) => r < 16,
            ArgKind::RegDeref(r) => r < 16,
            ArgKind::RegDerefPreindexOffset(r, _, _, _) => r < 16,
            ArgKind::RegDerefPostindexOffset(r, _, _, _) => r < 16,
            ArgKind::RegDerefPreindexReg(b, i, _, _) => b < 16 && i < 16,
            _ => true,
        }
    }
}

impl DecodedInsn {
    /// The condition is one of the fifteen condition codes and every
    /// operand names core registers only.
    pub open spec fn wf(self) -> bool {
        &&& self.condition < 15
        &&& self.operands@[0].wf()
        &&& self.operands@[1].wf()
        &&& self.operands@[2].wf()
        &&& self.operands@[3].wf()
    }
}

/// What the yaxpeax ARMv7 decoder makes of the given bytes, in ARM or in
/// Thumb mode: the decoded instruction, or the number of the decoder's error.
pub uninterp spec fn arm_decode(bytes: Seq<u8>, thumb: bool) -> Result<DecodedInsn, u8>;

/// Decodes one instruction from `bytes` with `yaxpeax_arm`'s
/// `InstDecoder::decode` (`default_thumb()` in Thumb mode, `default()`
/// otherwise). The contract names the result `arm_decode` and states what
/// the conversion into the plain model guarantees: condition codes are the
/// fifteen variants of `ConditionCode` (numbered in declaration order),
/// registers come from `Reg::number`, which is documented to be below 16,
/// and error numbers are the seven variants of `DecodeError`.
#[verifier::external_body]
pub(crate) fn decode_instruction(bytes: [u8; 4], thumb: bool) -> (r: Result<DecodedInsn, u8>)
    ensures
        r == arm_decode(bytes@, thumb),
        r matches Ok(i) ==> i.wf(),
        r matches Err(e) ==> e < 7,
{
    let decoder = if thumb { yx::InstDecoder::default_thumb() } else { yx::InstDecoder::default() };
    match decoder.decode(&mut yaxpeax_arch::U8Reader::new(&bytes)) {
        Ok(i) => Ok(DecodedInsn {
            condition: i.condition as u8,
            opcode: OpKind::from_yaxpeax(i.opcode),
            operands: i.operands.map(ArgKind::from_yaxpeax),
            thumb: i.thumb,
            wide: i.wide,
        }),
        Err(e) => Err(e as u8),
    }
}

#[verifier::external_type_specification]
#[verifier::external_body]
pub struct ExYaxpeaxOpcode(yx::Opcode);

#[verifier::external_type_specification]
#[verifier::external_body]
pub struct ExYaxpeaxOperand(yx::Operand);

impl OpKind {
    /// Converts the branch opcodes of `yaxpeax_arm`, one arm per variant.
    #[verifier::external_body]
    fn from_yaxpeax(op: yx::Opcode) -> OpKind {
        match op {
            yx::Opcode::B => OpKind::B,
            yx::Opcode::BL => OpKind::BL,
            yx::Opcode::BLX => OpKind::BLX,
            yx::Opcode::BX => OpKind::BX,
            yx::Opcode::BXJ => OpKind::BXJ,
            yx::Opcode::CBZ => OpKind::CBZ,
            yx::Opcode::CBNZ => OpKind::CBNZ,
            yx::Opcode::TBB => OpKind::TBB,
            yx::Opcode::TBH => OpKind::TBH,
            other => OpKind::from_yaxpeax_data(other),
        }
    }

    /// Converts the first half of the data-processing opcodes, one arm per variant.
    #[verifier::external_body]
    fn from_yaxpeax_data(op: yx::Opcode) -> OpKind {
        match op {
            yx::Opcode::AND => OpKind::AND,
            yx::Opcode::EOR => OpKind::EOR,
            yx::Opcode::SUB => OpKind::SUB,
            yx::Opcode::RSB => OpKind::RSB,
            yx::Opcode::ADD => OpKind::ADD,
            yx::Opcode::ADC => OpKind::ADC,
            yx::Opcode::SBC => OpKind::SBC,
            yx::Opcode::RSC => OpKind::RSC,
            yx::Opcode::ORR => OpKind::ORR,
            other => OpKind::from_yaxpeax_move(other),
        }
    }

    /// Converts the second half of the data-processing opcodes, one arm per variant.
    #[verifier::external_body]
    fn from_yaxpeax_move(op: yx::Opcode) -> OpKind {
        match op {
            yx::Opcode::MOV => OpKind::MOV,
            yx::Opcode::BIC => OpKind::BIC,
            yx::Opcode::MVN => OpKind::MVN,
            yx::Opcode::LSL => OpKind::LSL,
            yx::Opcode::LSR => OpKind::LSR,
            yx::Opcode::ASR => OpKind::ASR,
            yx::Opcode::RRX => OpKind::RRX,
            yx::Opcode::ROR => OpKind::ROR,
            yx::Opcode::ADR => OpKind::ADR,
            other => OpKind::from_yaxpeax_load(other),
        }
    }

    /// Converts the load opcodes, one arm per variant; the rest become `Other`.
    #[verifier::external_body]
    fn from_yaxpeax_load(op: yx::Opcode) -> OpKind {
        match op {
            yx::Opcode::LDR => OpKind::LDR,
            yx::Opcode::LDRT => OpKind::LDRT,
            yx::Opcode::LDM(a, p, w, u) => OpKind::LDM(a, p, w, u),
            yx::Opcode::POP => OpKind::POP,
            _ => OpKind::Other,
        }
    }
}

impl ArgKind {
    /// Converts the register operand forms of `yaxpeax_arm`, one arm per
    /// variant, registers by `Reg::number`.
    #[verifier::external_body]
    fn from_yaxpeax(op: yx::Operand) -> ArgKind {
        match op {
            yx::Operand::Reg(r) => ArgKind::Reg(r.number()),
            yx::Operand::RegWBack(r, w) => ArgKind::RegWBack(r.number(), w),
            yx::Operand::RegList(l) => ArgKind::RegList(l),
            yx::Operand::RegDeref(r) => ArgKind::RegDeref(r.number()),
            other => ArgKind::from_yaxpeax_indexed(other),
        }
    }

    /// Converts the indexed memory operand forms, one arm per variant.
    #[verifier::external_body]
    fn from_yaxpeax_indexed(op: yx::Operand) -> ArgKind {
        match op {
            yx::Operand::RegDerefPreindexOffset(r, o, a, w) => ArgKind::RegDerefPreindexOffset(r.number(), o, a, w),
            yx::Operand::RegDerefPostindexOffset(r, o, a, w) => ArgKind::RegDerefPostindexOffset(r.number(), o, a, w),
            yx::Operand::RegDerefPreindexReg(b, i, a, w) => ArgKind::RegDerefPreindexReg(b.number(), i.number(), a, w),
            other => ArgKind::from_yaxpeax_imm(other),
        }
    }

    /// Converts the immediate and branch operand forms, one arm per variant;
    /// the rest become `Other`.
    #[verifier::external_body]
    fn from_yaxpeax_imm(op: yx::Operand) -> ArgKind {
        match op {
            yx::Operand::Imm12(v) => ArgKind::Imm12(v),
            yx::Operand::Imm32(v) => ArgKind::Imm32(v),
            yx::Operand::BranchOffset(o) => ArgKind::BranchOffset(o),
            yx::Operand::BranchThumbOffset(o) => ArgKind::BranchThumbOffset(o),
            yx::Operand::Nothing => ArgKind::Nothing,
            _ => ArgKind::Other,
        }
    }
}

} // verus!
