//! Prediction of the address of the next instruction that an ARMv7 core
//! executes, from its register file and the memory it runs from. Used to
//! place the temporary breakpoint of a single step.

use vstd::prelude::*;
use vstd::wrapping::u32_specs;
use crate::insn::{arm_decode, decode_instruction, ArgKind, DecodedInsn, OpKind};

verus! {

/// Errors of the decoder, in the order of `yaxpeax_arm`'s `DecodeError`.
#[derive(Clone, Copy, Debug, PartialEq, Eq, Structural)]
pub enum DecodeError {
    ExhaustedInput,
    InvalidOpcode,
    InvalidOperand,
    Incomplete,
    Nonconforming,
    Undefined,
    Unpredictable,
}

/// Why no next pc could be predicted.
#[derive(Clone, Copy, Debug, PartialEq, Eq, Structural)]
pub enum NextPcError {
    /// Reading the instruction, or a value that it loads into pc, failed.
    MemoryRead,
    /// The instruction at pc could not be decoded.
    DecodeError(DecodeError),
}

/// The decoder error with the given number (declaration order).
pub open spec fn decode_error_of(code: u8) -> DecodeError {
    if code == 0 {
        DecodeError::ExhaustedInput
    } else if code == 1 {
        DecodeError::InvalidOpcode
    } else if code == 2 {
        DecodeError::InvalidOperand
    } else if code == 3 {
        DecodeError::Incomplete
    } else if code == 4 {
        DecodeError::Nonconforming
    } else if code == 5 {
        DecodeError::Undefined
    } else {
        DecodeError::Unpredictable
    }
}

impl DecodeError {
    /// The decoder error with the given number.
    pub fn from_code(code: u8) -> (r: DecodeError)
        ensures
            r == decode_error_of(code),
    {
        if code == 0 {
            DecodeError::ExhaustedInput
        } else if code == 1 {
            DecodeError::InvalidOpcode
        } else if code == 2 {
            DecodeError::InvalidOperand
        } else if code == 3 {
            DecodeError::Incomplete
        } else if code == 4 {
            DecodeError::Nonconforming
        } else if code == 5 {
            DecodeError::Undefined
        } else {
            DecodeError::Unpredictable
        }
    }
}

/// The little-endian value of two bytes.
pub open spec fn le_u16(b: Seq<u8>) -> u16 {
    (b[0] + b[1] * 0x100) as u16
}

/// The little-endian value of four bytes.
pub open spec fn le_u32(b: Seq<u8>) -> u32 {
    (b[0] + b[1] * 0x100 + b[2] * 0x1_0000 + b[3] * 0x100_0000) as u32
}

/// Some fixed function of the reader, the address and the length, about
/// which nothing else is known.
pub closed spec fn unknown_read<T: ?Sized>(t: &T, addr: usize, len: nat) -> Option<Seq<u8>> {
    (choose|f: spec_fn(&T, usize, nat) -> Option<Seq<u8>>| #[trigger] is_read_fn(f))(t, addr, len)
}

/// Every function from a reader, an address and a length to bytes.
pub closed spec fn is_read_fn<T: ?Sized>(f: spec_fn(&T, usize, nat) -> Option<Seq<u8>>) -> bool {
    true
}

/// Read access to the memory of the debugged program.
pub trait MemReader {
    /// The `len` bytes at `addr`, or `None` where they cannot be read. An
    /// implementation that does not define it reads memory as some fixed
    /// function of the reader, the address and the length.
    open spec fn spec_read(&self, addr: usize, len: nat) -> Option<Seq<u8>> {
        unknown_read(self, addr, len)
    }

    /// Fills `buf` with the bytes at `addr`; `None` where they cannot be read.
    fn read(&self, addr: usize, buf: &mut [u8]) -> (r: Option<()>)
        ensures
            final(buf)@.len() == old(buf)@.len(),
            r is Some <==> self.spec_read(addr, old(buf)@.len() as nat) is Some,
            r is Some ==> self.spec_read(addr, old(buf)@.len() as nat) == Some(final(buf)@),
    ;

    /// The byte at `addr`.
    fn read_u8(&self, addr: u32) -> (r: Result<u8, NextPcError>)
        ensures
            r == (match self.spec_read(addr as usize, 1) {
                Some(b) => Ok(b[0]),
                None => Err(NextPcError::MemoryRead),
            }),
    {
        let mut bytes = [0u8; 1];
        match self.read(addr as usize, &mut bytes) {
            Some(_) => Ok(bytes[0]),
            None => Err(NextPcError::MemoryRead),
        }
    }

    /// The little-endian halfword at `addr`.
    fn read_u16(&self, addr: u32) -> (r: Result<u16, NextPcError>)
        ensures
            r == (match self.spec_read(addr as usize, 2) {
                Some(b) => Ok(le_u16(b)),
                None => Err(NextPcError::MemoryRead),
            }),
    {
        let mut bytes = [0u8; 2];
        match self.read(addr as usize, &mut bytes) {
            Some(_) => Ok(bytes[0] as u16 + bytes[1] as u16 * 0x100),
            None => Err(NextPcError::MemoryRead),
        }
    }

    /// The little-endian word at `addr`.
    fn read_u32(&self, addr: u32) -> (r: Result<u32, NextPcError>)
        ensures
            r == (match self.spec_read(addr as usize, 4) {
                Some(b) => Ok(le_u32(b)),
                None => Err(NextPcError::MemoryRead),
            }),
    {
        let mut bytes = [0u8; 4];
        match self.read(addr as usize, &mut bytes) {
            Some(_) => Ok(bytes[0] as u32 + bytes[1] as u32 * 0x100 + bytes[2] as u32 * 0x1_0000
                + bytes[3] as u32 * 0x100_0000),
            None => Err(NextPcError::MemoryRead),
        }
    }
}

/// What `read_u8` gives at `addr`.
pub open spec fn spec_read_u8<M: MemReader + ?Sized>(mem: &M, addr: u32) -> Result<u8, NextPcError> {
    match mem.spec_read(addr as usize, 1) {
        Some(b) => Ok(b[0]),
        None => Err(NextPcError::MemoryRead),
    }
}

/// What `read_u16` gives at `addr`.
pub open spec fn spec_read_u16<M: MemReader + ?Sized>(mem: &M, addr: u32) -> Result<u16, NextPcError> {
    match mem.spec_read(addr as usize, 2) {
        Some(b) => Ok(le_u16(b)),
        None => Err(NextPcError::MemoryRead),
    }
}

/// What `read_u32` gives at `addr`.
pub open spec fn spec_read_u32<M: MemReader + ?Sized>(mem: &M, addr: u32) -> Result<u32, NextPcError> {
    match mem.spec_read(addr as usize, 4) {
        Some(b) => Ok(le_u32(b)),
        None => Err(NextPcError::MemoryRead),
    }
}

/// The core registers of the stopped thread.
pub struct RegContext {
    pub r: [u32; 13],
    pub sp: u32,
    pub lr: u32,
    pub pc: u32,
    pub cpsr: u32,
}

impl Default for RegContext {
    fn default() -> (s: Self)
        ensures
            forall|i: int| 0 <= i < 13 ==> s.r@[i] == 0,
            s.sp == 0,
            s.lr == 0,
            s.pc == 0,
            s.cpsr == 0,
    {
        RegContext { r: [0u32; 13], sp: 0, lr: 0, pc: 0, cpsr: 0 }
    }
}

impl RegContext {
    /// The T bit (bit 5) of cpsr: the core runs Thumb code.
    pub open spec fn spec_thumb(self) -> bool {
        (self.cpsr >> 5u32) & 1 != 0
    }

    /// The value of core register `n` (13 = sp, 14 = lr, 15 = pc).
    pub open spec fn reg_value(self, n: u8) -> u32 {
        if n < 13 {
            self.r@[n as int]
        } else if n == 13 {
            self.sp
        } else if n == 14 {
            self.lr
        } else {
            self.pc
        }
    }

    /// The N, Z, C and V flags (bits 31, 30, 29, 28 of cpsr).
    pub open spec fn flags(self) -> (bool, bool, bool, bool) {
        (
            self.cpsr & 0x8000_0000 != 0,
            self.cpsr & 0x4000_0000 != 0,
            self.cpsr & 0x2000_0000 != 0,
            self.cpsr & 0x1000_0000 != 0,
        )
    }

    /// Whether the core runs Thumb code.
    pub fn thumb(&self) -> (t: bool)
        ensures
            t == self.spec_thumb(),
    {
        (self.cpsr >> 5) & 1 != 0
    }

    /// The value of core register `idx`.
    pub fn reg(&self, idx: u8) -> (v: u32)
        requires
            idx < 16,
        ensures
            v == self.reg_value(idx),
    {
        if idx < 13 {
            self.r[idx as usize]
        } else if idx == 13 {
            self.sp
        } else if idx == 14 {
            self.lr
        } else {
            self.pc
        }
    }

    /// The condition flags `(N, Z, C, V)`.
    pub fn cond_flags(&self) -> (f: (bool, bool, bool, bool))
        ensures
            f == self.flags(),
    {
        assert((1u32 << 31u32) == 0x8000_0000u32 && (1u32 << 30u32) == 0x4000_0000u32
            && (1u32 << 29u32) == 0x2000_0000u32 && (1u32 << 28u32) == 0x1000_0000u32) by (bit_vector);
        (
            (self.cpsr & (1 << 31)) != 0,
            (self.cpsr & (1 << 30)) != 0,
            (self.cpsr & (1 << 29)) != 0,
            (self.cpsr & (1 << 28)) != 0,
        )
    }
}

/// `a + b` modulo 2^32.
pub open spec fn wadd(a: u32, b: u32) -> u32 {
    u32_specs::wrapping_add(a, b)
}

/// `a - b` modulo 2^32.
pub open spec fn wsub(a: u32, b: u32) -> u32 {
    u32_specs::wrapping_sub(a, b)
}

/// Whether an instruction with condition code `cond` executes under the
/// flags `(n, z, c, v)`.
pub open spec fn cond_holds(cond: u8, flags: (bool, bool, bool, bool)) -> bool {
    let (n, z, c, v) = flags;
    if cond == 0 {
        z
    } else if cond == 1 {
        !z
    } else if cond == 2 {
        c
    } else if cond == 3 {
        !c
    } else if cond == 4 {
        n
    } else if cond == 5 {
        !n
    } else if cond == 6 {
        v
    } else if cond == 7 {
        !v
    } else if cond == 8 {
        c && !z
    } else if cond == 9 {
        !c || z
    } else if cond == 10 {
        n == v
    } else if cond == 11 {
        n != v
    } else if cond == 12 {
        !z && n == v
    } else if cond == 13 {
        z || n != v
    } else {
        true
    }
}

/// The target of a Thumb `b`/`bl` with `offset` in halfwords: relative to
/// pc + 4 when unconditional (AL), to pc - 4 otherwise.
pub open spec fn thumb_branch_target_of(condition: u8, offset: i32, pc: u32) -> u32 {
    let base = if condition == 14 { wadd(pc, 4) } else { wsub(pc, 4) };
    wadd(base, (offset * 2) as u32)
}

/// Operand 0 is the program counter.
pub open spec fn writes_pc(op: ArgKind) -> bool {
    op matches ArgKind::Reg(r) && r == 15
}

/// The operand is a value: a register or an immediate.
pub open spec fn is_value(op: ArgKind) -> bool {
    op is Reg || op is Imm12 || op is Imm32
}

/// The value of a register or immediate operand.
pub open spec fn operand_value(op: ArgKind, regs: RegContext) -> u32 {
    match op {
        ArgKind::Reg(r) => regs.reg_value(r),
        ArgKind::Imm12(v) => v as u32,
        ArgKind::Imm32(v) => v,
        _ => arbitrary(),
    }
}

/// The data-processing opcodes whose result can be written to pc.
pub open spec fn is_alu(op: OpKind) -> bool {
    ||| op is AND ||| op is EOR ||| op is SUB ||| op is RSB ||| op is ADD ||| op is ADC
    ||| op is SBC ||| op is RSC ||| op is ORR ||| op is MOV ||| op is BIC ||| op is MVN
    ||| op is LSL ||| op is LSR ||| op is ASR ||| op is RRX ||| op is ROR ||| op is ADR
}

/// The data-processing opcodes that take one source operand.
pub open spec fn is_unary_alu(op: OpKind) -> bool {
    op is MOV || op is ADR || op is MVN || op is RRX
}

/// `x` rotated right by `s` bits, for `1 <= s <= 31`.
pub open spec fn rotr(x: u32, s: u32) -> u32 {
    (x >> s) | (x << ((32 - s) as u32))
}

/// The result of data-processing opcode `op` on `first` and `second`, with
/// the carry flag `carry` (0 or 1). Shifts take the shift amount from the
/// low byte of `second`.
pub open spec fn alu_result(op: OpKind, first: u32, second: u32, carry: u32) -> u32 {
    let shift = second & 0xFF;
    match op {
        OpKind::MOV | OpKind::ADR => first,
        OpKind::MVN => !first,
        OpKind::RRX => (first >> 1u32) | (carry << 31u32),
        OpKind::ADD => wadd(first, second),
        OpKind::ADC => wadd(wadd(first, second), carry),
        OpKind::SUB => wsub(first, second),
        OpKind::RSB => wsub(second, first),
        OpKind::SBC => wsub(wsub(first, second), (1 - carry) as u32),
        OpKind::RSC => wsub(wsub(second, first), (1 - carry) as u32),
        OpKind::AND => first & second,
        OpKind::EOR => first ^ second,
        OpKind::ORR => first | second,
        OpKind::BIC => first & !second,
        OpKind::LSL => if shift == 0 { first } else if shift <= 31 { first << shift } else { 0 },
        OpKind::LSR => if shift == 0 { first } else if shift <= 31 { first >> shift } else { 0 },
        OpKind::ASR => if shift == 0 {
            first
        } else if shift <= 31 {
            ((first as i32) >> (shift as i32)) as u32
        } else if first & 0x8000_0000 != 0 {
            0xFFFF_FFFF
        } else {
            0
        },
        OpKind::ROR => if shift & 31 == 0 { first } else { rotr(first, shift & 31) },
        _ => arbitrary(),
    }
}

/// The address that a load of pc through memory operand `op` reads.
pub open spec fn load_address(op: ArgKind, regs: RegContext) -> u32 {
    match op {
        ArgKind::RegDeref(b) => regs.reg_value(b),
        ArgKind::RegDerefPreindexOffset(b, off, add, _) => if add {
            wadd(regs.reg_value(b), off as u32)
        } else {
            wsub(regs.reg_value(b), off as u32)
        },
        ArgKind::RegDerefPostindexOffset(b, _, _, _) => regs.reg_value(b),
        _ => arbitrary(),
    }
}

/// The memory operand forms that a load into pc is predicted through.
pub open spec fn is_load_operand(op: ArgKind) -> bool {
    op is RegDeref || op is RegDerefPreindexOffset || op is RegDerefPostindexOffset
}

/// Base and index register of a table branch, if its operands have one of
/// the two forms it is predicted for.
pub open spec fn table_registers(op0: ArgKind, op1: ArgKind) -> Option<(u8, u8)> {
    match (op0, op1) {
        (ArgKind::Reg(b), ArgKind::Reg(i)) => Some((b, i)),
        (ArgKind::RegDerefPreindexReg(b, i, _, _), ArgKind::Nothing) => Some((b, i)),
        _ => None,
    }
}

/// Base register and register list of a load-multiple (a `pop` without an
/// explicit base uses sp), if its operands have one of the forms it is
/// predicted for.
pub open spec fn ldm_registers(i: DecodedInsn) -> Option<(u8, u16)> {
    match (i.operands@[0], i.operands@[1]) {
        (ArgKind::Reg(b), ArgKind::RegList(l)) => Some((b, l)),
        (ArgKind::RegWBack(b, _), ArgKind::RegList(l)) => Some((b, l)),
        (_, ArgKind::RegList(l)) => if i.opcode is POP { Some((13u8, l)) } else { None },
        _ => None,
    }
}

/// The number of set bits among the low `n` bits of `x`.
pub open spec fn bits_below(x: u16, n: nat) -> nat
    decreases n,
{
    if n == 0 {
        0
    } else {
        bits_below(x, (n - 1) as nat) + (if (x >> ((n - 1) as u16)) & 1 == 1 { 1nat } else { 0nat })
    }
}

/// The number of set bits of `x`.
pub open spec fn popcount(x: u16) -> nat {
    bits_below(x, 16)
}

/// The address from which a load-multiple of the registers in `list` from
/// `base` loads pc: increment after (and pop), increment before, decrement
/// after, decrement before.
pub open spec fn ldm_pc_address(op: OpKind, base: u32, list: u16) -> u32 {
    let before = popcount(list & 0x7FFF);
    let total = popcount(list);
    match op {
        OpKind::LDM(true, false, _, _) | OpKind::POP => wadd(base, (before * 4) as u32),
        OpKind::LDM(true, true, _, _) => wadd(base, ((before + 1) * 4) as u32),
        OpKind::LDM(false, false, _, _) => wsub(base, ((total - 1 - before) * 4) as u32),
        OpKind::LDM(false, true, _, _) => wsub(base, ((total - before) * 4) as u32),
        _ => arbitrary(),
    }
}

/// An interworking jump to `v`: bit 0 selects Thumb, the address drops it.
pub open spec fn interwork(v: u32) -> (u32, bool) {
    (v & !1u32, v & 1 == 1)
}

/// The instruction that follows `i` when `i` sits at `addr`.
pub open spec fn fallthrough(i: DecodedInsn, addr: u32) -> (u32, bool) {
    (wadd(addr, if i.thumb && !i.wide { 2 } else { 4 }), i.thumb)
}

/// Whether the prediction for `i` is defined: the instruction does not
/// execute, or its operands have the forms that its opcode is predicted
/// for.
pub open spec fn step_defined(i: DecodedInsn, regs: RegContext) -> bool {
    let op0 = i.operands@[0];
    let op1 = i.operands@[1];
    ||| !cond_holds(i.condition, regs.flags())
    ||| match i.opcode {
        OpKind::B | OpKind::BL => match op0 {
            ArgKind::BranchOffset(o) => o >= i32::MIN + 2,
            ArgKind::BranchThumbOffset(_) => true,
            _ => false,
        },
        OpKind::BLX => op0 is BranchOffset || op0 is BranchThumbOffset || op0 is Reg,
        OpKind::BX | OpKind::BXJ => op0 is Reg,
        OpKind::CBZ | OpKind::CBNZ => op0 is Reg && op1 is Imm32,
        OpKind::LDR | OpKind::LDRT => writes_pc(op0) ==> is_load_operand(op1),
        OpKind::LDM(_, _, _, _) | OpKind::POP => ldm_registers(i) is Some,
        OpKind::TBB | OpKind::TBH => table_registers(op0, op1) is Some,
        _ => is_alu(i.opcode) && writes_pc(op0) ==> is_value(op1) && (is_unary_alu(i.opcode)
            || is_value(i.operands@[2])),
    }
}

/// The predicted next pc and Thumb state after instruction `i`, fetched
/// from `addr`, executes with registers `regs` and memory `mem`.
pub open spec fn spec_step<M: MemReader + ?Sized>(
    i: DecodedInsn,
    regs: RegContext,
    addr: u32,
    mem: &M,
) -> Result<(u32, bool), NextPcError> {
    let op0 = i.operands@[0];
    let op1 = i.operands@[1];
    if !cond_holds(i.condition, regs.flags()) {
        Ok(fallthrough(i, addr))
    } else {
        match i.opcode {
            OpKind::B | OpKind::BL => match op0 {
                ArgKind::BranchOffset(o) => Ok((wadd(regs.pc, ((o - 2) * 4) as u32), false)),
                ArgKind::BranchThumbOffset(o) => Ok(
                    (thumb_branch_target_of(i.condition, o, regs.pc), true),
                ),
                _ => arbitrary(),
            },
            OpKind::BLX => match op0 {
                ArgKind::BranchOffset(o) => Ok((wadd(regs.pc, (o * 4) as u32), true)),
                ArgKind::BranchThumbOffset(o) => Ok((wadd(regs.pc, (o * 2) as u32), false)),
                ArgKind::Reg(r) => Ok(interwork(regs.reg_value(r))),
                _ => arbitrary(),
            },
            OpKind::BX | OpKind::BXJ => match op0 {
                ArgKind::Reg(r) => Ok(interwork(regs.reg_value(r))),
                _ => arbitrary(),
            },
            OpKind::CBZ | OpKind::CBNZ => match (op0, op1) {
                (ArgKind::Reg(r), ArgKind::Imm32(imm)) => if (regs.reg_value(r) == 0) == (
                i.opcode is CBZ) {
                    Ok(interwork(imm))
                } else {
                    Ok(fallthrough(i, addr))
                },
                _ => arbitrary(),
            },
            OpKind::LDR | OpKind::LDRT => if writes_pc(op0) {
                match spec_read_u32(mem, load_address(op1, regs)) {
                    Ok(t) => Ok(interwork(t)),
                    Err(e) => Err(e),
                }
            } else {
                Ok(fallthrough(i, addr))
            },
            OpKind::LDM(_, _, _, _) | OpKind::POP => match ldm_registers(i) {
                Some((b, l)) => if l & 0x8000 == 0 {
                    Ok(fallthrough(i, addr))
                } else {
                    match spec_read_u32(mem, ldm_pc_address(i.opcode, regs.reg_value(b), l)) {
                        Ok(t) => Ok(interwork(t)),
                        Err(e) => Err(e),
                    }
                },
                None => arbitrary(),
            },
            OpKind::TBB => match table_registers(op0, op1) {
                Some((b, x)) => match spec_read_u8(
                    mem,
                    wadd(regs.reg_value(b), regs.reg_value(x)),
                ) {
                    Ok(off) => Ok((wadd(regs.pc, (off as u32) << 1u32), i.thumb)),
                    Err(e) => Err(e),
                },
                None => arbitrary(),
            },
            OpKind::TBH => match table_registers(op0, op1) {
                Some((b, x)) => match spec_read_u16(
                    mem,
                    wadd(regs.reg_value(b), regs.reg_value(x) << 2u32),
                ) {
                    Ok(off) => Ok((wadd(regs.pc, (off as u32) << 1u32), i.thumb)),
                    Err(e) => Err(e),
                },
                None => arbitrary(),
            },
            _ => if is_alu(i.opcode) && writes_pc(op0) {
                let carry: u32 = if regs.flags().2 { 1 } else { 0 };
                let second = if is_unary_alu(i.opcode) { 0 } else { operand_value(i.operands@[2], regs) };
                Ok((alu_result(i.opcode, operand_value(op1, regs), second, carry) & !3u32, i.thumb))
            } else {
                Ok(fallthrough(i, addr))
            },
        }
    }
}

/// Whether an instruction with condition code `cond` executes.
fn eval_cond(cond: u8, regs: &RegContext) -> (b: bool)
    requires
        cond < 15,
    ensures
        b == cond_holds(cond, regs.flags()),
{
    let (n, z, c, v) = regs.cond_flags();
    match cond {
        0 => z,
        1 => !z,
        2 => c,
        3 => !c,
        4 => n,
        5 => !n,
        6 => v,
        7 => !v,
        8 => c && !z,
        9 => !c || z,
        10 => n == v,
        11 => n != v,
        12 => !z && (n == v),
        13 => z || (n != v),
        _ => true,
    }
}

/// The target of a Thumb `b`/`bl`.
fn thumb_branch_target(condition: u8, offset: i32, regs: &RegContext) -> (t: u32)
    ensures
        t == thumb_branch_target_of(condition, offset, regs.pc),
{
    let base = if condition == 14 {
        regs.pc.wrapping_add(4)
    } else {
        regs.pc.wrapping_sub(4)
    };
    let disp = (offset << 1) as u32;
    assert(disp == (offset * 2) as u32) by (bit_vector)
        requires
            disp == (offset << 1) as u32,
    ;
    base.wrapping_add(disp)
}

/// Whether the operand is the program counter.
fn is_pc_destination(operand: ArgKind) -> (b: bool)
    ensures
        b == writes_pc(operand),
{
    match operand {
        ArgKind::Reg(r) => r == 15,
        _ => false,
    }
}

/// The value of a register or immediate operand.
fn value_of(operand: ArgKind, regs: &RegContext) -> (v: u32)
    requires
        is_value(operand),
        operand.wf(),
    ensures
        v == operand_value(operand, *regs),
{
    match operand {
        ArgKind::Reg(reg) => regs.reg(reg),
        ArgKind::Imm12(value) => value as u32,
        ArgKind::Imm32(value) => value,
        _ => 0,
    }
}

/// The value that data-processing instruction `opcode` writes to its
/// destination.
fn eval_alu(opcode: OpKind, operands: &[ArgKind; 4], regs: &RegContext) -> (v: u32)
    requires
        is_alu(opcode),
        is_value(operands@[1]),
        operands@[1].wf(),
        !is_unary_alu(opcode) ==> is_value(operands@[2]) && operands@[2].wf(),
    ensures
        v == alu_result(
            opcode,
            operand_value(operands@[1], *regs),
            if is_unary_alu(opcode) { 0 } else { operand_value(operands@[2], *regs) },
            if regs.flags().2 { 1 } else { 0 },
        ),
{
    let first = value_of(operands[1], regs);
    let (_, _, carry, _) = regs.cond_flags();
    let carry: u32 = if carry { 1 } else { 0 };

    match opcode {
        OpKind::MOV | OpKind::ADR => first,
        OpKind::MVN => !first,
        OpKind::RRX => (first >> 1) | (carry << 31),
        _ => {
            let second = value_of(operands[2], regs);
            let shift = second & 0xFF;
            match opcode {
                OpKind::ADD => first.wrapping_add(second),
                OpKind::ADC => first.wrapping_add(second).wrapping_add(carry),
                OpKind::SUB => first.wrapping_sub(second),
                OpKind::RSB => second.wrapping_sub(first),
                OpKind::SBC => first.wrapping_sub(second).wrapping_sub(1 - carry),
                OpKind::RSC => second.wrapping_sub(first).wrapping_sub(1 - carry),
                OpKind::AND => first & second,
                OpKind::EOR => first ^ second,
                OpKind::ORR => first | second,
                OpKind::BIC => first & !second,
                OpKind::LSL => if shift == 0 {
                    first
                } else if shift <= 31 {
                    first << shift
                } else {
                    0
                },
                OpKind::LSR => if shift == 0 {
                    first
                } else if shift <= 31 {
                    first >> shift
                } else {
                    0
                },
                OpKind::ASR => if shift == 0 {
                    first
                } else if shift <= 31 {
                    ((first as i32) >> shift) as u32
                } else if (first & (1 << 31)) != 0 {
                    assert((1u32 << 31u32) == 0x8000_0000u32) by (bit_vector);
                    0xFFFFFFFF
                } else {
                    assert((1u32 << 31u32) == 0x8000_0000u32) by (bit_vector);
                    0
                },
                OpKind::ROR => {
                    let s = shift & 31;
                    if s == 0 {
                        first
                    } else {
                        assert(s <= 31) by (bit_vector)
                            requires
                                s == shift & 31,
                        ;
                        (first >> s) | (first << (32 - s))
                    }
                },
                _ => 0,
            }
        },
    }
}

/// The address that a load of pc through memory operand `operand` reads.
fn effective_address(operand: ArgKind, regs: &RegContext) -> (a: u32)
    requires
        is_load_operand(operand),
        operand.wf(),
    ensures
        a == load_address(operand, *regs),
{
    match operand {
        ArgKind::RegDeref(base) => regs.reg(base),
        ArgKind::RegDerefPreindexOffset(base, offset, add, _) => {
            if add {
                regs.reg(base).wrapping_add(offset as u32)
            } else {
                regs.reg(base).wrapping_sub(offset as u32)
            }
        },
        ArgKind::RegDerefPostindexOffset(base, _, _, _) => regs.reg(base),
        _ => 0,
    }
}

/// The values of the base and index registers of a table branch.
fn table_branch_address(operands: &[ArgKind; 4], regs: &RegContext) -> (r: (u32, u32))
    requires
        table_registers(operands@[0], operands@[1]) is Some,
        operands@[0].wf(),
        operands@[1].wf(),
    ensures
        ({
            let (b, i) = table_registers(operands@[0], operands@[1])->0;
            r == (regs.reg_value(b), regs.reg_value(i))
        }),
{
    let (base, index) = match (operands[0], operands[1]) {
        (ArgKind::Reg(base), ArgKind::Reg(index)) => (base, index),
        (ArgKind::RegDerefPreindexReg(base, index, _, _), ArgKind::Nothing) => (base, index),
        _ => (0, 0),
    };
    let base_val = regs.reg(base);
    let index_val = regs.reg(index);
    (base_val, index_val)
}

/// `bits_below` never exceeds the number of bits counted.
proof fn lemma_bits_below_bound(x: u16, n: nat)
    ensures
        bits_below(x, n) <= n,
    decreases n,
{
    if n > 0 {
        lemma_bits_below_bound(x, (n - 1) as nat);
    }
}

/// Clearing bit 15 does not change the bits below it.
proof fn lemma_bits_below_masked(x: u16, n: nat)
    requires
        n <= 15,
    ensures
        bits_below(x & 0x7FFF, n) == bits_below(x, n),
    decreases n,
{
    if n > 0 {
        lemma_bits_below_masked(x, (n - 1) as nat);
        let k = (n - 1) as u16;
        assert(((x & 0x7FFF) >> k) & 1 == (x >> k) & 1) by (bit_vector)
            requires
                k < 15,
        ;
    }
}

/// With bit 15 set, a register list holds one more register than its low
/// fifteen bits.
proof fn lemma_popcount_pc(x: u16)
    requires
        x & 0x8000 != 0,
    ensures
        popcount(x) == popcount(x & 0x7FFF) + 1,
        popcount(x & 0x7FFF) <= 15,
{
    lemma_bits_below_masked(x, 15);
    lemma_bits_below_bound(x, 15);
    assert((x >> 15u16) & 1 == 1) by (bit_vector)
        requires
            x & 0x8000 != 0,
    ;
    assert(((x & 0x7FFF) >> 15u16) & 1 == 0) by (bit_vector);
}

/// The number of set bits of `x`.
fn count_ones(x: u16) -> (c: u32)
    ensures
        c == popcount(x),
{
    let mut c: u32 = 0;
    let mut i: u16 = 0;
    while i < 16
        invariant
            i <= 16,
            c == bits_below(x, i as nat),
            c <= i,
        decreases 16 - i,
    {
        proof {
            lemma_bits_below_bound(x, (i + 1) as nat);
        }
        if (x >> i) & 1 == 1 {
            c = c + 1;
        }
        i = i + 1;
    }
    c
}

/// The address from which a load-multiple of `list` (which holds pc) from
/// `base_addr` loads pc.
fn ldm_pc_addr(opcode: OpKind, base_addr: u32, list: u16) -> (a: u32)
    requires
        opcode is LDM || opcode is POP,
        list & 0x8000 != 0,
    ensures
        a == ldm_pc_address(opcode, base_addr, list),
{
    let before_pc = count_ones(list & 0x7FFF);
    let total_regs = count_ones(list);
    proof {
        lemma_popcount_pc(list);
    }
    match opcode {
        OpKind::LDM(true, false, _, _) | OpKind::POP => base_addr.wrapping_add(before_pc * 4),
        OpKind::LDM(true, true, _, _) => base_addr.wrapping_add((before_pc + 1) * 4),
        OpKind::LDM(false, false, _, _) => base_addr.wrapping_sub((total_regs - 1 - before_pc) * 4),
        OpKind::LDM(false, true, _, _) => base_addr.wrapping_sub((total_regs - before_pc) * 4),
        _ => 0,
    }
}

/// The address the instruction at pc was fetched from: pc reads 8 ahead of
/// the executing instruction in ARM state and 4 ahead in Thumb state.
pub open spec fn fetch_address(regs: RegContext) -> u32 {
    if regs.spec_thumb() {
        wsub(regs.pc, 4)
    } else {
        wsub(regs.pc, 8)
    }
}

/// The decoded instruction at the fetch address, or `None` where the four
/// bytes there cannot be read.
pub open spec fn fetched<M: MemReader + ?Sized>(regs: RegContext, mem: &M) -> Option<
    Result<DecodedInsn, u8>,
> {
    match mem.spec_read(fetch_address(regs) as usize, 4) {
        Some(bytes) => Some(arm_decode(bytes, regs.spec_thumb())),
        None => None,
    }
}

/// Whether the prediction is defined for this register file and memory:
/// the instruction cannot be read or decoded, or its prediction is defined.
pub open spec fn next_pc_defined<M: MemReader + ?Sized>(regs: RegContext, mem: &M) -> bool {
    match fetched(regs, mem) {
        Some(Ok(i)) => step_defined(i, regs),
        _ => true,
    }
}

/// The predicted address and Thumb state of the next instruction.
pub open spec fn spec_next_pc<M: MemReader + ?Sized>(regs: RegContext, mem: &M) -> Result<
    (u32, bool),
    NextPcError,
> {
    match fetched(regs, mem) {
        None => Err(NextPcError::MemoryRead),
        Some(Err(e)) => Err(NextPcError::DecodeError(decode_error_of(e))),
        Some(Ok(i)) => spec_step(i, regs, fetch_address(regs), mem),
    }
}

/// The address and Thumb state of the instruction that runs after the
/// decoded instruction `insn`, fetched from `addr`, executes.
pub fn next_pc_of<Mem: MemReader>(
    insn: &DecodedInsn,
    regs: &RegContext,
    addr: u32,
    mem: &Mem,
) -> (r: Result<(u32, bool), NextPcError>)
    requires
        insn.wf(),
        step_defined(*insn, *regs),
    ensures
        r == spec_step(*insn, *regs, addr, mem),
{
    let fallthrough = (addr.wrapping_add(if insn.thumb && !insn.wide { 2 } else { 4 }), insn.thumb);

    if !eval_cond(insn.condition, regs) {
        return Ok(fallthrough);
    }
    match insn.opcode {
        OpKind::B | OpKind::BL => match insn.operands[0] {
            ArgKind::BranchOffset(offset) => {
                let disp = ((offset - 2) << 2) as u32;
                assert(disp == ((offset - 2) * 4) as u32) by (bit_vector)
                    requires
                        disp == (((offset - 2) as i32) << 2) as u32,
                        offset >= i32::MIN + 2,
                ;
                Ok((regs.pc.wrapping_add(disp), false))
            },
            ArgKind::BranchThumbOffset(offset) => {
                Ok((thumb_branch_target(insn.condition, offset, regs), true))
            },
            _ => Ok(fallthrough),
        },
        OpKind::BLX => match insn.operands[0] {
            ArgKind::BranchOffset(offset) => {
                let disp = (offset << 2) as u32;
                assert(disp == (offset * 4) as u32) by (bit_vector)
                    requires
                        disp == (offset << 2) as u32,
                ;
                Ok((regs.pc.wrapping_add(disp), true))
            },
            ArgKind::BranchThumbOffset(offset) => {
                let disp = (offset << 1) as u32;
                assert(disp == (offset * 2) as u32) by (bit_vector)
                    requires
                        disp == (offset << 1) as u32,
                ;
                Ok((regs.pc.wrapping_add(disp), false))
            },
            ArgKind::Reg(reg) => {
                let value = regs.reg(reg);
                Ok((value & !1, value & 1 == 1))
            },
            _ => Ok(fallthrough),
        },
        OpKind::BX | OpKind::BXJ => match insn.operands[0] {
            ArgKind::Reg(reg) => {
                let value = regs.reg(reg);
                Ok((value & !1, value & 1 == 1))
            },
            _ => Ok(fallthrough),
        },
        OpKind::CBZ => match (insn.operands[0], insn.operands[1]) {
            (ArgKind::Reg(reg), ArgKind::Imm32(imm)) => {
                if regs.reg(reg) == 0 {
                    return Ok((imm & !1, imm & 1 == 1));
                }
                Ok(fallthrough)
            },
            _ => Ok(fallthrough),
        },
        OpKind::CBNZ => match (insn.operands[0], insn.operands[1]) {
            (ArgKind::Reg(reg), ArgKind::Imm32(imm)) => {
                if regs.reg(reg) != 0 {
                    return Ok((imm & !1, imm & 1 == 1));
                }
                Ok(fallthrough)
            },
            _ => Ok(fallthrough),
        },
        OpKind::LDR | OpKind::LDRT => {
            if is_pc_destination(insn.operands[0]) {
                let address = effective_address(insn.operands[1], regs);
                let target = mem.read_u32(address)?;
                return Ok((target & !1, target & 1 == 1));
            }
            Ok(fallthrough)
        },
        OpKind::LDM(_, _, _, _) | OpKind::POP => {
            let (base_reg, list) = match (insn.operands[0], insn.operands[1]) {
                (ArgKind::Reg(b), ArgKind::RegList(l)) => (b, l),
                (ArgKind::RegWBack(b, _), ArgKind::RegList(l)) => (b, l),
                (_, ArgKind::RegList(l)) => (13u8, l),
                _ => (0u8, 0u16),
            };
            if (list & (1 << 15)) == 0 {
                assert((1u16 << 15u16) == 0x8000u16) by (bit_vector);
                return Ok(fallthrough);
            }
            assert((1u16 << 15u16) == 0x8000u16) by (bit_vector);
            let base_addr = regs.reg(base_reg);
            let pc_addr = ldm_pc_addr(insn.opcode, base_addr, list);
            let target = mem.read_u32(pc_addr)?;
            Ok((target & !1, (target & 1) == 1))
        },
        OpKind::TBB => {
            let (base_val, index_val) = table_branch_address(&insn.operands, regs);
            let address = base_val.wrapping_add(index_val);
            let offset = mem.read_u8(address)? as u32;
            Ok((regs.pc.wrapping_add(offset << 1), insn.thumb))
        },
        OpKind::TBH => {
            let (base_val, index_val) = table_branch_address(&insn.operands, regs);
            let address = base_val.wrapping_add(index_val << 2);
            let offset = mem.read_u16(address)? as u32;
            Ok((regs.pc.wrapping_add(offset << 1), insn.thumb))
        },
        OpKind::AND
        | OpKind::EOR
        | OpKind::SUB
        | OpKind::RSB
        | OpKind::ADD
        | OpKind::ADC
        | OpKind::SBC
        | OpKind::RSC
        | OpKind::ORR
        | OpKind::MOV
        | OpKind::BIC
        | OpKind::MVN
        | OpKind::LSL
        | OpKind::LSR
        | OpKind::ASR
        | OpKind::RRX
        | OpKind::ROR
        | OpKind::ADR => {
            if is_pc_destination(insn.operands[0]) {
                let target = eval_alu(insn.opcode, &insn.operands, regs);
                return Ok((target & !3, insn.thumb));
            }
            Ok(fallthrough)
        },
        _ => Ok(fallthrough),
    }
}

/// Fetches the four bytes at the address the current instruction was read
/// from and decodes them.
fn fetch<Mem: MemReader>(regs: &RegContext, mem: &Mem) -> (r: (u32, Option<Result<DecodedInsn, u8>>))
    ensures
        r.0 == fetch_address(*regs),
        r.1 == fetched(*regs, mem),
        r.1 matches Some(Ok(i)) ==> i.wf(),
        r.1 matches Some(Err(e)) ==> e < 7,
{
    let addr = if regs.thumb() {
        regs.pc.wrapping_sub(4)
    } else {
        regs.pc.wrapping_sub(8)
    };
    let mut bytes = [0u8; 4];
    if mem.read(addr as usize, &mut bytes).is_none() {
        return (addr, None);
    }
    (addr, Some(decode_instruction(bytes, regs.thumb())))
}

/// The address and Thumb state of the instruction that the thread with
/// registers `regs` runs next: the instruction at pc (which reads 8 ahead
/// in ARM state, 4 in Thumb state) is read from `mem`, decoded, and its
/// effect on pc predicted. Branches, interworking jumps, compare-and-branch,
/// data-processing and loads that write pc, load-multiples and pops that
/// load pc and table branches are followed; anything else, and any
/// instruction whose condition fails, falls through.
pub fn next_pc<Mem: MemReader>(regs: &RegContext, mem: &Mem) -> (r: Result<(u32, bool), NextPcError>)
    requires
        next_pc_defined(*regs, mem),
    ensures
        r == spec_next_pc(*regs, mem),
{
    let (addr, fetched) = fetch(regs, mem);
    match fetched {
        None => Err(NextPcError::MemoryRead),
        Some(Err(code)) => Err(NextPcError::DecodeError(DecodeError::from_code(code))),
        Some(Ok(insn)) => next_pc_of(&insn, regs, addr, mem),
    }
}

/// Whether the prediction for `insn` is defined (see `step_defined`).
pub fn is_step_defined(insn: &DecodedInsn, regs: &RegContext) -> (b: bool)
    requires
        insn.wf(),
    ensures
        b == step_defined(*insn, *regs),
{
    if !eval_cond(insn.condition, regs) {
        return true;
    }
    let op0 = insn.operands[0];
    let op1 = insn.operands[1];
    let op2 = insn.operands[2];
    match insn.opcode {
        OpKind::B | OpKind::BL => match op0 {
            ArgKind::BranchOffset(o) => o >= i32::MIN + 2,
            ArgKind::BranchThumbOffset(_) => true,
            _ => false,
        },
        OpKind::BLX => match op0 {
            ArgKind::BranchOffset(_) | ArgKind::BranchThumbOffset(_) | ArgKind::Reg(_) => true,
            _ => false,
        },
        OpKind::BX | OpKind::BXJ => match op0 {
            ArgKind::Reg(_) => true,
            _ => false,
        },
        OpKind::CBZ | OpKind::CBNZ => match (op0, op1) {
            (ArgKind::Reg(_), ArgKind::Imm32(_)) => true,
            _ => false,
        },
        OpKind::LDR | OpKind::LDRT => {
            !is_pc_destination(op0) || match op1 {
                ArgKind::RegDeref(_)
                | ArgKind::RegDerefPreindexOffset(_, _, _, _)
                | ArgKind::RegDerefPostindexOffset(_, _, _, _) => true,
                _ => false,
            }
        },
        OpKind::LDM(_, _, _, _) | OpKind::POP => match (op0, op1) {
            (ArgKind::Reg(_), ArgKind::RegList(_)) => true,
            (ArgKind::RegWBack(_, _), ArgKind::RegList(_)) => true,
            (_, ArgKind::RegList(_)) => match insn.opcode {
                OpKind::POP => true,
                _ => false,
            },
            _ => false,
        },
        OpKind::TBB | OpKind::TBH => match (op0, op1) {
            (ArgKind::Reg(_), ArgKind::Reg(_)) => true,
            (ArgKind::RegDerefPreindexReg(_, _, _, _), ArgKind::Nothing) => true,
            _ => false,
        },
        OpKind::Other => true,
        _ => {
            let unary = match insn.opcode {
                OpKind::MOV | OpKind::ADR | OpKind::MVN | OpKind::RRX => true,
                _ => false,
            };
            !is_pc_destination(op0) || (is_value_operand(op1) && (unary || is_value_operand(op2)))
        },
    }
}

/// Whether the operand is a register or an immediate.
fn is_value_operand(op: ArgKind) -> (b: bool)
    ensures
        b == is_value(op),
{
    match op {
        ArgKind::Reg(_) | ArgKind::Imm12(_) | ArgKind::Imm32(_) => true,
        _ => false,
    }
}

/// `next_pc` where its prediction is defined, `None` where it is not (an
/// executing instruction whose operands have a form that its opcode is not
/// predicted for).
pub fn try_next_pc<Mem: MemReader>(regs: &RegContext, mem: &Mem) -> (r: Option<
    Result<(u32, bool), NextPcError>,
>)
    ensures
        r is None <==> !next_pc_defined(*regs, mem),
        r matches Some(v) ==> v == spec_next_pc(*regs, mem),
{
    let (_, fetched) = fetch(regs, mem);
    if let Some(Ok(insn)) = fetched {
        if !is_step_defined(&insn, regs) {
            return None;
        }
    }
    Some(next_pc(regs, mem))
}

/// An instruction whose condition fails does not execute: whatever it is,
/// the prediction is the instruction that follows it.
pub proof fn law_untaken_condition_falls_through<M: MemReader + ?Sized>(
    i: DecodedInsn,
    regs: RegContext,
    addr: u32,
    mem: &M,
)
    requires
        !cond_holds(i.condition, regs.flags()),
    ensures
        step_defined(i, regs),
        spec_step(i, regs, addr, mem) == Ok::<(u32, bool), NextPcError>(fallthrough(i, addr)),
{
}

/// The always condition (14) holds whatever the flags.
pub proof fn law_always_condition_holds(flags: (bool, bool, bool, bool))
    ensures
        cond_holds(14, flags),
{
}

/// `a + b` wraps modulo 2^32.
proof fn lemma_wadd_mod(a: u32, b: u32)
    ensures
        wadd(a, b) as int == (a as int + b as int) % 0x1_0000_0000,
{
}

/// Doubling a table entry by a shift is multiplying it by two.
proof fn lemma_shl1_doubles(v: u32)
    requires
        v < 0x1_0000,
    ensures
        v << 1u32 == 2 * v,
{
    assert(v < 0x1_0000 ==> v << 1u32 == 2 * v) by (bit_vector);
}

/// The predictor numbers core registers as the architecture does: 0-12
/// are r0-r12, 13 is sp, 14 is lr and 15 is pc.
pub proof fn law_register_numbering(regs: RegContext, n: u8)
    requires
        n < 16,
    ensures
        n < 13 ==> regs.reg_value(n) == regs.r@[n as int],
        n == 13 ==> regs.reg_value(n) == regs.sp,
        n == 14 ==> regs.reg_value(n) == regs.lr,
        n == 15 ==> regs.reg_value(n) == regs.pc,
{
}

/// An executing TBB jumps forward from pc by twice the table byte it
/// reads at base + index (modulo 2^32), staying in the current state.
pub proof fn law_tbb_jumps_twice_the_table_byte<M: MemReader + ?Sized>(
    i: DecodedInsn,
    regs: RegContext,
    addr: u32,
    mem: &M,
    base: u8,
    index: u8,
    entry: u8,
)
    requires
        i.opcode == OpKind::TBB,
        cond_holds(i.condition, regs.flags()),
        table_registers(i.operands@[0], i.operands@[1]) == Some((base, index)),
        spec_read_u8(
            mem,
            ((regs.reg_value(base) as int + regs.reg_value(index) as int) % 0x1_0000_0000) as u32,
        ) == Ok::<u8, NextPcError>(entry),
    ensures
        spec_step(i, regs, addr, mem) == Ok::<(u32, bool), NextPcError>(
            (((regs.pc as int + 2 * entry as int) % 0x1_0000_0000) as u32, i.thumb),
        ),
{
    lemma_wadd_mod(regs.reg_value(base), regs.reg_value(index));
    lemma_shl1_doubles(entry as u32);
    lemma_wadd_mod(regs.pc, (entry as u32) << 1u32);
}

/// An executing TBH jumps forward from pc by twice the table halfword it
/// reads at base + 4 * index (modulo 2^32), staying in the current state.
pub proof fn law_tbh_jumps_twice_the_table_halfword<M: MemReader + ?Sized>(
    i: DecodedInsn,
    regs: RegContext,
    addr: u32,
    mem: &M,
    base: u8,
    index: u8,
    entry: u16,
)
    requires
        i.opcode == OpKind::TBH,
        cond_holds(i.condition, regs.flags()),
        table_registers(i.operands@[0], i.operands@[1]) == Some((base, index)),
        spec_read_u16(
            mem,
            ((regs.reg_value(base) as int + 4 * regs.reg_value(index) as int) % 0x1_0000_0000) as u32,
        ) == Ok::<u16, NextPcError>(entry),
    ensures
        spec_step(i, regs, addr, mem) == Ok::<(u32, bool), NextPcError>(
            (((regs.pc as int + 2 * entry as int) % 0x1_0000_0000) as u32, i.thumb),
        ),
{
    let x = regs.reg_value(index);
    assert(x << 2u32 == ((4 * x as int) % 0x1_0000_0000) as u32) by (bit_vector);
    lemma_wadd_mod(regs.reg_value(base), x << 2u32);
    assert(((regs.reg_value(base) as int + ((4 * x as int) % 0x1_0000_0000)) % 0x1_0000_0000)
        == ((regs.reg_value(base) as int + 4 * x as int) % 0x1_0000_0000)) by (nonlinear_arith);
    lemma_shl1_doubles(entry as u32);
    lemma_wadd_mod(regs.pc, (entry as u32) << 1u32);
}

/// An executing load into pc reads the word at the address its memory
/// operand names and jumps there, bit 0 selecting Thumb state: at the base
/// register for `[rn]` and for a post-indexed `[rn], #off` (the offset only
/// updates the base afterwards), at base plus or minus the offset for a
/// pre-indexed `[rn, #off]`.
pub proof fn law_load_into_pc_reads_the_addressed_word<M: MemReader + ?Sized>(
    i: DecodedInsn,
    regs: RegContext,
    addr: u32,
    mem: &M,
    word: u32,
)
    requires
        i.opcode == OpKind::LDR || i.opcode == OpKind::LDRT,
        cond_holds(i.condition, regs.flags()),
        i.operands@[0] == ArgKind::Reg(15),
        match i.operands@[1] {
            ArgKind::RegDeref(b) => spec_read_u32(mem, regs.reg_value(b)) == Ok::<u32, NextPcError>(word),
            ArgKind::RegDerefPostindexOffset(b, _, _, _) => spec_read_u32(mem, regs.reg_value(b))
                == Ok::<u32, NextPcError>(word),
            ArgKind::RegDerefPreindexOffset(b, off, add, _) => spec_read_u32(
                mem,
                (if add {
                    (regs.reg_value(b) as int + off as int) % 0x1_0000_0000
                } else {
                    (regs.reg_value(b) as int - off as int) % 0x1_0000_0000
                }) as u32,
            ) == Ok::<u32, NextPcError>(word),
            _ => false,
        },
    ensures
        spec_step(i, regs, addr, mem) == Ok::<(u32, bool), NextPcError>(
            ((word - word % 2) as u32, word % 2 == 1),
        ),
{
    assert(word & !1u32 == (word - word % 2) as u32 && ((word & 1 == 1) == (word % 2 == 1))) by (bit_vector);
    match i.operands@[1] {
        ArgKind::RegDerefPreindexOffset(b, off, add, _) => {
            lemma_wadd_mod(regs.reg_value(b), off as u32);
        },
        _ => {},
    }
}

} // verus!
