//! The ARMv7 register file as the GDB remote protocol sees it: register
//! numbering and the byte encoding of the whole file (core registers,
//! cpsr, the VFP/NEON D registers and fpscr, all little-endian).

use vstd::prelude::*;
use crate::next_pc::le_u32;

verus! {

/// 32-bit ARM core register identifier.
#[derive(Debug, Clone, Copy, PartialEq, Eq, Structural)]
pub enum Armv7RegId {
    /// General purpose registers (R0-R12)
    Gpr(u8),
    /// Stack Pointer (R13)
    Sp,
    /// Link Register (R14)
    Lr,
    /// Program Counter (R15)
    Pc,
    /// Current Program Status Register (cpsr)
    Cpsr,
    /// VFP/NEON D registers (D0-D31).
    Dpr(u8),
    /// Floating Point Status and Control Register.
    Fpscr,
}

/// The register with GDB register number `id`, and its size in bytes.
pub open spec fn spec_reg_id(id: usize) -> Option<(Armv7RegId, usize)> {
    if id <= 12 {
        Some((Armv7RegId::Gpr(id as u8), 4))
    } else if id == 13 {
        Some((Armv7RegId::Sp, 4))
    } else if id == 14 {
        Some((Armv7RegId::Lr, 4))
    } else if id == 15 {
        Some((Armv7RegId::Pc, 4))
    } else if id == 16 {
        Some((Armv7RegId::Cpsr, 4))
    } else if 17 <= id <= 48 {
        Some((Armv7RegId::Dpr((id - 17) as u8), 8))
    } else if id == 49 {
        Some((Armv7RegId::Fpscr, 4))
    } else {
        None
    }
}

impl Armv7RegId {
    /// The register with GDB register number `id` (0-12 r0-r12, 13 sp,
    /// 14 lr, 15 pc, 16 cpsr, 17-48 d0-d31, 49 fpscr) and its size in
    /// bytes; `None` for any other number.
    pub fn from_raw_id(id: usize) -> (r: Option<(Armv7RegId, usize)>)
        ensures
            r == spec_reg_id(id),
    {
        let reg = if id <= 12 {
            Armv7RegId::Gpr(id as u8)
        } else if id == 13 {
            Armv7RegId::Sp
        } else if id == 14 {
            Armv7RegId::Lr
        } else if id == 15 {
            Armv7RegId::Pc
        } else if id == 16 {
            Armv7RegId::Cpsr
        } else if id <= 48 {
            Armv7RegId::Dpr((id - 17) as u8)
        } else if id == 49 {
            Armv7RegId::Fpscr
        } else {
            return None;
        };
        let size = match reg {
            Armv7RegId::Dpr(_) => 8,
            _ => 4,
        };
        Some((reg, size))
    }
}

/// The register file of a thread.
#[derive(Debug, Clone, PartialEq, Eq)]
pub struct Armv7Regs {
    /// General purpose registers (R0-R12)
    pub r: [u32; 13],
    /// Stack Pointer (R13)
    pub sp: u32,
    /// Link Register (R14)
    pub lr: u32,
    /// Program Counter (R15)
    pub pc: u32,
    /// Current Program Status Register (cpsr)
    pub cpsr: u32,
    /// VFPv3 / NEON D0-D31
    pub d: [u64; 32],
    /// Floating Point Status and Control Register.
    pub fpscr: u32,
}

impl Default for Armv7Regs {
    fn default() -> (s: Self)
        ensures
            forall|i: int| 0 <= i < 13 ==> s.r@[i] == 0,
            forall|i: int| 0 <= i < 32 ==> s.d@[i] == 0,
            s.sp == 0,
            s.lr == 0,
            s.pc == 0,
            s.cpsr == 0,
            s.fpscr == 0,
    {
        Armv7Regs { r: [0u32; 13], sp: 0, lr: 0, pc: 0, cpsr: 0, d: [0u64; 32], fpscr: 0 }
    }
}

/// Number of bytes of the GDB encoding of the register file: 17 core
/// words, 32 doublewords and fpscr.
pub const GDB_REGS_LEN: usize = 328;

/// Byte `j` (0 = least significant) of `v`.
pub open spec fn byte_of_u32(v: u32, j: int) -> u8 {
    if j == 0 {
        (v & 0xff) as u8
    } else if j == 1 {
        ((v >> 8u32) & 0xff) as u8
    } else if j == 2 {
        ((v >> 16u32) & 0xff) as u8
    } else {
        ((v >> 24u32) & 0xff) as u8
    }
}

/// Byte `j` (0 = least significant) of `v`.
pub open spec fn byte_of_u64(v: u64, j: int) -> u8 {
    if j == 0 {
        (v & 0xff) as u8
    } else if j == 1 {
        ((v >> 8u64) & 0xff) as u8
    } else if j == 2 {
        ((v >> 16u64) & 0xff) as u8
    } else if j == 3 {
        ((v >> 24u64) & 0xff) as u8
    } else if j == 4 {
        ((v >> 32u64) & 0xff) as u8
    } else if j == 5 {
        ((v >> 40u64) & 0xff) as u8
    } else if j == 6 {
        ((v >> 48u64) & 0xff) as u8
    } else {
        ((v >> 56u64) & 0xff) as u8
    }
}

/// The little-endian value of the eight bytes at the start of `b`.
pub open spec fn le_u64(b: Seq<u8>) -> u64 {
    (b[0] + b[1] * 0x100 + b[2] * 0x1_0000 + b[3] * 0x100_0000 + b[4] * 0x1_0000_0000 + b[5]
        * 0x100_0000_0000 + b[6] * 0x1_0000_0000_0000 + b[7] * 0x100_0000_0000_0000) as u64
}

impl Armv7Regs {
    /// Core register `n` in GDB order: r0-r12, sp, lr, pc, cpsr.
    pub open spec fn core_reg(self, n: int) -> u32 {
        if n < 13 {
            self.r@[n]
        } else if n == 13 {
            self.sp
        } else if n == 14 {
            self.lr
        } else if n == 15 {
            self.pc
        } else {
            self.cpsr
        }
    }

    /// Byte `k` of the GDB encoding: the 17 core words, then d0-d31, then
    /// fpscr, each little-endian.
    pub open spec fn gdb_byte(self, k: int) -> u8 {
        if k < 68 {
            byte_of_u32(self.core_reg(k / 4), k % 4)
        } else if k < 324 {
            byte_of_u64(self.d@[(k - 68) / 8], (k - 68) % 8)
        } else {
            byte_of_u32(self.fpscr, k - 324)
        }
    }

    /// The GDB encoding of the register file.
    pub open spec fn gdb_bytes(self) -> Seq<u8> {
        Seq::new(GDB_REGS_LEN as nat, |k: int| self.gdb_byte(k))
    }

    /// The program counter.
    pub fn pc(&self) -> (pc: u32)
        ensures
            pc == self.pc,
    {
        self.pc
    }
}

/// The bytes of a word give the word back.
pub proof fn lemma_u32_bytes_value(v: u32)
    ensures
        le_u32(seq![byte_of_u32(v, 0), byte_of_u32(v, 1), byte_of_u32(v, 2), byte_of_u32(v, 3)]) == v,
{
    let b0 = (v & 0xff) as u8;
    let b1 = ((v >> 8u32) & 0xff) as u8;
    let b2 = ((v >> 16u32) & 0xff) as u8;
    let b3 = ((v >> 24u32) & 0xff) as u8;
    assert(v == (b0 + b1 * 0x100 + b2 * 0x1_0000 + b3 * 0x100_0000) as u32) by (bit_vector)
        requires
            b0 == (v & 0xff) as u8,
            b1 == ((v >> 8u32) & 0xff) as u8,
            b2 == ((v >> 16u32) & 0xff) as u8,
            b3 == ((v >> 24u32) & 0xff) as u8,
    ;
}

/// The word of four bytes has those bytes.
pub proof fn lemma_value_u32_bytes(b: Seq<u8>)
    requires
        b.len() >= 4,
    ensures
        forall|j: int| 0 <= j < 4 ==> #[trigger] byte_of_u32(le_u32(b), j) == b[j],
{
    let b0 = b[0];
    let b1 = b[1];
    let b2 = b[2];
    let b3 = b[3];
    let v = le_u32(b);
    assert((v & 0xff) as u8 == b0 && ((v >> 8u32) & 0xff) as u8 == b1 && ((v >> 16u32) & 0xff) as u8
        == b2 && ((v >> 24u32) & 0xff) as u8 == b3) by (bit_vector)
        requires
            v == (b0 + b1 * 0x100 + b2 * 0x1_0000 + b3 * 0x100_0000) as u32,
    ;
}

/// The bytes of a doubleword give the doubleword back.
pub proof fn lemma_u64_bytes_value(v: u64)
    ensures
        le_u64(
            seq![
                byte_of_u64(v, 0),
                byte_of_u64(v, 1),
                byte_of_u64(v, 2),
                byte_of_u64(v, 3),
                byte_of_u64(v, 4),
                byte_of_u64(v, 5),
                byte_of_u64(v, 6),
                byte_of_u64(v, 7),
            ],
        ) == v,
{
    let b0 = (v & 0xff) as u8;
    let b1 = ((v >> 8u64) & 0xff) as u8;
    let b2 = ((v >> 16u64) & 0xff) as u8;
    let b3 = ((v >> 24u64) & 0xff) as u8;
    let b4 = ((v >> 32u64) & 0xff) as u8;
    let b5 = ((v >> 40u64) & 0xff) as u8;
    let b6 = ((v >> 48u64) & 0xff) as u8;
    let b7 = ((v >> 56u64) & 0xff) as u8;
    assert(v == (b0 + b1 * 0x100 + b2 * 0x1_0000 + b3 * 0x100_0000 + b4 * 0x1_0000_0000 + b5
        * 0x100_0000_0000 + b6 * 0x1_0000_0000_0000 + b7 * 0x100_0000_0000_0000) as u64) by (bit_vector)
        requires
            b0 == (v & 0xff) as u8,
            b1 == ((v >> 8u64) & 0xff) as u8,
            b2 == ((v >> 16u64) & 0xff) as u8,
            b3 == ((v >> 24u64) & 0xff) as u8,
            b4 == ((v >> 32u64) & 0xff) as u8,
            b5 == ((v >> 40u64) & 0xff) as u8,
            b6 == ((v >> 48u64) & 0xff) as u8,
            b7 == ((v >> 56u64) & 0xff) as u8,
    ;
}

/// The doubleword of eight bytes has those bytes.
pub proof fn lemma_value_u64_bytes(b: Seq<u8>)
    requires
        b.len() >= 8,
    ensures
        forall|j: int| 0 <= j < 8 ==> #[trigger] byte_of_u64(le_u64(b), j) == b[j],
{
    let b0 = b[0];
    let b1 = b[1];
    let b2 = b[2];
    let b3 = b[3];
    let b4 = b[4];
    let b5 = b[5];
    let b6 = b[6];
    let b7 = b[7];
    let v = le_u64(b);
    assert(v == (b0 + b1 * 0x100 + b2 * 0x1_0000 + b3 * 0x100_0000 + b4 * 0x1_0000_0000 + b5
        * 0x100_0000_0000 + b6 * 0x1_0000_0000_0000 + b7 * 0x100_0000_0000_0000) as u64);
    assert((v & 0xff) as u8 == b0 && ((v >> 8u64) & 0xff) as u8 == b1 && ((v >> 16u64) & 0xff) as u8
        == b2 && ((v >> 24u64) & 0xff) as u8 == b3 && ((v >> 32u64) & 0xff) as u8 == b4 && ((v
        >> 40u64) & 0xff) as u8 == b5 && ((v >> 48u64) & 0xff) as u8 == b6 && ((v >> 56u64) & 0xff)
        as u8 == b7) by (bit_vector)
        requires
            v == (b0 + b1 * 0x100 + b2 * 0x1_0000 + b3 * 0x100_0000 + b4 * 0x1_0000_0000 + b5
                * 0x100_0000_0000 + b6 * 0x1_0000_0000_0000 + b7 * 0x100_0000_0000_0000) as u64,
    ;
}

/// Appends the four little-endian bytes of `v`.
pub(crate) fn push_u32(out: &mut Vec<u8>, v: u32)
    ensures
        final(out)@ == old(out)@ + seq![byte_of_u32(v, 0), byte_of_u32(v, 1), byte_of_u32(v, 2), byte_of_u32(v, 3)],
{
    out.push((v & 0xff) as u8);
    out.push(((v >> 8) & 0xff) as u8);
    out.push(((v >> 16) & 0xff) as u8);
    out.push(((v >> 24) & 0xff) as u8);
}

/// Appends the eight little-endian bytes of `v`.
pub(crate) fn push_u64(out: &mut Vec<u8>, v: u64)
    ensures
        final(out)@ == old(out)@ + seq![
            byte_of_u64(v, 0),
            byte_of_u64(v, 1),
            byte_of_u64(v, 2),
            byte_of_u64(v, 3),
            byte_of_u64(v, 4),
            byte_of_u64(v, 5),
            byte_of_u64(v, 6),
            byte_of_u64(v, 7),
        ],
{
    out.push((v & 0xff) as u8);
    out.push(((v >> 8) & 0xff) as u8);
    out.push(((v >> 16) & 0xff) as u8);
    out.push(((v >> 24) & 0xff) as u8);
    out.push(((v >> 32) & 0xff) as u8);
    out.push(((v >> 40) & 0xff) as u8);
    out.push(((v >> 48) & 0xff) as u8);
    out.push(((v >> 56) & 0xff) as u8);
}

proof fn lemma_div_mod_4(i: int, j: int)
    requires
        0 <= i,
        0 <= j < 4,
    ensures
        (4 * i + j) / 4 == i,
        (4 * i + j) % 4 == j,
{
    assert((4 * i + j) / 4 == i && (4 * i + j) % 4 == j) by (nonlinear_arith)
        requires
            0 <= i,
            0 <= j < 4,
    ;
}

proof fn lemma_div_mod_8(i: int, j: int)
    requires
        0 <= i,
        0 <= j < 8,
    ensures
        (8 * i + j) / 8 == i,
        (8 * i + j) % 8 == j,
{
    assert((8 * i + j) / 8 == i && (8 * i + j) % 8 == j) by (nonlinear_arith)
        requires
            0 <= i,
            0 <= j < 8,
    ;
}

impl Armv7Regs {
    /// Appends core register `n` (GDB order) to an encoding of the core
    /// registers before it.
    fn push_core(&self, out: &mut Vec<u8>, n: usize, v: u32)
        requires
            n < 17,
            v == self.core_reg(n as int),
            old(out)@.len() == 4 * n,
            forall|k: int| 0 <= k < old(out)@.len() ==> old(out)@[k] == self.gdb_byte(k),
        ensures
            final(out)@.len() == 4 * n + 4,
            forall|k: int| 0 <= k < final(out)@.len() ==> final(out)@[k] == self.gdb_byte(k),
    {
        push_u32(out, v);
        proof {
            assert forall|k: int| 0 <= k < out@.len() implies out@[k] == self.gdb_byte(k) by {
                if k >= 4 * n {
                    lemma_div_mod_4(n as int, k - 4 * n);
                }
            }
        }
    }

    /// The GDB encoding of the register file: r0-r12, sp, lr, pc, cpsr,
    /// d0-d31 and fpscr, each little-endian.
    pub fn gdb_serialize(&self) -> (out: Vec<u8>)
        ensures
            out@ == self.gdb_bytes(),
    {
        let mut out: Vec<u8> = Vec::new();
        // org.gnu.gdb.arm.core
        for i in 0..13
            invariant
                out@.len() == 4 * i,
                forall|k: int| 0 <= k < out@.len() ==> out@[k] == self.gdb_byte(k),
        {
            self.push_core(&mut out, i, self.r[i]);
        }
        self.push_core(&mut out, 13, self.sp);
        self.push_core(&mut out, 14, self.lr);
        self.push_core(&mut out, 15, self.pc);
        self.push_core(&mut out, 16, self.cpsr);

        // org.gnu.gdb.arm.vfp
        for i in 0..32
            invariant
                out@.len() == 68 + 8 * i,
                forall|k: int| 0 <= k < out@.len() ==> out@[k] == self.gdb_byte(k),
        {
            let ghost before = out@;
            push_u64(&mut out, self.d[i]);
            proof {
                assert forall|k: int| 0 <= k < out@.len() implies out@[k] == self.gdb_byte(k) by {
                    if k >= before.len() {
                        lemma_div_mod_8(i as int, k - before.len());
                    }
                }
            }
        }
        push_u32(&mut out, self.fpscr);
        out
    }
}

/// Takes the little-endian word at the front of `bytes`; fails, leaving
/// `bytes` as it is, when fewer than four bytes are left.
pub fn next_u32(bytes: &mut &[u8]) -> (r: Result<u32, ()>)
    ensures
        r is Ok <==> old(bytes)@.len() >= 4,
        r is Err ==> final(bytes)@ == old(bytes)@,
        r matches Ok(v) ==> v == le_u32(old(bytes)@) && final(bytes)@ == old(bytes)@.skip(4),
{
    if bytes.len() < 4 {
        return Err(());
    }
    let (next, rest) = bytes.split_at(4);
    *bytes = rest;
    Ok(next[0] as u32 + next[1] as u32 * 0x100 + next[2] as u32 * 0x1_0000 + next[3] as u32
        * 0x100_0000)
}

/// Takes the little-endian doubleword at the front of `bytes`; fails,
/// leaving `bytes` as it is, when fewer than eight bytes are left.
pub fn next_u64(bytes: &mut &[u8]) -> (r: Result<u64, ()>)
    ensures
        r is Ok <==> old(bytes)@.len() >= 8,
        r is Err ==> final(bytes)@ == old(bytes)@,
        r matches Ok(v) ==> v == le_u64(old(bytes)@) && final(bytes)@ == old(bytes)@.skip(8),
{
    if bytes.len() < 8 {
        return Err(());
    }
    let (next, rest) = bytes.split_at(8);
    *bytes = rest;
    Ok(next[0] as u64 + next[1] as u64 * 0x100 + next[2] as u64 * 0x1_0000 + next[3] as u64
        * 0x100_0000 + next[4] as u64 * 0x1_0000_0000 + next[5] as u64 * 0x100_0000_0000 + next[6]
        as u64 * 0x1_0000_0000_0000 + next[7] as u64 * 0x100_0000_0000_0000)
}

impl Armv7Regs {
    /// Replaces the register file with the one that `bytes` encodes (see
    /// `gdb_serialize`). Fails, changing nothing, unless `bytes` is exactly
    /// `GDB_REGS_LEN` long.
    pub fn gdb_deserialize(&mut self, bytes: &[u8]) -> (r: Result<(), ()>)
        ensures
            r is Ok <==> bytes@.len() == GDB_REGS_LEN,
            r is Ok ==> final(self).gdb_bytes() == bytes@,
            r is Ok ==> forall|i: int|
                0 <= i < 13 ==> #[trigger] final(self).r@[i] == le_u32(bytes@.skip(4 * i)),
            r is Ok ==> final(self).sp == le_u32(bytes@.skip(52)),
            r is Ok ==> final(self).lr == le_u32(bytes@.skip(56)),
            r is Ok ==> final(self).pc == le_u32(bytes@.skip(60)),
            r is Ok ==> final(self).cpsr == le_u32(bytes@.skip(64)),
            r is Ok ==> forall|j: int|
                0 <= j < 32 ==> #[trigger] final(self).d@[j] == le_u64(bytes@.skip(68 + 8 * j)),
            r is Ok ==> final(self).fpscr == le_u32(bytes@.skip(324)),
            r is Err ==> *final(self) == *old(self),
    {
        if bytes.len() != GDB_REGS_LEN {
            return Err(());
        }
        let ghost all = bytes@;
        let mut bytes = bytes;

        // org.gnu.gdb.arm.core
        let mut core = [0u32; 17];
        for i in 0..17
            invariant
                all.len() == GDB_REGS_LEN,
                bytes@ == all.skip(4 * i),
                forall|n: int| 0 <= n < i ==> core@[n] == le_u32(all.skip(4 * n)),
        {
            let v = match next_u32(&mut bytes) {
                Ok(v) => v,
                Err(_) => return Err(()),
            };
            core[i] = v;
        }

        // org.gnu.gdb.arm.vfp
        let mut d = [0u64; 32];
        for i in 0..32
            invariant
                all.len() == GDB_REGS_LEN,
                bytes@ == all.skip(68 + 8 * i),
                forall|n: int| 0 <= n < i ==> d@[n] == le_u64(all.skip(68 + 8 * n)),
        {
            let v = match next_u64(&mut bytes) {
                Ok(v) => v,
                Err(_) => return Err(()),
            };
            d[i] = v;
        }
        let fpscr = match next_u32(&mut bytes) {
            Ok(v) => v,
            Err(_) => return Err(()),
        };
        if !bytes.is_empty() {
            return Err(());
        }

        self.r = [core[0], core[1], core[2], core[3], core[4], core[5], core[6], core[7], core[8],
            core[9], core[10], core[11], core[12]];
        self.sp = core[13];
        self.lr = core[14];
        self.pc = core[15];
        self.cpsr = core[16];
        self.d = d;
        self.fpscr = fpscr;
        proof {
            assert forall|n: int| 0 <= n < 17 implies self.core_reg(n) == le_u32(all.skip(4 * n)) by {}
            assert forall|i: int| 0 <= i < 13 implies #[trigger] self.r@[i] == le_u32(all.skip(4 * i)) by {
                assert(self.core_reg(i) == self.r@[i]);
            }
            assert(self.sp == self.core_reg(13));
            assert(self.lr == self.core_reg(14));
            assert(self.pc == self.core_reg(15));
            assert(self.cpsr == self.core_reg(16));
            assert forall|k: int| 0 <= k < GDB_REGS_LEN implies self.gdb_byte(k) == all[k] by {
                if k < 68 {
                    let n = k / 4;
                    lemma_value_u32_bytes(all.skip(4 * n));
                } else if k < 324 {
                    let n = (k - 68) / 8;
                    lemma_value_u64_bytes(all.skip(68 + 8 * n));
                } else {
                    lemma_value_u32_bytes(all.skip(324));
                }
            }
        }
        Ok(())
    }
}

/// Two register files with the same GDB encoding are equal: decoding what
/// `gdb_serialize` produced (`gdb_deserialize`) gives back exactly the
/// register file that was encoded.
pub proof fn law_gdb_encoding_roundtrip(a: Armv7Regs, b: Armv7Regs)
    requires
        a.gdb_bytes() == b.gdb_bytes(),
    ensures
        a == b,
{
    assert forall|n: int| 0 <= n < 17 implies a.core_reg(n) == b.core_reg(n) by {
        lemma_u32_bytes_value(a.core_reg(n));
        lemma_u32_bytes_value(b.core_reg(n));
        assert forall|j: int| 0 <= j < 4 implies byte_of_u32(a.core_reg(n), j) == byte_of_u32(
            b.core_reg(n),
            j,
        ) by {
            lemma_div_mod_4(n, j);
            assert(b.gdb_bytes()[4 * n + j] == b.gdb_byte(4 * n + j));
            assert(a.gdb_byte(4 * n + j) == byte_of_u32(a.core_reg(n), j));
            assert(b.gdb_byte(4 * n + j) == byte_of_u32(b.core_reg(n), j));
            assert(byte_of_u32(a.core_reg(n), j) == byte_of_u32(b.core_reg(n), j));
        }
    }
    assert forall|n: int| 0 <= n < 32 implies a.d@[n] == b.d@[n] by {
        lemma_u64_bytes_value(a.d@[n]);
        lemma_u64_bytes_value(b.d@[n]);
        assert forall|j: int| 0 <= j < 8 implies byte_of_u64(a.d@[n], j) == byte_of_u64(b.d@[n], j) by {
            lemma_div_mod_8(n, j);
            assert(b.gdb_bytes()[68 + 8 * n + j] == b.gdb_byte(68 + 8 * n + j));
            assert(a.gdb_byte(68 + 8 * n + j) == byte_of_u64(a.d@[n], j));
            assert(b.gdb_byte(68 + 8 * n + j) == byte_of_u64(b.d@[n], j));
            assert(byte_of_u64(a.d@[n], j) == byte_of_u64(b.d@[n], j));
        }
    }
    lemma_u32_bytes_value(a.fpscr);
    lemma_u32_bytes_value(b.fpscr);
    assert forall|j: int| 0 <= j < 4 implies byte_of_u32(a.fpscr, j) == byte_of_u32(b.fpscr, j) by {
        assert(b.gdb_bytes()[324 + j] == b.gdb_byte(324 + j));
        assert(byte_of_u32(a.fpscr, j) == byte_of_u32(b.fpscr, j));
    }
    assert(a.core_reg(13) == b.core_reg(13));
    assert(a.core_reg(14) == b.core_reg(14));
    assert(a.core_reg(15) == b.core_reg(15));
    assert(a.core_reg(16) == b.core_reg(16));
    assert forall|n: int| 0 <= n < 13 implies a.r@[n] == b.r@[n] by {
        assert(a.core_reg(n) == b.core_reg(n));
    }
    assert(a.r =~= b.r);
    assert(a.d =~= b.d);
    assert(a.fpscr == b.fpscr) by {
        assert(byte_of_u32(a.fpscr, 0) == byte_of_u32(b.fpscr, 0));
        assert(byte_of_u32(a.fpscr, 1) == byte_of_u32(b.fpscr, 1));
        assert(byte_of_u32(a.fpscr, 2) == byte_of_u32(b.fpscr, 2));
        assert(byte_of_u32(a.fpscr, 3) == byte_of_u32(b.fpscr, 3));
    }
}

} // verus!
