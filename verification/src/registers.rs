//! The thread register sets the kernel reads and writes, and how GDB's
//! register requests map onto them: which of a thread's two saved
//! contexts is the user one, which mask bit selects each register, and
//! the bytes GDB gets for a register.

use vstd::prelude::*;
use crate::armv7::{
    byte_of_u32, byte_of_u64, lemma_u32_bytes_value, lemma_value_u32_bytes, push_u32, push_u64,
    spec_reg_id, Armv7RegId, Armv7Regs,
};
use crate::next_pc::le_u32;

verus! {

/// Core registers of a thread as the kernel stores them.
#[derive(Debug, Clone, Copy)]
pub struct CpuRegisters {
    pub r: [u32; 13],
    pub sp: u32,
    pub lr: u32,
    pub pc: u32,
    pub cpsr: u32,
    pub fpscr: u32,
}

/// Mask bit selecting register `n` in a register write: r0-r12 are bits
/// 0-12, then sp, lr, pc, cpsr and fpscr.
pub const SCE_REG_SP: u32 = 0x2000;
pub const SCE_REG_LR: u32 = 0x4000;
pub const SCE_REG_PC: u32 = 0x8000;
pub const SCE_REG_CPSR: u32 = 0x1_0000;
pub const SCE_REG_FPSCR: u32 = 0x2_0000;

/// Mask selecting every core register, cpsr and fpscr.
pub const SCE_REG_ALL: u32 = 0x3_ffff;

/// What a VFP register slot reads as when the kernel has no VFP context
/// for the thread.
pub const VFP_FILL: u64 = 0x7ff8_dead_7f80_dead;

/// Error code (0x80020008 as a signed value) of a VFP read on a thread
/// that has no VFP context; GDB then sees `VFP_FILL`.
pub const VFP_NOT_AVAILABLE: i32 = -2147352568;

/// cpsr mode bits of user mode.
pub open spec fn spec_user_mode(cpsr: u32) -> bool {
    cpsr & 0x1f == 0x10
}

/// Whether `cpsr` is in user mode.
pub fn is_user_mode(cpsr: u32) -> (b: bool)
    ensures
        b == spec_user_mode(cpsr),
{
    cpsr & 0x1f == 0x10
}

/// The context of a stopped thread GDB sees: of the two saved contexts,
/// the first when it was saved in user mode, else the second.
pub fn select_context(entries: &[CpuRegisters; 2]) -> (c: CpuRegisters)
    ensures
        c == (if spec_user_mode(entries@[0].cpsr) {
            entries@[0]
        } else {
            entries@[1]
        }),
{
    if is_user_mode(entries[0].cpsr) {
        entries[0]
    } else {
        entries[1]
    }
}

/// Whether a failed VFP read still counts as a read (the thread has no
/// VFP context).
pub fn vfp_error_tolerated(code: i32) -> (b: bool)
    ensures
        b == (code == VFP_NOT_AVAILABLE),
{
    code == VFP_NOT_AVAILABLE
}

/// Fills GDB's register file from the thread context `th`; every D
/// register reads as `VFP_FILL` until the VFP context is read over it.
pub fn load_registers(regs: &mut Armv7Regs, th: &CpuRegisters)
    ensures
        final(regs).r == th.r,
        final(regs).sp == th.sp,
        final(regs).lr == th.lr,
        final(regs).pc == th.pc,
        final(regs).cpsr == th.cpsr,
        final(regs).fpscr == th.fpscr,
        forall|i: int| 0 <= i < 32 ==> #[trigger] final(regs).d@[i] == VFP_FILL,
{
    regs.r = th.r;
    regs.sp = th.sp;
    regs.lr = th.lr;
    regs.pc = th.pc;
    regs.cpsr = th.cpsr;
    regs.fpscr = th.fpscr;
    regs.d = [VFP_FILL; 32];
}

/// The thread context GDB's register file `regs` writes back.
pub fn cpu_registers_from(regs: &Armv7Regs) -> (c: CpuRegisters)
    ensures
        c.r == regs.r,
        c.sp == regs.sp,
        c.lr == regs.lr,
        c.pc == regs.pc,
        c.cpsr == regs.cpsr,
        c.fpscr == regs.fpscr,
{
    CpuRegisters { r: regs.r, sp: regs.sp, lr: regs.lr, pc: regs.pc, cpsr: regs.cpsr, fpscr: regs.fpscr }
}

/// The register identifiers of the kernel context: r0-r12, sp, lr, pc,
/// cpsr and fpscr.
pub open spec fn is_core_id(id: Armv7RegId) -> bool {
    match id {
        Armv7RegId::Gpr(n) => n <= 12,
        Armv7RegId::Dpr(_) => false,
        _ => true,
    }
}

/// The value of core register `id` in the context `th`.
pub open spec fn spec_register_value(th: CpuRegisters, id: Armv7RegId) -> u32 {
    match id {
        Armv7RegId::Gpr(n) => th.r@[n as int],
        Armv7RegId::Sp => th.sp,
        Armv7RegId::Lr => th.lr,
        Armv7RegId::Pc => th.pc,
        Armv7RegId::Cpsr => th.cpsr,
        _ => th.fpscr,
    }
}

/// The mask bit that selects core register `id` in a register write.
pub open spec fn spec_register_mask(id: Armv7RegId) -> u32 {
    match id {
        Armv7RegId::Gpr(n) => 1u32 << n,
        Armv7RegId::Sp => SCE_REG_SP,
        Armv7RegId::Lr => SCE_REG_LR,
        Armv7RegId::Pc => SCE_REG_PC,
        Armv7RegId::Cpsr => SCE_REG_CPSR,
        _ => SCE_REG_FPSCR,
    }
}

/// The value of core register `id` in the context `th`.
pub fn register_value(th: &CpuRegisters, id: Armv7RegId) -> (v: u32)
    requires
        is_core_id(id),
    ensures
        v == spec_register_value(*th, id),
{
    match id {
        Armv7RegId::Gpr(n) => th.r[n as usize],
        Armv7RegId::Sp => th.sp,
        Armv7RegId::Lr => th.lr,
        Armv7RegId::Pc => th.pc,
        Armv7RegId::Cpsr => th.cpsr,
        _ => th.fpscr,
    }
}

/// The bytes GDB gets for register `id`: a D register's eight
/// little-endian bytes from the VFP context `vfp`, any other register's
/// four little-endian bytes from the thread context `th`.
pub fn register_bytes(th: &CpuRegisters, vfp: &[u64; 32], id: Armv7RegId) -> (out: Vec<u8>)
    requires
        match id {
            Armv7RegId::Gpr(n) => n <= 12,
            Armv7RegId::Dpr(n) => n < 32,
            _ => true,
        },
    ensures
        match id {
            Armv7RegId::Dpr(n) => out@ == Seq::new(8, |j: int| byte_of_u64(vfp@[n as int], j)),
            _ => out@ == register_read_bytes(*th, id),
        },
{
    let mut out: Vec<u8> = Vec::new();
    match id {
        Armv7RegId::Dpr(n) => {
            push_u64(&mut out, vfp[n as usize]);
            assert(out@ =~= Seq::new(8, |j: int| byte_of_u64(vfp@[n as int], j)));
        },
        _ => {
            let v = register_value(th, id);
            push_u32(&mut out, v);
            assert(out@ =~= register_read_bytes(*th, id));
        },
    }
    out
}

/// The context write for GDB's write of `val` to register `id`: a zeroed
/// context holding the value in that register, with the mask bit that
/// selects it. D registers cannot be written this way (`None`).
pub fn register_write(id: Armv7RegId, val: &[u8]) -> (w: Option<(CpuRegisters, u32)>)
    requires
        val@.len() == 4,
        match id {
            Armv7RegId::Gpr(n) => n <= 12,
            _ => true,
        },
    ensures
        match id {
            Armv7RegId::Dpr(_) => w is None,
            _ => w matches Some((regs, mask)) && mask == spec_register_mask(id) && spec_register_value(
                regs,
                id,
            ) == le_u32(val@) && (forall|k: Armv7RegId| is_core_id(k) && k != id ==> spec_register_value(regs, k) == 0),
        },
{
    let value: u32 = val[0] as u32 + val[1] as u32 * 0x100 + val[2] as u32 * 0x1_0000 + val[3] as u32
        * 0x100_0000;
    let mut regs = CpuRegisters { r: [0u32; 13], sp: 0, lr: 0, pc: 0, cpsr: 0, fpscr: 0 };
    let mask: u32 = match id {
        Armv7RegId::Gpr(n) => {
            regs.r[n as usize] = value;
            1u32 << n
        },
        Armv7RegId::Sp => {
            regs.sp = value;
            SCE_REG_SP
        },
        Armv7RegId::Lr => {
            regs.lr = value;
            SCE_REG_LR
        },
        Armv7RegId::Pc => {
            regs.pc = value;
            SCE_REG_PC
        },
        Armv7RegId::Cpsr => {
            regs.cpsr = value;
            SCE_REG_CPSR
        },
        Armv7RegId::Fpscr => {
            regs.fpscr = value;
            SCE_REG_FPSCR
        },
        Armv7RegId::Dpr(_) => return None,
    };
    Some((regs, mask))
}

/// The four bytes GDB reads for a core register.
pub open spec fn register_read_bytes(th: CpuRegisters, id: Armv7RegId) -> Seq<u8> {
    Seq::new(4, |j: int| byte_of_u32(spec_register_value(th, id), j))
}

/// A core register written with four bytes reads back as those bytes.
pub proof fn law_register_write_reads_back(id: Armv7RegId, val: Seq<u8>, th: CpuRegisters)
    requires
        val.len() == 4,
        spec_register_value(th, id) == le_u32(val),
    ensures
        register_read_bytes(th, id) == val,
{
    lemma_value_u32_bytes(val);
    assert(register_read_bytes(th, id) =~= val);
}

/// Writing back the bytes read from a core register leaves its value as
/// it was.
pub proof fn law_register_read_writes_back(id: Armv7RegId, th: CpuRegisters, written: CpuRegisters)
    requires
        spec_register_value(written, id) == le_u32(register_read_bytes(th, id)),
    ensures
        spec_register_value(written, id) == spec_register_value(th, id),
{
    let v = spec_register_value(th, id);
    lemma_u32_bytes_value(v);
    assert(register_read_bytes(th, id) =~= seq![byte_of_u32(v, 0), byte_of_u32(v, 1), byte_of_u32(v, 2), byte_of_u32(v, 3)]);
}

/// Reading one register agrees with reading the whole register file: for
/// every GDB register number of a core register, the value read alone
/// from a thread context is the one the register file loaded from that
/// context holds under that number (r0-r12, sp, lr, pc, cpsr, in GDB's
/// order), and fpscr reads as the file's fpscr.
pub proof fn law_single_register_matches_register_file(th: CpuRegisters, regs: Armv7Regs, n: usize)
    requires
        regs.r == th.r,
        regs.sp == th.sp,
        regs.lr == th.lr,
        regs.pc == th.pc,
        regs.cpsr == th.cpsr,
        regs.fpscr == th.fpscr,
        n < 17,
    ensures
        spec_register_value(th, spec_reg_id(n)->Some_0.0) == regs.core_reg(n as int),
        spec_register_value(th, Armv7RegId::Fpscr) == regs.fpscr,
{
}

/// A single-register write selects the register by its place in the
/// kernel context: the mask of the register with GDB number `n` (a core
/// register) is bit `n`, and fpscr's is the bit after cpsr's.
pub proof fn law_register_mask_follows_numbering(n: usize)
    requires
        n < 17,
    ensures
        spec_register_mask(spec_reg_id(n)->Some_0.0) == 1u32 << (n as u32),
        spec_register_mask(Armv7RegId::Fpscr) == 1u32 << 17u32,
{
    assert(1u32 << 13u32 == 0x2000u32) by (bit_vector);
    assert(1u32 << 14u32 == 0x4000u32) by (bit_vector);
    assert(1u32 << 15u32 == 0x8000u32) by (bit_vector);
    assert(1u32 << 16u32 == 0x1_0000u32) by (bit_vector);
    assert(1u32 << 17u32 == 0x2_0000u32) by (bit_vector);
}

} // verus!
