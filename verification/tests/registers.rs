use vita_gdb::armv7::{Armv7RegId, Armv7Regs};
use vita_gdb::registers::{
    cpu_registers_from, is_user_mode, load_registers, register_bytes, register_value,
    register_write, select_context, vfp_error_tolerated, CpuRegisters, SCE_REG_ALL, SCE_REG_CPSR,
    SCE_REG_FPSCR, SCE_REG_LR, SCE_REG_PC, SCE_REG_SP, VFP_FILL,
};

fn ctx(base: u32, cpsr: u32) -> CpuRegisters {
    let mut r = [0u32; 13];
    for i in 0..13 {
        r[i] = base + i as u32;
    }
    CpuRegisters { r, sp: base + 13, lr: base + 14, pc: base + 15, cpsr, fpscr: base + 17 }
}

#[test]
fn user_mode_bits() {
    assert!(is_user_mode(0x10));
    assert!(is_user_mode(0x6000_0030));
    assert!(!is_user_mode(0x13));
    assert!(!is_user_mode(0x1f));
}

#[test]
fn context_selection() {
    let user = ctx(0x100, 0x10);
    let kernel = ctx(0x200, 0x13);
    assert_eq!(select_context(&[user, kernel]).r[0], 0x100);
    let kernel_first = ctx(0x300, 0x13);
    assert_eq!(select_context(&[kernel_first, user]).r[0], 0x100);
}

#[test]
fn vfp_unavailable_code() {
    assert!(vfp_error_tolerated(0x80020008u32 as i32));
    assert!(!vfp_error_tolerated(-1));
}

#[test]
fn load_and_store_register_file() {
    let th = ctx(0x1000, 0x10);
    let mut regs = Armv7Regs::default();
    load_registers(&mut regs, &th);
    assert_eq!(regs.r[12], 0x100c);
    assert_eq!((regs.sp, regs.lr, regs.pc, regs.cpsr, regs.fpscr), (0x100d, 0x100e, 0x100f, 0x10, 0x1011));
    assert!(regs.d.iter().all(|d| *d == VFP_FILL));
    assert_eq!(VFP_FILL, 0x7ff8dead7f80dead);
    let back = cpu_registers_from(&regs);
    assert_eq!(back.r, th.r);
    assert_eq!((back.sp, back.lr, back.pc, back.cpsr, back.fpscr), (th.sp, th.lr, th.pc, th.cpsr, th.fpscr));
    assert_eq!(SCE_REG_ALL, 0x3ffff);
}

#[test]
fn single_register_values() {
    let th = ctx(0x2000, 0x10);
    assert_eq!(register_value(&th, Armv7RegId::Gpr(5)), 0x2005);
    assert_eq!(register_value(&th, Armv7RegId::Sp), 0x200d);
    assert_eq!(register_value(&th, Armv7RegId::Fpscr), 0x2011);
    let mut vfp = [0u64; 32];
    vfp[3] = 0x1122_3344_5566_7788;
    assert_eq!(register_bytes(&th, &vfp, Armv7RegId::Pc), 0x200fu32.to_le_bytes().to_vec());
    assert_eq!(register_bytes(&th, &vfp, Armv7RegId::Dpr(3)), 0x1122_3344_5566_7788u64.to_le_bytes().to_vec());
}

#[test]
fn single_register_writes() {
    let (regs, mask) = register_write(Armv7RegId::Gpr(7), &[0x78, 0x56, 0x34, 0x12]).unwrap();
    assert_eq!(mask, 1 << 7);
    assert_eq!(regs.r[7], 0x1234_5678);
    assert_eq!(regs.r[6], 0);
    let (regs, mask) = register_write(Armv7RegId::Pc, &[1, 0, 0, 0x81]).unwrap();
    assert_eq!((mask, regs.pc), (SCE_REG_PC, 0x8100_0001));
    assert_eq!(register_write(Armv7RegId::Sp, &[0; 4]).unwrap().1, SCE_REG_SP);
    assert_eq!(register_write(Armv7RegId::Lr, &[0; 4]).unwrap().1, SCE_REG_LR);
    assert_eq!(register_write(Armv7RegId::Cpsr, &[0; 4]).unwrap().1, SCE_REG_CPSR);
    assert_eq!(register_write(Armv7RegId::Fpscr, &[0; 4]).unwrap().1, SCE_REG_FPSCR);
    assert!(register_write(Armv7RegId::Dpr(0), &[0; 4]).is_none());
}

#[test]
fn register_write_reads_back() {
    let vfp = [0u64; 32];
    for id in [Armv7RegId::Gpr(0), Armv7RegId::Gpr(12), Armv7RegId::Sp, Armv7RegId::Lr, Armv7RegId::Pc, Armv7RegId::Cpsr, Armv7RegId::Fpscr] {
        let bytes = [0xde, 0xad, 0xbe, 0xef];
        let (regs, _) = register_write(id, &bytes).unwrap();
        assert_eq!(register_bytes(&regs, &vfp, id), bytes.to_vec());
    }
    let th = ctx(0x3000, 0x10);
    let read = register_bytes(&th, &vfp, Armv7RegId::Lr);
    let (written, _) = register_write(Armv7RegId::Lr, &read).unwrap();
    assert_eq!(register_value(&written, Armv7RegId::Lr), register_value(&th, Armv7RegId::Lr));
}
