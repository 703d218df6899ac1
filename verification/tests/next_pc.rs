use vita_gdb::next_pc::{next_pc, MemReader, NextPcError, RegContext};

struct TestMemory {
    regions: Vec<(usize, Vec<u8>)>,
}

impl TestMemory {
    fn new() -> Self {
        Self { regions: Vec::new() }
    }

    fn add(&mut self, base: usize, bytes: &[u8]) {
        self.regions.push((base, bytes.to_vec()));
    }
}

impl MemReader for TestMemory {
    fn read(&self, addr: usize, buf: &mut [u8]) -> Option<()> {
        for (base, bytes) in &self.regions {
            let offset = addr.checked_sub(*base)?;
            let end = offset.checked_add(buf.len())?;

            if let Some(src) = bytes.get(offset..end) {
                buf.copy_from_slice(src);
                return Some(());
            }
        }

        None
    }
}

fn arm(bytes: &[u8], pc: u32) -> (RegContext, TestMemory) {
    let mut memory = TestMemory::new();
    memory.add(pc as usize, bytes);
    (RegContext { pc: pc + 8, ..RegContext::default() }, memory)
}

fn thumb(bytes: &[u8], pc: u32) -> (RegContext, TestMemory) {
    let mut instruction = [0u8; 4];
    instruction[..bytes.len()].copy_from_slice(bytes);
    let mut memory = TestMemory::new();
    memory.add(pc as usize, &instruction);
    (RegContext { pc: pc + 4, cpsr: 1 << 5, ..RegContext::default() }, memory)
}

/// Little-endian bytes of an ARM instruction word.
fn word(w: u32) -> [u8; 4] {
    w.to_le_bytes()
}

/// Little-endian bytes of a narrow Thumb instruction.
fn half(h: u16) -> [u8; 2] {
    h.to_le_bytes()
}

/// Little-endian bytes of a wide Thumb instruction (two halfwords).
fn wide(h1: u16, h2: u16) -> [u8; 4] {
    let a = h1.to_le_bytes();
    let b = h2.to_le_bytes();
    [a[0], a[1], b[0], b[1]]
}

#[test]
fn arm_fallthrough_is_next_instruction() {
    // mov r0, r0
    let (regs, memory) = arm(&word(0xE1A0_0000), 0x1000);
    assert_eq!(next_pc(&regs, &memory).unwrap(), (0x1004, false));
}

#[test]
fn thumb_fallthrough_narrow_instruction() {
    // movs r0, r0
    let (regs, memory) = thumb(&half(0x0000), 0x1000);
    assert_eq!(next_pc(&regs, &memory).unwrap(), (0x1002, true));
}

#[test]
fn thumb_fallthrough_wide_instruction() {
    // bl #0
    let (regs, memory) = thumb(&wide(0xF7FF, 0xFFFE), 0x1000);
    assert_eq!(next_pc(&regs, &memory).unwrap(), (0x1004, true));
}

#[test]
fn arm_b_forward() {
    // b #0x100
    let (regs, memory) = arm(&word(0xEA00_0040), 0x1000);
    assert_eq!(next_pc(&regs, &memory).unwrap(), (0x1108, false));
}

#[test]
fn arm_b_backward() {
    // b #-0x100
    let (regs, memory) = arm(&word(0xEAFF_FFC0), 0x1000);
    assert_eq!(next_pc(&regs, &memory).unwrap(), (0x1008 - 0x100, false));
}

#[test]
fn arm_b_zero_offset() {
    // b #0
    let (regs, memory) = arm(&word(0xEA00_0000), 0x1000);
    assert_eq!(next_pc(&regs, &memory).unwrap(), (0x1008, false));
}

#[test]
fn arm_bl_forward() {
    // bl #0x100
    let (regs, memory) = arm(&word(0xEB00_0040), 0x1000);
    assert_eq!(next_pc(&regs, &memory).unwrap(), (0x1108, false));
}

#[test]
fn arm_beq_taken_when_z_set() {
    let (mut regs, memory) = arm(&word(0x0A00_0040), 0x1000);
    let _ = &mut regs;
    regs.cpsr |= 1 << 30;
    assert_eq!(next_pc(&regs, &memory).unwrap(), (0x1108, false));
}

#[test]
fn arm_beq_not_taken_when_z_clear() {
    let (mut regs, memory) = arm(&word(0x0A00_0040), 0x1000);
    let _ = &mut regs;
    assert_eq!(next_pc(&regs, &memory).unwrap(), (0x1004, false));
}

#[test]
fn arm_bne_taken_when_z_clear() {
    let (mut regs, memory) = arm(&word(0x1A00_0040), 0x1000);
    let _ = &mut regs;
    assert_eq!(next_pc(&regs, &memory).unwrap(), (0x1108, false));
}

#[test]
fn arm_bne_not_taken_when_z_set() {
    let (mut regs, memory) = arm(&word(0x1A00_0040), 0x1000);
    let _ = &mut regs;
    regs.cpsr |= 1 << 30;
    assert_eq!(next_pc(&regs, &memory).unwrap(), (0x1004, false));
}

#[test]
fn arm_bcs_taken_when_c_set() {
    let (mut regs, memory) = arm(&word(0x2A00_0040), 0x1000);
    let _ = &mut regs;
    regs.cpsr |= 1 << 29;
    assert_eq!(next_pc(&regs, &memory).unwrap(), (0x1108, false));
}

#[test]
fn arm_bcc_taken_when_c_clear() {
    let (mut regs, memory) = arm(&word(0x3A00_0040), 0x1000);
    let _ = &mut regs;
    assert_eq!(next_pc(&regs, &memory).unwrap(), (0x1108, false));
}

#[test]
fn arm_bmi_taken_when_n_set() {
    let (mut regs, memory) = arm(&word(0x4A00_0040), 0x1000);
    let _ = &mut regs;
    regs.cpsr |= 1 << 31;
    assert_eq!(next_pc(&regs, &memory).unwrap(), (0x1108, false));
}

#[test]
fn arm_bpl_taken_when_n_clear() {
    let (mut regs, memory) = arm(&word(0x5A00_0040), 0x1000);
    let _ = &mut regs;
    assert_eq!(next_pc(&regs, &memory).unwrap(), (0x1108, false));
}

#[test]
fn arm_bvs_taken_when_v_set() {
    let (mut regs, memory) = arm(&word(0x6A00_0040), 0x1000);
    let _ = &mut regs;
    regs.cpsr |= 1 << 28;
    assert_eq!(next_pc(&regs, &memory).unwrap(), (0x1108, false));
}

#[test]
fn arm_bvc_taken_when_v_clear() {
    let (mut regs, memory) = arm(&word(0x7A00_0040), 0x1000);
    let _ = &mut regs;
    assert_eq!(next_pc(&regs, &memory).unwrap(), (0x1108, false));
}

#[test]
fn arm_bhi_requires_c_and_not_z() {
    let (mut regs, memory) = arm(&word(0x8A00_0040), 0x1000);
    let _ = &mut regs;
    regs.cpsr |= 1 << 29;
    assert_eq!(next_pc(&regs, &memory).unwrap(), (0x1108, false));

    regs.cpsr |= 1 << 30;
    assert_eq!(next_pc(&regs, &memory).unwrap(), (0x1004, false));
}

#[test]
fn arm_bls_requires_not_c_or_z() {
    let (mut regs, memory) = arm(&word(0x9A00_0040), 0x1000);
    let _ = &mut regs;
    assert_eq!(next_pc(&regs, &memory).unwrap(), (0x1108, false));

    regs.cpsr |= 1 << 29;
    assert_eq!(next_pc(&regs, &memory).unwrap(), (0x1004, false));
}

#[test]
fn arm_bge_uses_n_equals_v() {
    let (mut regs, memory) = arm(&word(0xAA00_0040), 0x1000);
    let _ = &mut regs;
    assert_eq!(next_pc(&regs, &memory).unwrap(), (0x1108, false));

    regs.cpsr |= 1 << 31;
    assert_eq!(next_pc(&regs, &memory).unwrap(), (0x1004, false));

    regs.cpsr |= 1 << 28;
    assert_eq!(next_pc(&regs, &memory).unwrap(), (0x1108, false));
}

#[test]
fn arm_blt_uses_n_not_equal_v() {
    let (mut regs, memory) = arm(&word(0xBA00_0040), 0x1000);
    let _ = &mut regs;
    regs.cpsr |= 1 << 31;
    assert_eq!(next_pc(&regs, &memory).unwrap(), (0x1108, false));
}

#[test]
fn arm_bgt_requires_not_z_and_n_equals_v() {
    let (mut regs, memory) = arm(&word(0xCA00_0040), 0x1000);
    let _ = &mut regs;
    assert_eq!(next_pc(&regs, &memory).unwrap(), (0x1108, false));
}

#[test]
fn arm_ble_requires_z_or_n_not_equal_v() {
    let (mut regs, memory) = arm(&word(0xDA00_0040), 0x1000);
    let _ = &mut regs;
    regs.cpsr |= 1 << 30;
    assert_eq!(next_pc(&regs, &memory).unwrap(), (0x1108, false));

    regs.cpsr &= !(1 << 30);
    assert_eq!(next_pc(&regs, &memory).unwrap(), (0x1004, false));
}

#[test]
fn arm_bx_register_to_arm() {
    let (mut regs, memory) = arm(&word(0xE12F_FF10), 0x1000);
    regs.r[0] = 0x1234;

    assert_eq!(next_pc(&regs, &memory).unwrap(), (0x1234, false));
}

#[test]
fn arm_bx_register_to_thumb() {
    let (mut regs, memory) = arm(&word(0xE12F_FF10), 0x1000);
    regs.r[0] = 0x1235;

    assert_eq!(next_pc(&regs, &memory).unwrap(), (0x1234, true));
}

#[test]
fn arm_blx_register_to_arm() {
    let (mut regs, memory) = arm(&word(0xE12F_FF30), 0x1000);
    regs.r[0] = 0x1234;

    assert_eq!(next_pc(&regs, &memory).unwrap(), (0x1234, false));
}

#[test]
fn arm_blx_register_to_thumb() {
    let (mut regs, memory) = arm(&word(0xE12F_FF30), 0x1000);
    regs.r[0] = 0x1235;

    assert_eq!(next_pc(&regs, &memory).unwrap(), (0x1234, true));
}

#[test]
fn arm_bx_pc_uses_architectural_pc() {
    // bx pc
    let (regs, memory) = arm(&word(0xE12F_FF1F), 0x1000);
    assert_eq!(next_pc(&regs, &memory).unwrap(), (0x1008, false));
}

#[test]
fn thumb_bx_register_to_thumb() {
    let (mut regs, memory) = thumb(&half(0x4700), 0x1000);
    regs.r[0] = 0x1235;

    assert_eq!(next_pc(&regs, &memory).unwrap(), (0x1234, true));
}

#[test]
fn thumb_bx_register_to_arm() {
    let (mut regs, memory) = thumb(&half(0x4700), 0x1000);
    regs.r[0] = 0x1234;

    assert_eq!(next_pc(&regs, &memory).unwrap(), (0x1234, false));
}

#[test]
fn thumb_blx_register_to_thumb() {
    let (mut regs, memory) = thumb(&half(0x4780), 0x1000);
    regs.r[0] = 0x1235;

    assert_eq!(next_pc(&regs, &memory).unwrap(), (0x1234, true));
}

#[test]
fn thumb_blx_register_to_arm() {
    let (mut regs, memory) = thumb(&half(0x4780), 0x1000);
    regs.r[0] = 0x1234;

    assert_eq!(next_pc(&regs, &memory).unwrap(), (0x1234, false));
}

#[test]
fn thumb_beq_taken() {
    // beq #4
    let (mut regs, memory) = thumb(&half(0xD000), 0x1000);
    regs.cpsr |= 1 << 30;
    assert_eq!(next_pc(&regs, &memory).unwrap(), (0x1002, true));
}

#[test]
fn thumb_beq_not_taken() {
    // beq #0
    let (regs, memory) = thumb(&half(0xD0FE), 0x1000);
    assert_eq!(next_pc(&regs, &memory).unwrap(), (0x1002, true));
}

#[test]
fn thumb_unconditional_b_zero_offset() {
    // b #0
    let (regs, memory) = thumb(&half(0xE7FE), 0x1000);
    assert_eq!(next_pc(&regs, &memory).unwrap(), (0x1004, true));
}

#[test]
fn arm_mov_pc_register() {
    // mov pc, r0
    let (regs, memory) = arm(&word(0xE1A0_F000), 0x1000);
    let mut regs = regs;
    regs.r[0] = 0x1234;
    assert_eq!(next_pc(&regs, &memory).unwrap(), (0x1234, false));
}

#[test]
fn arm_mvn_pc_register() {
    let (mut regs, memory) = arm(&word(0xE1E0_F000), 0x1000);
    regs.r[0] = 0xfffffff0;

    assert_eq!(next_pc(&regs, &memory).unwrap(), (0xc, false));
}

#[test]
fn arm_add_pc_immediate() {
    let (mut regs, memory) = arm(&word(0xE280_F004), 0x1000);
    regs.r[0] = 0x2000;

    assert_eq!(next_pc(&regs, &memory).unwrap(), (0x2004, false));
}

#[test]
fn arm_sub_pc_immediate() {
    let (mut regs, memory) = arm(&word(0xE240_F004), 0x1000);
    regs.r[0] = 0x2000;

    assert_eq!(next_pc(&regs, &memory).unwrap(), (0x1ffc, false));
}

#[test]
fn arm_ldr_pc_register_indirect() {
    // ldr pc, [r0]
    let (regs, mut memory) = arm(&word(0xE590_F000), 0x1000);
    memory.add(0x2000, &0x1235u32.to_le_bytes());
    let mut regs = regs;
    regs.r[0] = 0x2000;
    assert_eq!(next_pc(&regs, &memory).unwrap(), (0x1234, true));
}

#[test]
fn arm_ldr_pc_memory_failure_is_reported() {
    // ldr pc, [r0]
    let (mut regs, memory) = arm(&word(0xE590_F000), 0x1000);
    regs.r[0] = 0x2000;
    assert!(matches!(next_pc(&regs, &memory), Err(NextPcError::MemoryRead)));
}

#[test]
fn arm_ldm_loads_pc_from_register_list() {
    // ldmia r0, {r1, pc}
    let (mut regs, mut memory) = arm(&word(0xE890_8002), 0x1000);
    memory.add(0x2004, &[0x67, 0x45, 0x00, 0x00]);
    regs.r[0] = 0x2000;
    assert_eq!(next_pc(&regs, &memory).unwrap(), (0x4566, true));
}
