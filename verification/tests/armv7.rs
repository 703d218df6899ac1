use vita_gdb::armv7::{next_u32, next_u64, Armv7RegId, Armv7Regs, GDB_REGS_LEN};

fn sample() -> Armv7Regs {
    let mut regs = Armv7Regs::default();
    for i in 0..13 {
        regs.r[i] = 0x1000_0000 + i as u32;
    }
    regs.sp = 0x7000_0000;
    regs.lr = 0x8100_0101;
    regs.pc = 0x8100_0200;
    regs.cpsr = 0x6000_0030;
    for i in 0..32 {
        regs.d[i] = 0x0102_0304_0506_0700 + i as u64;
    }
    regs.fpscr = 0x0300_0000;
    regs
}

#[test]
fn register_ids() {
    assert_eq!(Armv7RegId::from_raw_id(0), Some((Armv7RegId::Gpr(0), 4)));
    assert_eq!(Armv7RegId::from_raw_id(12), Some((Armv7RegId::Gpr(12), 4)));
    assert_eq!(Armv7RegId::from_raw_id(13), Some((Armv7RegId::Sp, 4)));
    assert_eq!(Armv7RegId::from_raw_id(14), Some((Armv7RegId::Lr, 4)));
    assert_eq!(Armv7RegId::from_raw_id(15), Some((Armv7RegId::Pc, 4)));
    assert_eq!(Armv7RegId::from_raw_id(16), Some((Armv7RegId::Cpsr, 4)));
    assert_eq!(Armv7RegId::from_raw_id(17), Some((Armv7RegId::Dpr(0), 8)));
    assert_eq!(Armv7RegId::from_raw_id(48), Some((Armv7RegId::Dpr(31), 8)));
    assert_eq!(Armv7RegId::from_raw_id(49), Some((Armv7RegId::Fpscr, 4)));
    assert_eq!(Armv7RegId::from_raw_id(50), None);
}

#[test]
fn gdb_encoding_layout() {
    let regs = sample();
    let bytes = regs.gdb_serialize();
    assert_eq!(bytes.len(), GDB_REGS_LEN);
    assert_eq!(&bytes[0..4], &0x1000_0000u32.to_le_bytes());
    assert_eq!(&bytes[52..56], &0x7000_0000u32.to_le_bytes());
    assert_eq!(&bytes[60..64], &0x8100_0200u32.to_le_bytes());
    assert_eq!(&bytes[64..68], &0x6000_0030u32.to_le_bytes());
    assert_eq!(&bytes[68..76], &0x0102_0304_0506_0700u64.to_le_bytes());
    assert_eq!(&bytes[324..328], &0x0300_0000u32.to_le_bytes());
    assert_eq!(regs.pc(), 0x8100_0200);
}

#[test]
fn gdb_encoding_round_trip() {
    let regs = sample();
    let bytes = regs.gdb_serialize();
    let mut back = Armv7Regs::default();
    assert_eq!(back.gdb_deserialize(&bytes), Ok(()));
    assert_eq!(back, regs);
}

#[test]
fn gdb_decoding_wrong_length_keeps_registers() {
    let mut regs = sample();
    assert_eq!(regs.gdb_deserialize(&[0u8; 327]), Err(()));
    assert_eq!(regs, sample());
    assert_eq!(regs.gdb_deserialize(&[0u8; 329]), Err(()));
    assert_eq!(regs, sample());
}

#[test]
fn little_endian_readers() {
    let data = [1u8, 2, 3, 4, 5, 6, 7, 8, 9];
    let mut cursor: &[u8] = &data;
    assert_eq!(next_u32(&mut cursor), Ok(0x0403_0201));
    assert_eq!(cursor.len(), 5);
    assert_eq!(next_u64(&mut cursor), Err(()));
    let mut cursor: &[u8] = &data;
    assert_eq!(next_u64(&mut cursor), Ok(0x0807_0605_0403_0201));
    assert_eq!(cursor, &[9u8][..]);
    assert_eq!(next_u32(&mut cursor), Err(()));
}
