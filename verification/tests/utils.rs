use vita_gdb::utils::{stub_is_unresolved, stub_word_address, UNRESOLVED_STUB_WORD};
use vita_gdb::utils::{
    bridge_result, nul_terminated_len, sce_check, ArgvWriter, CStrError, SceError, StreamWriter,
    TitleId, WriteError,
};

#[test]
fn sce_error_new_keeps_fields() {
    let e = SceError::new(-5, "ksceKernelGetThreadInfo");
    assert_eq!(e.code, -5);
    assert_eq!(e.func, "ksceKernelGetThreadInfo");
}

#[test]
fn sce_check_splits_on_sign() {
    assert_eq!(sce_check(-2147352568, "call"), Err(SceError { code: -2147352568, func: "call" }));
    assert_eq!(sce_check(-1, "call"), Err(SceError { code: -1, func: "call" }));
    assert_eq!(sce_check(0, "call"), Ok(0));
    assert_eq!(sce_check(0x40010003, "call"), Ok(0x40010003));
}

#[test]
fn bridge_status_codes() {
    assert_eq!(bridge_result(1), Err(SceError::new(-1, "fud_bridge_exec")));
    assert_eq!(bridge_result(2), Err(SceError::new(-2, "fud_bridge_exec")));
    assert_eq!(bridge_result(3), Err(SceError::new(-3, "fud_bridge_exec")));
    assert_eq!(bridge_result(0), Ok(0));
    assert_eq!(bridge_result(4), Ok(4));
}

#[test]
fn stream_writer_stores_and_counts() {
    let mut buf = [0u8; 8];
    let mut w = StreamWriter::new(&mut buf, 0);
    assert_eq!(w.written(), 0);
    assert_eq!(w.write_str("abc"), Ok(()));
    assert_eq!(w.write_str("de"), Ok(()));
    assert_eq!(w.written(), 5);
    assert_eq!(w.into_cstr(), Ok(&b"abcde\0"[..]));
}

#[test]
fn stream_writer_skips_a_prefix() {
    let mut buf = [0u8; 4];
    let mut w = StreamWriter::new(&mut buf, 3);
    assert_eq!(w.write_str("ab"), Ok(()));
    assert_eq!(w.written(), 0);
    assert_eq!(w.write_str("cdefgh"), Err(WriteError));
    assert_eq!(w.written(), 4);
    drop(w);
    assert_eq!(&buf, b"defg");
}

#[test]
fn stream_writer_in_pieces_matches_whole() {
    let mut a = [0u8; 5];
    let mut wa = StreamWriter::new(&mut a, 2);
    let _ = wa.write_str("hel");
    let _ = wa.write_str("lo wo");
    let _ = wa.write_str("rld");
    let na = wa.written();
    let mut b = [0u8; 5];
    let mut wb = StreamWriter::new(&mut b, 2);
    let _ = wb.write_str("hello world");
    let nb = wb.written();
    assert_eq!(na, nb);
    assert_eq!(a, b);
    assert_eq!(&a, b"llo w");
}

#[test]
fn stream_writer_full_buffer_has_no_room_for_nul() {
    let mut buf = [0u8; 3];
    let mut w = StreamWriter::new(&mut buf, 0);
    assert_eq!(w.write_str("abc"), Ok(()));
    assert_eq!(w.into_cstr(), Err(CStrError::BufferTooSmall));
}

#[test]
fn stream_writer_rejects_interior_nul() {
    let mut buf = [0u8; 8];
    let mut w = StreamWriter::new(&mut buf, 0);
    assert_eq!(w.write_bytes(b"a\0b"), Ok(()));
    assert_eq!(w.into_cstr(), Err(CStrError::InvalidNul));
}

#[test]
fn argv_writer_builds_nul_separated_items() {
    let mut a = ArgvWriter::new();
    assert_eq!(a.to_slice(), b"");
    assert!(a.add("-titleid", "ABCD12345"));
    assert_eq!(a.to_slice(), b"-titleid\0ABCD12345\0");
}

#[test]
fn argv_writer_refuses_what_does_not_fit() {
    let mut a = ArgvWriter::new();
    // 32 bytes leave no room for the NUL.
    assert!(!a.append(&[b'x'; 32]));
    assert_eq!(a.to_slice(), b"");
    assert!(a.append(&[b'y'; 30]));
    assert_eq!(a.to_slice().len(), 31);
    assert!(!a.append(b"z"));
    assert!(a.append(b""));
    assert_eq!(a.to_slice().len(), 32);
    assert!(!a.append(b""));
}

#[test]
fn argv_writer_keeps_name_when_value_does_not_fit() {
    let mut a = ArgvWriter::new();
    assert!(!a.add("name", "a-value-that-is-far-too-long-to-fit"));
    assert_eq!(a.to_slice(), b"name\0");
}

#[test]
fn nul_terminated_names() {
    assert_eq!(nul_terminated_len(b"abc\0def"), 3);
    assert_eq!(nul_terminated_len(b"abc"), 3);
    assert_eq!(nul_terminated_len(b"\0"), 0);
    assert_eq!(nul_terminated_len(b""), 0);
}

#[test]
fn title_id_text() {
    assert_eq!(TitleId::new().as_str(), "");
    let t = TitleId::from_bytes(b"PCSE00001");
    assert_eq!(t.as_str(), "PCSE00001");
    assert!(t.eq_str("PCSE00001"));
    assert!(!t.eq_str("PCSE0000"));
    assert!(!t.eq_str("PCSE000012"));
}

#[test]
fn title_id_keeps_sixteen_bytes() {
    let t = TitleId::from_bytes(b"0123456789abcdefXYZ");
    assert_eq!(t.as_str(), "0123456789abcdef");
}

#[test]
fn title_id_invalid_utf8_reads_empty() {
    let t = TitleId::from_bytes(&[0x41, 0xff, 0x42]);
    assert_eq!(t.as_str(), "");
    assert!(t.eq_str(""));
}

#[test]
fn title_id_round_trip_of_kernel() {
    let t = TitleId::from_bytes(b"kernel");
    assert!(t.eq_str("kernel"));
    assert_eq!(t, TitleId::from_bytes(b"kernel\0"));
}

#[test]
fn stream_writer_leaves_bytes_in_callers_buffer() {
    let mut b = [0u8; 4];
    let mut w = StreamWriter::new(&mut b, 1);
    assert_eq!(w.write_str("abcdef"), Err(WriteError));
    assert_eq!(w.written(), 4);
    drop(w);
    assert_eq!(&b, b"bcde");
}

#[test]
fn import_stub_resolution() {
    assert_eq!(UNRESOLVED_STUB_WORD, 0xe24fc008);
    assert!(stub_is_unresolved(0xe24fc008));
    assert!(!stub_is_unresolved(0xe12fff1e));
    assert_eq!(stub_word_address(0x8100_1235), 0x8100_1234);
    assert_eq!(stub_word_address(0x8100_1234), 0x8100_1234);
}
