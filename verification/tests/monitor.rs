use vita_gdb::monitor::{parse_monitor_cmd, parse_num, parse_pid, parse_u32, tokenize, MonitorCmd};

#[test]
fn numbers() {
    assert_eq!(parse_num("16"), Some(16));
    assert_eq!(parse_num("0x10"), Some(16));
    assert_eq!(parse_num("0xfFfFfFfF"), Some(u32::MAX));
    assert_eq!(parse_num("4294967295"), Some(u32::MAX));
    assert_eq!(parse_num("4294967296"), None);
    assert_eq!(parse_num("0x100000000"), None);
    assert_eq!(parse_num("+7"), Some(7));
    assert_eq!(parse_num("0x+a"), Some(10));
    assert_eq!(parse_num("0X10"), None);
    assert_eq!(parse_num("0x"), None);
    assert_eq!(parse_num("+"), None);
    assert_eq!(parse_num(""), None);
    assert_eq!(parse_num("-1"), None);
    assert_eq!(parse_num("12a"), None);
    assert_eq!(parse_num("007"), Some(7));
}

#[test]
fn radix_parse() {
    assert_eq!(parse_u32(b"zz", 36), Some(35 * 36 + 35));
    assert_eq!(parse_u32(b"102", 2), None);
    assert_eq!(parse_u32(b"101", 2), Some(5));
}

#[test]
fn pids() {
    assert_eq!(parse_pid(b"42"), Some(42));
    assert_eq!(parse_pid(b"+42"), Some(42));
    assert_eq!(parse_pid(b"-42"), Some(-42));
    assert_eq!(parse_pid(b"2147483647"), Some(i32::MAX));
    assert_eq!(parse_pid(b"2147483648"), None);
    assert_eq!(parse_pid(b"-2147483648"), Some(i32::MIN));
    assert_eq!(parse_pid(b"-2147483649"), None);
    assert_eq!(parse_pid(b"-"), None);
    assert_eq!(parse_pid(b""), None);
    assert_eq!(parse_pid(b"PCSE00001"), None);
}

#[test]
fn tokens() {
    assert_eq!(tokenize(b"  ls\tthread \n 123  "), vec![(2, 4), (5, 11), (14, 17)]);
    assert_eq!(tokenize(b""), vec![]);
    assert_eq!(tokenize(b" \r\x0c "), vec![]);
    assert_eq!(tokenize(b"a"), vec![(0, 1)]);
}

#[test]
fn commands() {
    assert_eq!(parse_monitor_cmd(b""), MonitorCmd::Help);
    assert_eq!(parse_monitor_cmd(b"help"), MonitorCmd::Help);
    assert_eq!(parse_monitor_cmd(b"dump"), MonitorCmd::Dump);
    assert_eq!(parse_monitor_cmd(b"ps"), MonitorCmd::LsProcess);
    assert_eq!(parse_monitor_cmd(b"ls process"), MonitorCmd::LsProcess);
    assert_eq!(parse_monitor_cmd(b"info process"), MonitorCmd::LsProcess);
    assert_eq!(parse_monitor_cmd(b"ls thread"), MonitorCmd::LsThread(None));
    assert_eq!(parse_monitor_cmd(b"ls thread PCSE00001"), MonitorCmd::LsThread(Some((10, 19))));
    assert_eq!(parse_monitor_cmd(b"info  thread 66"), MonitorCmd::LsThread(Some((13, 15))));
    assert_eq!(parse_monitor_cmd(b"ls module 5"), MonitorCmd::LsModule(Some((10, 11))));
    assert_eq!(parse_monitor_cmd(b"ls"), MonitorCmd::LsUsage);
    assert_eq!(parse_monitor_cmd(b"ls files"), MonitorCmd::LsUsage);
    assert_eq!(parse_monitor_cmd(b"info module"), MonitorCmd::InfoUsage);
    assert_eq!(parse_monitor_cmd(b"nid"), MonitorCmd::NidUsage);
    assert_eq!(parse_monitor_cmd(b"nid xyz"), MonitorCmd::NidInvalid(4, 7));
    assert_eq!(parse_monitor_cmd(b"nid 0x1234ABCD"), MonitorCmd::Nid(0x1234abcd));
    assert_eq!(parse_monitor_cmd(b"peek"), MonitorCmd::PeekUsage);
    assert_eq!(parse_monitor_cmd(b"peek zz"), MonitorCmd::PeekInvalid);
    assert_eq!(parse_monitor_cmd(b"peek 0x1000"), MonitorCmd::Peek { addr: 0x1000, secure: false });
    assert_eq!(parse_monitor_cmd(b"peek 0x1000 S"), MonitorCmd::Peek { addr: 0x1000, secure: true });
    assert_eq!(parse_monitor_cmd(b"peek 0x1000 s"), MonitorCmd::PeekUsage);
    assert_eq!(parse_monitor_cmd(b"poke 0x10"), MonitorCmd::PokeUsage);
    assert_eq!(parse_monitor_cmd(b"poke 0x10 q"), MonitorCmd::PokeInvalid);
    assert_eq!(parse_monitor_cmd(b"poke 0x10 7"), MonitorCmd::Poke { dst: 0x10, value: 7, secure: false });
    assert_eq!(parse_monitor_cmd(b"poke 0x10 7 S"), MonitorCmd::Poke { dst: 0x10, value: 7, secure: true });
    assert_eq!(parse_monitor_cmd(b"poke 0x10 7 X"), MonitorCmd::PokeFlagUsage);
    assert_eq!(parse_monitor_cmd(&[0x70, 0x73, 0xff]), MonitorCmd::NotUtf8);
}
