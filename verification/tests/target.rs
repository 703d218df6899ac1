use vita_gdb::armv7::Armv7Regs;
use vita_gdb::next_pc::{MemReader, NextPcError};
use vita_gdb::session::BreakpointKind;
use vita_gdb::target::{
    arm_reg_context, copy_window, launch_plan, single_step_target, try_single_step_target,
    write_library_list, LaunchError, ModuleLayout, ResumeActions, DEFAULT_TITLE_ID,
    STATUS_RUNNING, STATUS_SUSPEND,
};
use vita_gdb::utils::{SceError, StreamWriter};

struct Mem {
    base: usize,
    bytes: Vec<u8>,
}

impl MemReader for Mem {
    fn read(&self, addr: usize, buf: &mut [u8]) -> Option<()> {
        let off = addr.checked_sub(self.base)?;
        let src = self.bytes.get(off..off.checked_add(buf.len())?)?;
        buf.copy_from_slice(src);
        Some(())
    }
}

#[test]
fn launch_by_title_id() {
    let plan = launch_plan(Some(b"PCSE00001")).unwrap();
    assert_eq!(plan.path, b"ux0:app/PCSE00001/eboot.bin\0".to_vec());
    assert_eq!(plan.argv, b"-titleid\0PCSE00001\0".to_vec());
}

#[test]
fn launch_by_path_uses_default_title() {
    let plan = launch_plan(Some(b"ux0:data/test.self")).unwrap();
    assert_eq!(plan.path, b"ux0:data/test.self\0".to_vec());
    assert_eq!(plan.argv, b"-titleid\0MLCL05505\0".to_vec());
    assert_eq!(DEFAULT_TITLE_ID, "MLCL05505");
}

#[test]
fn launch_errors() {
    assert_eq!(launch_plan(None), Err(LaunchError::NoFilename));
    assert_eq!(launch_plan(Some(&[0xc3, 0x28])), Err(LaunchError::InvalidFilename));
    assert_eq!(launch_plan(Some(&[b'a'; 128])), Err(LaunchError::PathTooLong));
    assert_eq!(launch_plan(Some(b"ux0:a\0b")), Err(LaunchError::PathTooLong));
    let longest = [b'a'; 127];
    let plan = launch_plan(Some(&longest)).unwrap();
    assert_eq!(plan.path.len(), 128);
    assert_eq!(plan.path[127], 0);
}

#[test]
fn copy_window_cases() {
    let path = b"ux0:app/ABCD12345/eboot.bin";
    let mut buf = [0xffu8; 8];
    assert_eq!(copy_window(path, 0, 4, &mut buf), 4);
    assert_eq!(&buf, b"ux0:\xff\xff\xff\xff");
    let mut buf = [0u8; 8];
    assert_eq!(copy_window(path, 20, 100, &mut buf), 7);
    assert_eq!(&buf[..7], b"oot.bin");
    assert_eq!(copy_window(path, 27, 100, &mut buf), 0);
    assert_eq!(copy_window(path, 100, 100, &mut buf), 0);
    assert_eq!(copy_window(path, 0, 0, &mut buf), 0);
    let mut empty: [u8; 0] = [];
    assert_eq!(copy_window(path, 0, 10, &mut empty), 0);
}

#[test]
fn resume_actions_record_requests() {
    let mut a = ResumeActions::new();
    assert_eq!(a.step_action(), None);
    assert!(!a.scheduler_lock());
    assert_eq!(a.set_resume_action_step(5, None), Ok(()));
    assert_eq!(a.step_action(), Some(5));
    assert_eq!(
        a.set_resume_action_step(6, Some(9)),
        Err(SceError::new(-1, "set_resume_action_step"))
    );
    assert_eq!(a.step_action(), Some(5));
    assert_eq!(
        a.set_resume_action_continue(7, Some(9)),
        Err(SceError::new(-1, "set_resume_action_continue"))
    );
    a.set_resume_action_scheduler_lock();
    assert!(a.scheduler_lock());
    a.clear_resume_actions();
    assert_eq!(a.step_action(), None);
    assert!(!a.scheduler_lock());
}

#[test]
fn continue_list_holds_sixty_four_threads() {
    let mut a = ResumeActions::new();
    for tid in 0..64 {
        assert_eq!(a.set_resume_action_continue(tid, None), Ok(()));
    }
    assert_eq!(
        a.set_resume_action_continue(64, None),
        Err(SceError::new(-1, "continue_actions full"))
    );
    a.set_resume_action_scheduler_lock();
    assert_eq!(a.resume_thread(63), (STATUS_RUNNING, false));
    assert_eq!(a.resume_thread(64), (STATUS_SUSPEND, false));
    a.clear_resume_actions();
    assert_eq!(a.set_resume_action_continue(64, None), Ok(()));
}

#[test]
fn thread_states_on_resume() {
    let mut a = ResumeActions::new();
    assert_eq!(a.resume_thread(1), (STATUS_RUNNING, false));
    a.set_resume_action_scheduler_lock();
    a.set_resume_action_step(2, None).unwrap();
    a.set_resume_action_continue(3, None).unwrap();
    assert_eq!(a.resume_thread(1), (STATUS_SUSPEND, false));
    assert_eq!(a.resume_thread(3), (STATUS_RUNNING, false));
    assert_eq!(a.resume_thread(2), (STATUS_RUNNING, true));
    // The step is taken once.
    assert_eq!(a.step_action(), None);
    assert_eq!(a.resume_thread(2), (STATUS_SUSPEND, false));
}

#[test]
fn resume_gate() {
    let mut a = ResumeActions::new();
    assert!(!a.should_resume(0x0, false));
    assert!(a.should_resume(0x10, false));
    assert!(!a.should_resume(0x10, true));
    a.set_resume_action_step(1, None).unwrap();
    assert!(a.should_resume(0x1c, true));
}

#[test]
fn reg_context_copies_core_registers() {
    let mut regs = Armv7Regs::default();
    regs.r[3] = 33;
    regs.sp = 1;
    regs.lr = 2;
    regs.pc = 3;
    regs.cpsr = 4;
    let c = arm_reg_context(&regs);
    assert_eq!(c.r[3], 33);
    assert_eq!((c.sp, c.lr, c.pc, c.cpsr), (1, 2, 3, 4));
}

#[test]
fn single_step_arm_branch() {
    // b #0x100 at 0x8100_0000
    let mem = Mem { base: 0x8100_0000, bytes: 0xEA00_0040u32.to_le_bytes().to_vec() };
    let mut regs = Armv7Regs::default();
    regs.pc = 0x8100_0000;
    assert_eq!(single_step_target(&regs, &mem), Ok((0x8100_0108, BreakpointKind::Arm32)));
    assert_eq!(try_single_step_target(&regs, &mem), Some(Ok((0x8100_0108, BreakpointKind::Arm32))));
}

#[test]
fn single_step_thumb_falls_through() {
    // movs r0, r0 in Thumb state
    let mem = Mem { base: 0x8100_0000, bytes: vec![0x00, 0x00, 0x00, 0x00] };
    let mut regs = Armv7Regs::default();
    regs.pc = 0x8100_0000;
    regs.cpsr = 1 << 5;
    assert_eq!(single_step_target(&regs, &mem), Ok((0x8100_0002, BreakpointKind::Thumb16)));
}

#[test]
fn single_step_unreadable_memory() {
    let mem = Mem { base: 0x1000, bytes: vec![] };
    let mut regs = Armv7Regs::default();
    regs.pc = 0x8100_0000;
    assert!(matches!(single_step_target(&regs, &mem), Err(NextPcError::MemoryRead)));
}

fn modules() -> Vec<ModuleLayout> {
    vec![
        ModuleLayout {
            path: b"ux0:app/X/eboot.bin".to_vec(),
            segments: vec![(0x8100_0000, 0x1000), (0x8110_0000, 0x200), (0, 0), (0x9, 1)],
        },
        ModuleLayout { path: b"os0:kd/lib.skprx".to_vec(), segments: vec![(0xe000_0000, 4)] },
    ]
}

const XML: &str = "<library-list version=\"1.0\"><library name=\"ux0:app/X/eboot.bin\"><segment address=\"0x81000000\"/><segment address=\"0x81100000\"/></library><library name=\"os0:kd/lib.skprx\"><segment address=\"0xe0000000\"/></library></library-list>";

#[test]
fn library_list_xml() {
    let mut buf = [0u8; 512];
    let mut w = StreamWriter::new(&mut buf, 0);
    write_library_list(&mut w, &modules());
    let n = w.written();
    assert_eq!(n, XML.len());
    assert_eq!(&buf[..n], XML.as_bytes());
}

#[test]
fn library_list_xml_windows() {
    let mut buf = [0u8; 16];
    let mut w = StreamWriter::new(&mut buf, 30);
    write_library_list(&mut w, &modules());
    assert_eq!(w.written(), 16);
    assert_eq!(&buf, &XML.as_bytes()[30..46]);
    let mut buf = [0u8; 64];
    let mut w = StreamWriter::new(&mut buf, XML.len() - 10);
    write_library_list(&mut w, &modules());
    assert_eq!(w.written(), 10);
    assert_eq!(&buf[..10], &XML.as_bytes()[XML.len() - 10..]);
}

#[test]
fn library_list_small_values_in_hex() {
    let mods = vec![ModuleLayout { path: b"a".to_vec(), segments: vec![(0, 1), (0xf, 1), (0x10, 1)] }];
    let mut buf = [0u8; 256];
    let mut w = StreamWriter::new(&mut buf, 0);
    write_library_list(&mut w, &mods);
    let n = w.written();
    assert_eq!(
        &buf[..n],
        b"<library-list version=\"1.0\"><library name=\"a\"><segment address=\"0x0\"/><segment address=\"0xf\"/><segment address=\"0x10\"/></library></library-list>"
    );
}
