use vita_gdb::session::{
    bp_control, breakpoint_patch, claim_session, find_session_for_pid, is_shared_address,
    stop_reason_from, wp_control, BreakpointKind, DebugRegWrite, ExceptionEvent, ExceptionKind,
    GdbSessionInner, SlotPlan, StopReason, SwClaim, SwTake, WatchKind, PID_UNUSED, SIGBUS,
    SIGILL, SIGSEGV, SIGTRAP,
};

fn attached(pid: i32) -> GdbSessionInner {
    let mut s = GdbSessionInner::uninit();
    assert!(s.claim(7, pid));
    s
}

fn set_hw_bp(s: &mut GdbSessionInner, addr: u32) -> SlotPlan {
    let plan = s.plan_set_hw_breakpoint(addr);
    if let SlotPlan::Write(w) = plan {
        s.commit_set_hw_breakpoint(w);
    }
    plan
}

#[test]
fn control_words() {
    assert_eq!(bp_control(), 0x41e7);
    assert_eq!(wp_control(WatchKind::Read), 0x41eb);
    assert_eq!(wp_control(WatchKind::Write), 0x41f3);
    assert_eq!(wp_control(WatchKind::ReadWrite), 0x41fb);
}

#[test]
fn shared_address_region() {
    assert!(!is_shared_address(0xDFFF_FFFF));
    assert!(is_shared_address(0xE000_0000));
    assert!(is_shared_address(0xEFFF_FFFF));
    assert!(!is_shared_address(0xF000_0000));
}

#[test]
fn breakpoint_instructions() {
    assert_eq!(breakpoint_patch(BreakpointKind::Thumb16), vec![0x00, 0xbe]);
    assert_eq!(breakpoint_patch(BreakpointKind::Arm32), vec![0x70, 0x00, 0x20, 0xe1]);
    assert_eq!(breakpoint_patch(BreakpointKind::Thumb32), vec![0x70, 0x00, 0x20, 0xe1]);
}

#[test]
fn uninit_session_is_detached() {
    let s = GdbSessionInner::uninit();
    assert_eq!(s.pid(), None);
    assert_eq!(s.evflag(), None);
    assert!(!s.has_excp());
    let d = s.dump_state();
    assert_eq!(d.pid, None);
    assert!(d.hw_breakpoints.is_empty());
    assert!(d.hw_watchpoints.is_empty());
    assert!(d.sw_breakpoints.is_empty());
}

#[test]
fn claim_only_once() {
    let mut s = GdbSessionInner::uninit();
    assert!(s.claim(3, 0x40010003));
    assert_eq!(s.pid(), Some(0x40010003));
    assert_eq!(s.evflag(), Some(3));
    assert!(!s.claim(4, 0x50));
    assert_eq!(s.pid(), Some(0x40010003));
    assert_eq!(s.evflag(), Some(3));
}

#[test]
fn hw_breakpoint_set_and_clear_round_trip() {
    let mut s = attached(100);
    assert_eq!(
        set_hw_bp(&mut s, 0x8100_0000),
        SlotPlan::Write(DebugRegWrite { index: 0, addr: 0x8100_0000, control: 0x41e7 })
    );
    assert_eq!(
        set_hw_bp(&mut s, 0x8100_0010),
        SlotPlan::Write(DebugRegWrite { index: 1, addr: 0x8100_0010, control: 0x41e7 })
    );
    // Setting an armed address again has nothing to do.
    assert_eq!(set_hw_bp(&mut s, 0x8100_0000), SlotPlan::Done);
    assert_eq!(s.dump_state().hw_breakpoints.to_vec(), vec![0x8100_0000, 0x8100_0010]);

    let plan = s.plan_clear_hw_breakpoint(0x8100_0000);
    assert_eq!(plan, SlotPlan::Write(DebugRegWrite { index: 0, addr: 0, control: 0 }));
    s.commit_clear_hw_breakpoint(0);
    assert_eq!(s.dump_state().hw_breakpoints.to_vec(), vec![0x8100_0010]);
    assert_eq!(s.plan_clear_hw_breakpoint(0x8100_0000), SlotPlan::NoSlot);

    // The freed slot is the lowest free one again.
    assert_eq!(
        s.plan_set_hw_breakpoint(0x8100_0020),
        SlotPlan::Write(DebugRegWrite { index: 0, addr: 0x8100_0020, control: 0x41e7 })
    );
}

#[test]
fn hw_breakpoint_slots_run_out() {
    let mut s = attached(100);
    for i in 0..6u32 {
        assert!(matches!(set_hw_bp(&mut s, 0x1000 + 4 * i), SlotPlan::Write(_)));
    }
    assert_eq!(s.plan_set_hw_breakpoint(0x2000), SlotPlan::NoSlot);
    assert_eq!(s.plan_set_hw_breakpoint(0x1004), SlotPlan::Done);
}

#[test]
fn hw_watchpoint_first_set_and_clear() {
    let mut s = attached(100);
    let plan = s.plan_set_hw_watchpoint(0x8200_0000, WatchKind::Write);
    assert_eq!(
        plan,
        SlotPlan::Write(DebugRegWrite { index: 0, addr: 0x8200_0000, control: 0x41f3 })
    );
    if let SlotPlan::Write(w) = plan {
        s.commit_set_hw_watchpoint(w, WatchKind::Write);
    }
    assert!(s.has_watchpoint(0x8200_0000));
    assert!(!s.has_watchpoint(0x8200_0004));
    assert_eq!(
        s.plan_clear_hw_watchpoint(0x8200_0000),
        SlotPlan::Write(DebugRegWrite { index: 0, addr: 0, control: 0 })
    );
    s.commit_clear_hw_watchpoint(0);
    assert!(!s.has_watchpoint(0x8200_0000));
    assert_eq!(s.plan_clear_hw_watchpoint(0x8200_0000), SlotPlan::NoSlot);
}

#[test]
fn hw_watchpoint_second_request_rearms_first_slot() {
    let mut s = attached(100);
    if let SlotPlan::Write(w) = s.plan_set_hw_watchpoint(0x100, WatchKind::Read) {
        s.commit_set_hw_watchpoint(w, WatchKind::Read);
    }
    // Same kind: nothing to do, whatever the address.
    assert_eq!(s.plan_set_hw_watchpoint(0x200, WatchKind::Read), SlotPlan::Done);
    // Another kind: slot 0 is re-armed for the new address, its record
    // keeps the first address.
    let plan = s.plan_set_hw_watchpoint(0x200, WatchKind::ReadWrite);
    assert_eq!(plan, SlotPlan::Write(DebugRegWrite { index: 0, addr: 0x200, control: 0x41fb }));
    if let SlotPlan::Write(w) = plan {
        s.commit_set_hw_watchpoint(w, WatchKind::ReadWrite);
    }
    assert!(s.has_watchpoint(0x100));
    assert!(!s.has_watchpoint(0x200));
    assert_eq!(s.dump_state().hw_watchpoints.to_vec(), vec![0x100]);
}

#[test]
fn sw_breakpoint_prepare_refusals() {
    let detached = GdbSessionInner::uninit();
    assert_eq!(detached.prepare_sw_breakpoint(0x8100_0000, BreakpointKind::Arm32), None);
    let s = attached(42);
    assert_eq!(s.prepare_sw_breakpoint(0xE000_1000, BreakpointKind::Arm32), None);
    assert_eq!(s.prepare_sw_breakpoint(0x8100_0000, BreakpointKind::Arm32), Some((42, 4)));
    assert_eq!(s.prepare_sw_breakpoint(0x8100_0000, BreakpointKind::Thumb16), Some((42, 2)));
}

#[test]
fn sw_breakpoint_round_trip_restores_saved_bytes() {
    let mut s = attached(42);
    let orig = [0x01, 0x02, 0x03, 0x04];
    assert_eq!(s.claim_sw_breakpoint(0x8100_0100, orig, 4), SwClaim::Claimed(0));
    assert_eq!(s.claim_sw_breakpoint(0x8100_0100, [9; 4], 4), SwClaim::AlreadySet);
    assert_eq!(s.claim_sw_breakpoint(0x8100_0200, [0x10, 0x20, 0, 0], 2), SwClaim::Claimed(1));
    assert_eq!(s.dump_state().sw_breakpoints.to_vec(), vec![0x8100_0100, 0x8100_0200]);

    assert_eq!(
        s.take_sw_breakpoint(0x8100_0100),
        SwTake::Restore { pid: 42, addr: 0x8100_0100, bytes: vec![1, 2, 3, 4] }
    );
    assert_eq!(
        s.take_sw_breakpoint(0x8100_0200),
        SwTake::Restore { pid: 42, addr: 0x8100_0200, bytes: vec![0x10, 0x20] }
    );
    assert_eq!(s.take_sw_breakpoint(0x8100_0200), SwTake::NotFound);
    assert!(s.dump_state().sw_breakpoints.is_empty());
}

#[test]
fn sw_breakpoint_release_after_failed_patch() {
    let mut s = attached(42);
    assert_eq!(s.claim_sw_breakpoint(0x500, [0; 4], 4), SwClaim::Claimed(0));
    s.release_sw_breakpoint(0);
    assert!(s.dump_state().sw_breakpoints.is_empty());
    assert_eq!(s.claim_sw_breakpoint(0x500, [0; 4], 4), SwClaim::Claimed(0));
}

#[test]
fn sw_breakpoint_failed_set_keeps_table() {
    let mut s = attached(42);
    assert_eq!(s.claim_sw_breakpoint(0x600, [1; 4], 4), SwClaim::Claimed(0));
    let before = s.dump_state().sw_breakpoints;
    if let SwClaim::Claimed(i) = s.claim_sw_breakpoint(0x700, [2; 4], 2) {
        assert_eq!(i, 1);
        s.release_sw_breakpoint(i);
    } else {
        panic!("slot expected");
    }
    assert_eq!(s.dump_state().sw_breakpoints, before);
    assert_eq!(
        s.take_sw_breakpoint(0x600),
        SwTake::Restore { pid: 42, addr: 0x600, bytes: vec![1, 1, 1, 1] }
    );
}

#[test]
fn sw_breakpoint_slots_run_out() {
    let mut s = attached(42);
    for i in 0..16u32 {
        assert_eq!(s.claim_sw_breakpoint(0x1000 + 4 * i, [0; 4], 4), SwClaim::Claimed(i as usize));
    }
    assert_eq!(s.claim_sw_breakpoint(0x2000, [0; 4], 4), SwClaim::Full);
}

#[test]
fn take_sw_breakpoint_needs_a_process() {
    let mut s = GdbSessionInner::uninit();
    assert_eq!(s.take_sw_breakpoint(0x100), SwTake::NoProcess);
}

#[test]
fn step_lifecycle() {
    let mut s = attached(42);
    assert_eq!(s.claim_sw_breakpoint(0x8100_0008, [0xaa, 0xbb, 0xcc, 0xdd], 4), SwClaim::Claimed(0));
    s.set_step(0x4001_0005, 0x8100_0008);
    assert!(s.is_step(0x8100_0008));
    assert!(!s.is_step(0x8100_000c));
    let (take, flag) = s.step_finished().unwrap();
    assert_eq!(flag, 7);
    assert_eq!(take, SwTake::Restore { pid: 42, addr: 0x8100_0008, bytes: vec![0xaa, 0xbb, 0xcc, 0xdd] });
    assert!(!s.is_step(0x8100_0008));
    assert_eq!(s.step_finished(), None);
    assert_eq!(s.pop_step_finished(), Some(0x4001_0005));
    assert_eq!(s.pop_step_finished(), None);
}

#[test]
fn exception_queue_is_fifo_and_bounded() {
    let mut s = attached(42);
    for tid in 0..7 {
        assert_eq!(s.push_excp(ExceptionEvent::HwBreak { tid }), Some((7, true)));
    }
    assert_eq!(s.push_excp(ExceptionEvent::HwBreak { tid: 99 }), Some((7, false)));
    for tid in 0..7 {
        assert!(s.has_excp());
        assert_eq!(s.pop_excp(), Some(ExceptionEvent::HwBreak { tid }));
    }
    assert!(!s.has_excp());
    assert_eq!(s.pop_excp(), None);
}

#[test]
fn events_without_worker_are_dropped() {
    let mut s = GdbSessionInner::uninit();
    assert_eq!(s.push_excp(ExceptionEvent::SwBreak { tid: 1 }), None);
    assert!(!s.has_excp());
    assert_eq!(s.push_exited(), None);
    assert!(!s.pop_exited());
}

#[test]
fn exit_notice_is_taken_once() {
    let mut s = attached(42);
    assert_eq!(s.push_exited(), Some(7));
    assert!(s.pop_exited());
    assert!(!s.pop_exited());
}

#[test]
fn stop_reasons_of_events() {
    assert_eq!(stop_reason_from(ExceptionEvent::HwBreak { tid: 5 }), StopReason::HwBreak(5));
    assert_eq!(stop_reason_from(ExceptionEvent::SwBreak { tid: 6 }), StopReason::SwBreak(6));
    assert_eq!(
        stop_reason_from(ExceptionEvent::Watch { tid: 7, addr: 0x10, kind: WatchKind::Write }),
        StopReason::Watch { tid: 7, kind: WatchKind::Write, addr: 0x10 }
    );
    assert_eq!(
        stop_reason_from(ExceptionEvent::Exception { tid: 8, kind: ExceptionKind::Dabt }),
        StopReason::SignalWithThread { tid: 8, signal: SIGSEGV }
    );
    assert_eq!(
        stop_reason_from(ExceptionEvent::Exception { tid: 8, kind: ExceptionKind::Pabt }),
        StopReason::SignalWithThread { tid: 8, signal: SIGBUS }
    );
    assert_eq!(
        stop_reason_from(ExceptionEvent::Exception { tid: 8, kind: ExceptionKind::Undef }),
        StopReason::SignalWithThread { tid: 8, signal: SIGILL }
    );
    assert_eq!((SIGSEGV, SIGBUS, SIGILL, SIGTRAP), (11, 10, 4, 5));
}

#[test]
fn poll_stop_priority() {
    let mut s = attached(42);
    s.push_excp(ExceptionEvent::SwBreak { tid: 3 });
    s.set_step(9, 0x100);
    s.step_finished();
    s.push_exited();
    assert_eq!(s.poll_stop(), Some(StopReason::Exited(0)));
    assert_eq!(s.poll_stop(), Some(StopReason::SignalWithThread { tid: 9, signal: SIGTRAP }));
    assert_eq!(s.poll_stop(), Some(StopReason::SwBreak(3)));
    assert_eq!(s.poll_stop(), None);
}

#[test]
fn clear_all_lists_what_to_undo() {
    let mut s = attached(42);
    set_hw_bp(&mut s, 0x10);
    set_hw_bp(&mut s, 0x20);
    if let SlotPlan::Write(w) = s.plan_set_hw_watchpoint(0x30, WatchKind::Read) {
        s.commit_set_hw_watchpoint(w, WatchKind::Read);
    }
    s.claim_sw_breakpoint(0x40, [1, 2, 3, 4], 4);
    let c = s.clear_all();
    assert_eq!(c.pid, 42);
    assert_eq!(c.hw_breakpoint_slots, vec![0, 1]);
    assert_eq!(c.hw_watchpoint_slots, vec![0]);
    assert_eq!(c.restores.len(), 1);
    assert_eq!(c.restores[0].addr, 0x40);
    assert_eq!(c.restores[0].orig, [1, 2, 3, 4]);
    let d = s.dump_state();
    assert!(d.hw_breakpoints.is_empty());
    assert!(d.sw_breakpoints.is_empty());
    // Watchpoint records stay.
    assert_eq!(d.hw_watchpoints.to_vec(), vec![0x30]);
}

#[test]
fn reset_detaches() {
    let mut s = attached(42);
    set_hw_bp(&mut s, 0x10);
    s.push_excp(ExceptionEvent::HwBreak { tid: 1 });
    assert_eq!(s.reset(), Some(7));
    assert_eq!(s.pid(), None);
    assert_eq!(s.evflag(), None);
    assert!(!s.has_excp());
    assert!(s.dump_state().hw_breakpoints.is_empty());
    assert!(s.claim(8, 43));
}

#[test]
fn session_pool_claims_first_free_slot() {
    let mut pool: Vec<GdbSessionInner> = (0..4).map(|_| GdbSessionInner::uninit()).collect();
    assert_eq!(claim_session(&mut pool, 1, 100), Some(0));
    assert_eq!(claim_session(&mut pool, 2, 200), Some(1));
    assert_eq!(find_session_for_pid(&pool, 200), Some(1));
    assert_eq!(find_session_for_pid(&pool, 300), None);
    assert_eq!(find_session_for_pid(&pool, PID_UNUSED), Some(2));
    pool[0].reset();
    assert_eq!(claim_session(&mut pool, 3, 300), Some(0));
    assert_eq!(claim_session(&mut pool, 4, 400), Some(2));
    assert_eq!(claim_session(&mut pool, 5, 500), Some(3));
    assert_eq!(claim_session(&mut pool, 6, 600), None);
    assert_eq!(pool[3].evflag(), Some(5));
}
