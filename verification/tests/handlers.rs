use vita_gdb::handlers::{
    classify_data_abort, classify_prefetch_abort, dfsr_is_write, fsr_is_debug, handle_break,
    is_bkpt, is_thumb, watch_event, AbortClass, BreakOutcome,
};
use vita_gdb::session::{
    DebugRegWrite, ExceptionEvent, ExceptionKind, GdbSessionInner, SlotPlan, SwClaim, SwTake,
    WatchKind,
};

#[test]
fn debug_event_status() {
    assert!(fsr_is_debug(0x2));
    assert!(fsr_is_debug(0x802));
    assert!(!fsr_is_debug(0x402));
    assert!(!fsr_is_debug(0x5));
    assert!(!fsr_is_debug(0x0));
}

#[test]
fn write_access_bit() {
    assert!(dfsr_is_write(0x800));
    assert!(dfsr_is_write(0x802));
    assert!(!dfsr_is_write(0x002));
}

#[test]
fn thumb_bit() {
    assert!(is_thumb(0x20));
    assert!(!is_thumb(0x10));
}

#[test]
fn breakpoint_instruction_detection() {
    assert!(is_bkpt(&[0x00, 0xbe, 0x00, 0x00], true));
    assert!(is_bkpt(&[0x12, 0xbe, 0xff, 0xff], true));
    assert!(!is_bkpt(&[0x00, 0xbf, 0x00, 0x00], true));
    assert!(is_bkpt(&[0x70, 0x00, 0x20, 0xe1], false));
    assert!(is_bkpt(&[0x7f, 0xff, 0x2f, 0x01], false));
    assert!(!is_bkpt(&[0x00, 0x00, 0xa0, 0xe1], false));
    assert!(!is_bkpt(&[0x00, 0xbe, 0x00, 0x00], false));
}

#[test]
fn abort_classes() {
    assert_eq!(classify_prefetch_abort(0x2, 0x100), AbortClass::Break);
    assert_eq!(classify_prefetch_abort(0x5, 0x100), AbortClass::Fault(ExceptionKind::Pabt, 0x100));
    assert_eq!(classify_data_abort(0x802, 0x200), AbortClass::Watch);
    assert_eq!(classify_data_abort(0x7, 0x200), AbortClass::Fault(ExceptionKind::Dabt, 0x200));
}

#[test]
fn watch_events() {
    let mut s = GdbSessionInner::uninit();
    s.claim(1, 2);
    assert_eq!(watch_event(&s, 5, 0x300, 0x802), None);
    let plan = s.plan_set_hw_watchpoint(0x300, WatchKind::ReadWrite);
    assert_eq!(plan, SlotPlan::Write(DebugRegWrite { index: 0, addr: 0x300, control: 0x41fb }));
    if let SlotPlan::Write(w) = plan {
        s.commit_set_hw_watchpoint(w, WatchKind::ReadWrite);
    }
    assert_eq!(
        watch_event(&s, 5, 0x300, 0x802),
        Some(ExceptionEvent::Watch { tid: 5, addr: 0x300, kind: WatchKind::Write })
    );
    assert_eq!(
        watch_event(&s, 5, 0x300, 0x002),
        Some(ExceptionEvent::Watch { tid: 5, addr: 0x300, kind: WatchKind::Read })
    );
}

#[test]
fn break_hits() {
    let mut s = GdbSessionInner::uninit();
    s.claim(3, 42);
    assert_eq!(handle_break(&mut s, 10, 0x1000, &[0x70, 0x00, 0x20, 0xe1], false), BreakOutcome::Queued(3, true));
    assert_eq!(handle_break(&mut s, 11, 0x2000, &[0x00, 0x00, 0xa0, 0xe1], false), BreakOutcome::Queued(3, true));
    assert_eq!(s.pop_excp(), Some(ExceptionEvent::SwBreak { tid: 10 }));
    assert_eq!(s.pop_excp(), Some(ExceptionEvent::HwBreak { tid: 11 }));

    assert_eq!(s.claim_sw_breakpoint(0x3000, [1, 2, 0, 0], 2), SwClaim::Claimed(0));
    s.set_step(12, 0x3000);
    assert_eq!(
        handle_break(&mut s, 12, 0x3000, &[0x00, 0xbe, 0, 0], true),
        BreakOutcome::StepFinished(SwTake::Restore { pid: 42, addr: 0x3000, bytes: vec![1, 2] }, 3)
    );
    assert_eq!(s.pop_step_finished(), Some(12));
    assert!(!s.has_excp());
}

#[test]
fn break_without_worker_is_dropped() {
    let mut s = GdbSessionInner::uninit();
    assert_eq!(handle_break(&mut s, 1, 0x10, &[0; 4], false), BreakOutcome::Dropped);
}
