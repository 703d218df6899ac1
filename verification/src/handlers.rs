//! What the abort handlers make of a processor exception: whether a fault
//! status register reports a debug event, whether a data abort was a
//! write, whether the faulting instruction is a breakpoint instruction,
//! and which event the session then records.

use vstd::prelude::*;
use crate::session::{
    take_outcome, ExceptionEvent, ExceptionKind, GdbSessionInner, SwTake,
    WatchKind,
};
use crate::mpsc::queue_push;

verus! {

/// The fault status (FS bits 10 and 3:0 of a DFSR or IFSR) is 0b00010, a
/// debug event.
pub open spec fn spec_fsr_is_debug(fsr: u32) -> bool {
    (((fsr & 0x400) >> 6u32) | (fsr & 0xf)) == 2
}

/// Whether the fault status register value `fsr` reports a debug event.
pub fn fsr_is_debug(fsr: u32) -> (b: bool)
    ensures
        b == spec_fsr_is_debug(fsr),
{
    (((fsr & 0x400) >> 6) | (fsr & 0xF)) == 0x2
}

/// Whether the data fault status `dfsr` reports a write access (WnR, bit 11).
pub fn dfsr_is_write(dfsr: u32) -> (b: bool)
    ensures
        b == (dfsr & 0x800 != 0),
{
    assert((1u32 << 11u32) == 0x800u32) by (bit_vector);
    dfsr & (1 << 11) != 0
}

/// Whether the exception context's saved state (bit 5 of the value the
/// context stores as CPACR) says the faulting code runs in Thumb state.
pub fn is_thumb(cpacr: u32) -> (b: bool)
    ensures
        b == ((cpacr >> 5u32) & 1 != 0),
{
    (cpacr >> 5) & 1 != 0
}

/// The little-endian word formed by four instruction bytes.
pub open spec fn insn_word(insn: Seq<u8>) -> u32 {
    (insn[0] + insn[1] * 0x100 + insn[2] * 0x1_0000 + insn[3] * 0x100_0000) as u32
}

/// `bkpt`: Thumb 0xBExx in the low halfword, or ARM 0xE12xxx7x ignoring
/// the condition and immediate fields.
pub open spec fn spec_is_bkpt(word: u32, thumb: bool) -> bool {
    if thumb {
        word & 0xff00 == 0xbe00
    } else {
        word & 0x0ff0_00f0 == 0x0120_0070
    }
}

/// Whether the instruction bytes `insn` hold a breakpoint instruction.
pub fn is_bkpt(insn: &[u8; 4], thumb: bool) -> (b: bool)
    ensures
        b == spec_is_bkpt(insn_word(insn@), thumb),
{
    let word: u32 = insn[0] as u32 + insn[1] as u32 * 0x100 + insn[2] as u32 * 0x1_0000 + insn[3] as u32
        * 0x100_0000;
    if thumb {
        let half = word as u16;
        assert((half & 0xff00u16 == 0xbe00u16) == (word & 0xff00u32 == 0xbe00u32)) by (bit_vector)
            requires
                half == word as u16,
        ;
        half & 0xff00 == 0xbe00
    } else {
        word & 0x0ff0_00f0 == 0x0120_0070
    }
}

/// How an abort is handled.
#[derive(Debug, Clone, Copy, PartialEq, Eq, Structural)]
pub enum AbortClass {
    /// A breakpoint or single step hit.
    Break,
    /// A watchpoint hit.
    Watch,
    /// A fault reported to GDB as a signal, with the fault address.
    Fault(ExceptionKind, u32),
}

/// A prefetch abort with status `ifsr` at address `ifar`: a debug event is
/// a breakpoint, anything else a fault.
pub fn classify_prefetch_abort(ifsr: u32, ifar: u32) -> (c: AbortClass)
    ensures
        c == (if spec_fsr_is_debug(ifsr) {
            AbortClass::Break
        } else {
            AbortClass::Fault(ExceptionKind::Pabt, ifar)
        }),
{
    if fsr_is_debug(ifsr) {
        AbortClass::Break
    } else {
        AbortClass::Fault(ExceptionKind::Pabt, ifar)
    }
}

/// A data abort with status `dfsr` at address `dfar`: a debug event is a
/// watchpoint, anything else a fault.
pub fn classify_data_abort(dfsr: u32, dfar: u32) -> (c: AbortClass)
    ensures
        c == (if spec_fsr_is_debug(dfsr) {
            AbortClass::Watch
        } else {
            AbortClass::Fault(ExceptionKind::Dabt, dfar)
        }),
{
    if fsr_is_debug(dfsr) {
        AbortClass::Watch
    } else {
        AbortClass::Fault(ExceptionKind::Dabt, dfar)
    }
}

/// The event for a watchpoint hit by thread `tid` at `dfar`: a write when
/// the status says so, else a read. `None` when no watchpoint is armed at
/// `dfar` (the abort is then not handled).
pub fn watch_event(session: &GdbSessionInner, tid: i32, dfar: u32, dfsr: u32) -> (e: Option<ExceptionEvent>)
    requires
        session.wf(),
    ensures
        e == (if crate::session::hw_wp_at(session.hw_wps(), dfar) {
            Some(ExceptionEvent::Watch {
                tid,
                addr: dfar,
                kind: if dfsr & 0x800 != 0 {
                    WatchKind::Write
                } else {
                    WatchKind::Read
                },
            })
        } else {
            None
        }),
{
    if !session.has_watchpoint(dfar) {
        return None;
    }
    let kind = if dfsr_is_write(dfsr) {
        WatchKind::Write
    } else {
        WatchKind::Read
    };
    Some(ExceptionEvent::Watch { tid, addr: dfar, kind })
}

/// What a breakpoint hit did to the session.
#[derive(Debug, Clone, PartialEq, Eq)]
pub enum BreakOutcome {
    /// The pending single step completed: the step breakpoint comes out
    /// (restore it as told) and the worker's flag is raised.
    StepFinished(SwTake, i32),
    /// An event was queued for the worker: raise its flag; `false` when
    /// the queue was full and the event was lost.
    Queued(i32, bool),
    /// The session has no worker; the event was dropped.
    Dropped,
}

/// The event a breakpoint hit at a non-step address reports: a software
/// breakpoint when the faulting instruction is `bkpt`, else a hardware one.
pub open spec fn break_event(tid: i32, insn: Seq<u8>, thumb: bool) -> ExceptionEvent {
    if spec_is_bkpt(insn_word(insn), thumb) {
        ExceptionEvent::SwBreak { tid }
    } else {
        ExceptionEvent::HwBreak { tid }
    }
}

/// The pending single step `step` stops at `addr`.
pub open spec fn is_step_hit(step: Option<(i32, u32)>, addr: u32) -> bool {
    step is Some && step->Some_0.1 == addr
}

/// Records a breakpoint hit of thread `tid` at `fault_addr`, whose
/// instruction bytes are `insn`: the end of the pending single step when
/// it stops there, else a software or hardware breakpoint event.
pub fn handle_break(
    session: &mut GdbSessionInner,
    tid: i32,
    fault_addr: u32,
    insn: &[u8; 4],
    thumb: bool,
) -> (o: BreakOutcome)
    requires
        old(session).wf(),
        old(session).pending_step() is Some ==> old(session).flag() is Some,
    ensures
        final(session).wf(),
        is_step_hit(old(session).pending_step(), fault_addr) ==> {
            &&& o matches BreakOutcome::StepFinished(take, f)
            &&& Some(f) == old(session).flag()
            &&& take_outcome(old(session).raw_pid(), old(session).sw_bps(), fault_addr, take, final(session).sw_bps())
            &&& final(session).finished_step() == Some(old(session).pending_step()->Some_0.0)
            &&& final(session).pending_step() is None
            &&& final(session).events() == old(session).events()
        },
        !is_step_hit(old(session).pending_step(), fault_addr) ==> {
            &&& final(session).sw_bps() == old(session).sw_bps()
            &&& final(session).pending_step() == old(session).pending_step()
            &&& match old(session).flag() {
                None => o == BreakOutcome::Dropped && final(session).events() == old(session).events(),
                Some(f) => o matches BreakOutcome::Queued(g, queued) && g == f && (queued, final(session).events())
                    == queue_push(old(session).events(), 7, break_event(tid, insn@, thumb)),
            }
        },
        final(session).hw_bps() == old(session).hw_bps(),
        final(session).hw_wps() == old(session).hw_wps(),
        final(session).raw_pid() == old(session).raw_pid(),
        final(session).flag() == old(session).flag(),
{
    if session.is_step(fault_addr) {
        match session.step_finished() {
            Some((take, f)) => BreakOutcome::StepFinished(take, f),
            None => {
                BreakOutcome::Dropped
            },
        }
    } else {
        let event = if is_bkpt(insn, thumb) {
            ExceptionEvent::SwBreak { tid }
        } else {
            ExceptionEvent::HwBreak { tid }
        };
        match session.push_excp(event) {
            Some((f, queued)) => BreakOutcome::Queued(f, queued),
            None => BreakOutcome::Dropped,
        }
    }
}

} // verus!
