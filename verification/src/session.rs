//! Per-process debug session state: the hardware breakpoint and watchpoint
//! slots, the software breakpoints with the instruction bytes they replaced,
//! the pending single step and the queue of exceptions reported by the
//! abort handlers.
//!
//! Programming a debug register or patching process memory is done by the
//! caller. Each operation that needs it is split in two: a `plan_*` (or
//! `claim_*` / `take_*`) method decides what has to be written, and a
//! `commit_*` method records the outcome once the write went through.

use vstd::prelude::*;
use crate::mpsc::{MpscRing, queue_pop, queue_push};
use arrayvec::ArrayVec;

verus! {

/// Raw pid of a session slot that is not attached to a process.
pub const PID_UNUSED: i32 = -1;

/// Event flag bit that wakes the session worker.
pub const EV_WAKE_WORKER: u32 = 1;

/// Event flag bit that wakes the network reader.
pub const EV_WAKE_READER: u32 = 2;

/// Event flag bit raised when the launched process has started.
pub const EV_PROCESS_STARTED: u32 = 16;

/// Number of hardware breakpoint slots.
pub const HW_BREAKPOINT_SLOTS: usize = 6;

/// Number of hardware watchpoint slots.
pub const HW_WATCHPOINT_SLOTS: usize = 3;

/// Number of software breakpoint slots.
pub const SW_BREAKPOINT_SLOTS: usize = 16;

/// Number of session slots.
pub const MAX_SESSIONS: usize = 4;

/// Signal numbers of the GDB remote protocol.
pub const SIGINT: u8 = 2;
pub const SIGILL: u8 = 4;
pub const SIGTRAP: u8 = 5;
pub const SIGBUS: u8 = 10;
pub const SIGSEGV: u8 = 11;

/// Kind of access that triggers a watchpoint.
#[derive(Debug, Clone, Copy, PartialEq, Eq, Structural)]
pub enum WatchKind {
    Write,
    Read,
    ReadWrite,
}

/// Kind of software breakpoint instruction GDB asks for on ARM.
#[derive(Debug, Clone, Copy, PartialEq, Eq, Structural)]
pub enum BreakpointKind {
    Thumb16,
    Thumb32,
    Arm32,
}

/// Processor exception that stopped a thread.
#[derive(Debug, Clone, Copy, PartialEq, Eq, Structural)]
pub enum ExceptionKind {
    Dabt,
    Pabt,
    Undef,
}

/// What an abort handler reports to the session worker.
#[derive(Debug, Clone, Copy, PartialEq, Eq, Structural)]
pub enum ExceptionEvent {
    HwBreak { tid: i32 },
    SwBreak { tid: i32 },
    Watch { tid: i32, addr: u32, kind: WatchKind },
    Exception { tid: i32, kind: ExceptionKind },
}

/// Why a thread or the process stopped, as reported to GDB.
#[derive(Debug, Clone, Copy, PartialEq, Eq, Structural)]
pub enum StopReason {
    Exited(u8),
    Signal(u8),
    SignalWithThread { tid: i32, signal: u8 },
    HwBreak(i32),
    SwBreak(i32),
    Watch { tid: i32, kind: WatchKind, addr: u32 },
}

/// An armed hardware watchpoint.
#[derive(Debug, Clone, Copy)]
pub struct HwWatchpoint {
    pub addr: u32,
    pub kind: WatchKind,
}

/// An armed hardware breakpoint.
#[derive(Debug, Clone, Copy)]
pub struct HwBreakpoint {
    pub addr: u32,
}

/// A software breakpoint: the patched address and the instruction bytes it
/// replaced (`patch_len` of them are meaningful).
#[derive(Debug, Clone, Copy)]
pub struct SwBreakpoint {
    pub addr: u32,
    pub orig: [u8; 4],
    pub patch_len: usize,
}

/// A write of one debug register pair (value and control register) that
/// the caller has to perform.
#[derive(Debug, Clone, Copy, PartialEq, Eq, Structural)]
pub struct DebugRegWrite {
    pub index: u32,
    pub addr: u32,
    pub control: u32,
}

/// Decision for a hardware breakpoint or watchpoint request.
#[derive(Debug, Clone, Copy, PartialEq, Eq, Structural)]
pub enum SlotPlan {
    /// The request already holds; nothing to write, the answer is `true`.
    Done,
    /// Write the debug register pair, then commit; the answer is `true`.
    Write(DebugRegWrite),
    /// No slot applies; nothing to write, the answer is `false`.
    NoSlot,
}

/// Outcome of claiming a software breakpoint slot.
#[derive(Debug, Clone, Copy, PartialEq, Eq, Structural)]
pub enum SwClaim {
    /// A breakpoint is already set at the address.
    AlreadySet,
    /// The slot with this index now holds the breakpoint; patch the code.
    Claimed(usize),
    /// Every slot is taken.
    Full,
}

/// Outcome of removing a software breakpoint.
#[derive(Debug, Clone, PartialEq, Eq)]
pub enum SwTake {
    /// The session is not attached to a process.
    NoProcess,
    /// No software breakpoint at the address.
    NotFound,
    /// The slot was freed; write `bytes` back at `addr` in process `pid`.
    Restore { pid: i32, addr: u32, bytes: Vec<u8> },
}

/// What tearing down all breakpoints of a session has to write.
#[derive(Debug, Clone)]
pub struct ClearAll {
    /// Raw pid of the session.
    pub pid: i32,
    /// Hardware breakpoint slots to disarm.
    pub hw_breakpoint_slots: Vec<u32>,
    /// Hardware watchpoint slots to disarm.
    pub hw_watchpoint_slots: Vec<u32>,
    /// Software breakpoints whose original bytes go back.
    pub restores: Vec<SwBreakpoint>,
}

/// Snapshot of a session for the `dump` monitor command.
#[derive(Debug)]
pub struct DumpState {
    pub pid: Option<i32>,
    pub hw_breakpoints: ArrayVec<u32, 6>,
    pub hw_watchpoints: ArrayVec<u32, 3>,
    pub sw_breakpoints: ArrayVec<u32, 16>,
}

/// The addresses, in order, that a dumped hardware breakpoint list holds.
pub uninterp spec fn hw_bp_list(v: ArrayVec<u32, 6>) -> Seq<u32>;

/// The addresses, in order, that a dumped hardware watchpoint list holds.
pub uninterp spec fn hw_wp_list(v: ArrayVec<u32, 3>) -> Seq<u32>;

/// The addresses, in order, that a dumped software breakpoint list holds.
pub uninterp spec fn sw_bp_list(v: ArrayVec<u32, 16>) -> Seq<u32>;

/// `ArrayVec::new` for a hardware breakpoint list: an empty list.
#[verifier::external_body]
fn hw_bp_list_new() -> (v: ArrayVec<u32, 6>)
    ensures
        hw_bp_list(v) == Seq::<u32>::empty(),
{
    ArrayVec::new()
}

/// `ArrayVec::push` on a hardware breakpoint list: appends `addr`; the
/// list must have room (a push onto a full list panics).
#[verifier::external_body]
fn hw_bp_list_push(v: &mut ArrayVec<u32, 6>, addr: u32)
    requires
        hw_bp_list(*old(v)).len() < 6,
    ensures
        hw_bp_list(*final(v)) == hw_bp_list(*old(v)).push(addr),
{
    v.push(addr)
}

/// `ArrayVec::new` for a hardware watchpoint list: an empty list.
#[verifier::external_body]
fn hw_wp_list_new() -> (v: ArrayVec<u32, 3>)
    ensures
        hw_wp_list(v) == Seq::<u32>::empty(),
{
    ArrayVec::new()
}

/// `ArrayVec::push` on a hardware watchpoint list: appends `addr`; the
/// list must have room (a push onto a full list panics).
#[verifier::external_body]
fn hw_wp_list_push(v: &mut ArrayVec<u32, 3>, addr: u32)
    requires
        hw_wp_list(*old(v)).len() < 3,
    ensures
        hw_wp_list(*final(v)) == hw_wp_list(*old(v)).push(addr),
{
    v.push(addr)
}

/// `ArrayVec::new` for a software breakpoint list: an empty list.
#[verifier::external_body]
fn sw_bp_list_new() -> (v: ArrayVec<u32, 16>)
    ensures
        sw_bp_list(v) == Seq::<u32>::empty(),
{
    ArrayVec::new()
}

/// `ArrayVec::push` on a software breakpoint list: appends `addr`; the
/// list must have room (a push onto a full list panics).
#[verifier::external_body]
fn sw_bp_list_push(v: &mut ArrayVec<u32, 16>, addr: u32)
    requires
        sw_bp_list(*old(v)).len() < 16,
    ensures
        sw_bp_list(*final(v)) == sw_bp_list(*old(v)).push(addr),
{
    v.push(addr)
}

/// Control word of an armed breakpoint register: enabled, any privilege,
/// all byte lanes, unlinked instruction address match.
pub open spec fn spec_bp_control() -> u32 {
    0x41e7
}

/// Load/store selector of a watchpoint control word.
pub open spec fn watch_lsc(kind: WatchKind) -> u32 {
    match kind {
        WatchKind::Read => 1,
        WatchKind::Write => 2,
        WatchKind::ReadWrite => 3,
    }
}

/// Control word of an armed watchpoint register of the given kind.
pub open spec fn spec_wp_control(kind: WatchKind) -> u32 {
    0x41e3u32 | (watch_lsc(kind) << 3u32)
}

/// Control word of an armed breakpoint register.
pub fn bp_control() -> (c: u32)
    ensures
        c == spec_bp_control(),
{
    let c: u32 = (1u32 << 0u32) | (0x3u32 << 1u32) | (0xFu32 << 5u32) | (0x1u32 << 14u32) | (
    0x0u32 << 20u32);
    assert(c == 0x41e7) by (bit_vector)
        requires
            c == (1u32 << 0u32) | (0x3u32 << 1u32) | (0xFu32 << 5u32) | (0x1u32 << 14u32) | (0x0u32
                << 20u32),
    ;
    c
}

/// Control word of an armed watchpoint register for `kind`.
pub fn wp_control(kind: WatchKind) -> (c: u32)
    ensures
        c == spec_wp_control(kind),
{
    let lsc: u32 = match kind {
        WatchKind::Read => 0b01,
        WatchKind::Write => 0b10,
        WatchKind::ReadWrite => 0b11,
    };
    let c: u32 = 1u32 | (1u32 << 1u32) | (lsc << 3u32) | (0xFu32 << 5u32) | (0x1u32 << 14u32) | (
    0u32 << 20u32) | (0u32 << 24u32);
    assert(c == 0x41e3u32 | (lsc << 3u32)) by (bit_vector)
        requires
            c == 1u32 | (1u32 << 1u32) | (lsc << 3u32) | (0xFu32 << 5u32) | (0x1u32 << 14u32) | (
            0u32 << 20u32) | (0u32 << 24u32),
    ;
    c
}

/// Whether `addr` lies in the shared library region, where code cannot be
/// patched.
pub fn is_shared_address(addr: u32) -> (b: bool)
    ensures
        b == (0xE000_0000 <= addr < 0xF000_0000),
{
    addr >= 0xE000_0000 && addr < 0xF000_0000
}

/// Number of bytes a software breakpoint of `kind` patches.
pub open spec fn spec_patch_len(kind: BreakpointKind) -> usize {
    match kind {
        BreakpointKind::Thumb16 => 2,
        _ => 4,
    }
}

/// The breakpoint instruction written for `kind`, little-endian: Thumb
/// `bkpt #0` (0xBE00) or ARM `bkpt #0` (0xE1200070).
pub open spec fn spec_breakpoint_patch(kind: BreakpointKind) -> Seq<u8> {
    match kind {
        BreakpointKind::Thumb16 => seq![0x00u8, 0xbeu8],
        _ => seq![0x70u8, 0x00u8, 0x20u8, 0xe1u8],
    }
}

/// The breakpoint instruction bytes written for `kind`.
pub fn breakpoint_patch(kind: BreakpointKind) -> (p: Vec<u8>)
    ensures
        p@ == spec_breakpoint_patch(kind),
        p@.len() == spec_patch_len(kind),
{
    match kind {
        BreakpointKind::Thumb16 => {
            let p = vec![0x00u8, 0xbeu8];
            p
        },
        _ => {
            let p = vec![0x70u8, 0x00u8, 0x20u8, 0xe1u8];
            p
        },
    }
}

/// Some slot of `s` holds a hardware breakpoint at `addr`.
pub open spec fn hw_bp_at(s: Seq<Option<HwBreakpoint>>, addr: u32) -> bool {
    exists|i: int| 0 <= i < s.len() && (#[trigger] s[i]) is Some && s[i]->Some_0.addr == addr
}

/// Some slot of `s` holds a hardware watchpoint at `addr`.
pub open spec fn hw_wp_at(s: Seq<Option<HwWatchpoint>>, addr: u32) -> bool {
    exists|i: int| 0 <= i < s.len() && (#[trigger] s[i]) is Some && s[i]->Some_0.addr == addr
}

/// Some slot of `s` holds a software breakpoint at `addr`.
pub open spec fn sw_bp_at(s: Seq<Option<SwBreakpoint>>, addr: u32) -> bool {
    exists|i: int| 0 <= i < s.len() && (#[trigger] s[i]) is Some && s[i]->Some_0.addr == addr
}

/// Index of the lowest slot of `s` at or after `k` whose content satisfies
/// `p`, if any.
pub open spec fn find_from<T>(s: Seq<T>, p: spec_fn(T) -> bool, k: int) -> Option<int>
    decreases s.len() - k,
{
    if k < 0 || k >= s.len() {
        None
    } else if p(s[k]) {
        Some(k)
    } else {
        find_from(s, p, k + 1)
    }
}

/// `find_from` returns the lowest matching slot at or after `k`, and
/// `None` only when no slot from `k` on matches.
pub proof fn lemma_find_from<T>(s: Seq<T>, p: spec_fn(T) -> bool, k: int)
    requires
        0 <= k,
    ensures
        match find_from(s, p, k) {
            Some(i) => k <= i < s.len() && p(s[i]) && forall|j: int| k <= j < i ==> !p(#[trigger] s[j]),
            None => forall|j: int| k <= j < s.len() ==> !p(#[trigger] s[j]),
        },
    decreases s.len() - k,
{
    if k < s.len() && !p(s[k]) {
        lemma_find_from(s, p, k + 1);
    }
}

/// The slot is empty.
pub open spec fn is_free<T>() -> spec_fn(Option<T>) -> bool {
    |o: Option<T>| o is None
}

/// The slot is occupied.
pub open spec fn is_used<T>() -> spec_fn(Option<T>) -> bool {
    |o: Option<T>| o is Some
}

/// The slot holds a hardware breakpoint at `addr`.
pub open spec fn holds_hw_bp(addr: u32) -> spec_fn(Option<HwBreakpoint>) -> bool {
    |o: Option<HwBreakpoint>| o is Some && o->Some_0.addr == addr
}

/// The slot holds a hardware watchpoint at `addr`.
pub open spec fn holds_hw_wp(addr: u32) -> spec_fn(Option<HwWatchpoint>) -> bool {
    |o: Option<HwWatchpoint>| o is Some && o->Some_0.addr == addr
}

/// The slot holds a software breakpoint at `addr`.
pub open spec fn holds_sw_bp(addr: u32) -> spec_fn(Option<SwBreakpoint>) -> bool {
    |o: Option<SwBreakpoint>| o is Some && o->Some_0.addr == addr
}

/// Setting a hardware breakpoint at `addr` on table `t`: nothing to do when
/// one is there, else arm the lowest free slot, else no room.
pub open spec fn plan_set_hw_bp(t: Seq<Option<HwBreakpoint>>, addr: u32) -> SlotPlan {
    if find_from(t, holds_hw_bp(addr), 0) is Some {
        SlotPlan::Done
    } else {
        match find_from(t, is_free(), 0) {
            Some(i) => SlotPlan::Write(
                DebugRegWrite { index: i as u32, addr, control: spec_bp_control() },
            ),
            None => SlotPlan::NoSlot,
        }
    }
}

/// Clearing the hardware breakpoint at `addr`: disarm the lowest slot that
/// holds it, or report that there is none.
pub open spec fn plan_clear_hw_bp(t: Seq<Option<HwBreakpoint>>, addr: u32) -> SlotPlan {
    match find_from(t, holds_hw_bp(addr), 0) {
        Some(i) => SlotPlan::Write(DebugRegWrite { index: i as u32, addr: 0, control: 0 }),
        None => SlotPlan::NoSlot,
    }
}

/// Setting a hardware watchpoint at `addr` of `kind`: when any slot is in
/// use, the lowest one is re-armed for `addr` if its kind differs (its
/// recorded address stays) and nothing happens otherwise; with no slot in
/// use the lowest free slot is armed.
pub open spec fn plan_set_hw_wp(t: Seq<Option<HwWatchpoint>>, addr: u32, kind: WatchKind) -> SlotPlan {
    match find_from(t, is_used(), 0) {
        Some(i) => if t[i]->Some_0.kind != kind {
            SlotPlan::Write(DebugRegWrite { index: i as u32, addr, control: spec_wp_control(kind) })
        } else {
            SlotPlan::Done
        },
        None => match find_from(t, is_free(), 0) {
            Some(i) => SlotPlan::Write(
                DebugRegWrite { index: i as u32, addr, control: spec_wp_control(kind) },
            ),
            None => SlotPlan::NoSlot,
        },
    }
}

/// The watchpoint table once a set of `kind` went through on slot `index`.
pub open spec fn commit_set_hw_wp(
    t: Seq<Option<HwWatchpoint>>,
    index: int,
    addr: u32,
    kind: WatchKind,
) -> Seq<Option<HwWatchpoint>> {
    match t[index] {
        Some(w) => t.update(index, Some(HwWatchpoint { addr: w.addr, kind })),
        None => t.update(index, Some(HwWatchpoint { addr, kind })),
    }
}

/// Clearing the hardware watchpoint at `addr`: disarm the lowest slot that
/// holds it, or report that there is none.
pub open spec fn plan_clear_hw_wp(t: Seq<Option<HwWatchpoint>>, addr: u32) -> SlotPlan {
    match find_from(t, holds_hw_wp(addr), 0) {
        Some(i) => SlotPlan::Write(DebugRegWrite { index: i as u32, addr: 0, control: 0 }),
        None => SlotPlan::NoSlot,
    }
}

/// Claiming a software breakpoint slot for `addr`: nothing when one is
/// set there, else the lowest free slot records the saved bytes.
pub open spec fn claim_sw(
    t: Seq<Option<SwBreakpoint>>,
    addr: u32,
    orig: [u8; 4],
    patch_len: usize,
) -> (SwClaim, Seq<Option<SwBreakpoint>>) {
    if find_from(t, holds_sw_bp(addr), 0) is Some {
        (SwClaim::AlreadySet, t)
    } else {
        match find_from(t, is_free(), 0) {
            Some(i) => (
                SwClaim::Claimed(i as usize),
                t.update(i, Some(SwBreakpoint { addr, orig, patch_len })),
            ),
            None => (SwClaim::Full, t),
        }
    }
}

/// No two slots of `s` hold a breakpoint at the same address.
pub open spec fn unique_hw_bps(s: Seq<Option<HwBreakpoint>>) -> bool {
    forall|i: int, j: int|
        0 <= i < s.len() && 0 <= j < s.len() && i != j && (#[trigger] s[i]) is Some && (
        #[trigger] s[j]) is Some ==> s[i]->Some_0.addr != s[j]->Some_0.addr
}

/// No two slots of `s` hold a software breakpoint at the same address, and
/// each saved instruction is two or four bytes long.
pub open spec fn sw_bps_wf(s: Seq<Option<SwBreakpoint>>) -> bool {
    &&& forall|i: int, j: int|
        0 <= i < s.len() && 0 <= j < s.len() && i != j && (#[trigger] s[i]) is Some && (
        #[trigger] s[j]) is Some ==> s[i]->Some_0.addr != s[j]->Some_0.addr
    &&& forall|i: int|
        0 <= i < s.len() && (#[trigger] s[i]) is Some ==> (s[i]->Some_0.patch_len == 2
            || s[i]->Some_0.patch_len == 4)
}

/// The addresses of the occupied slots of a breakpoint table, in slot order.
pub open spec fn hw_bp_addrs(s: Seq<Option<HwBreakpoint>>) -> Seq<u32>
    decreases s.len(),
{
    if s.len() == 0 {
        Seq::empty()
    } else {
        let rest = hw_bp_addrs(s.drop_last());
        match s.last() {
            Some(b) => rest.push(b.addr),
            None => rest,
        }
    }
}

/// The addresses of the occupied slots of a watchpoint table, in slot order.
pub open spec fn hw_wp_addrs(s: Seq<Option<HwWatchpoint>>) -> Seq<u32>
    decreases s.len(),
{
    if s.len() == 0 {
        Seq::empty()
    } else {
        let rest = hw_wp_addrs(s.drop_last());
        match s.last() {
            Some(w) => rest.push(w.addr),
            None => rest,
        }
    }
}

/// The addresses of the occupied slots of a software breakpoint table, in
/// slot order.
pub open spec fn sw_bp_addrs(s: Seq<Option<SwBreakpoint>>) -> Seq<u32>
    decreases s.len(),
{
    if s.len() == 0 {
        Seq::empty()
    } else {
        let rest = sw_bp_addrs(s.drop_last());
        match s.last() {
            Some(b) => rest.push(b.addr),
            None => rest,
        }
    }
}

/// A table lists no more addresses than it has slots.
proof fn lemma_hw_bp_addrs_len(s: Seq<Option<HwBreakpoint>>)
    ensures
        hw_bp_addrs(s).len() <= s.len(),
    decreases s.len(),
{
    if s.len() > 0 {
        lemma_hw_bp_addrs_len(s.drop_last());
    }
}

/// A table lists no more addresses than it has slots.
proof fn lemma_hw_wp_addrs_len(s: Seq<Option<HwWatchpoint>>)
    ensures
        hw_wp_addrs(s).len() <= s.len(),
    decreases s.len(),
{
    if s.len() > 0 {
        lemma_hw_wp_addrs_len(s.drop_last());
    }
}

/// A table lists no more addresses than it has slots.
proof fn lemma_sw_bp_addrs_len(s: Seq<Option<SwBreakpoint>>)
    ensures
        sw_bp_addrs(s).len() <= s.len(),
    decreases s.len(),
{
    if s.len() > 0 {
        lemma_sw_bp_addrs_len(s.drop_last());
    }
}

/// The instruction bytes a software breakpoint saved.
pub open spec fn saved_bytes(b: SwBreakpoint) -> Seq<u8> {
    b.orig@.subrange(0, b.patch_len as int)
}

/// Indices of the occupied slots of `t`, in slot order.
pub open spec fn used_indices<T>(t: Seq<Option<T>>) -> Seq<u32>
    decreases t.len(),
{
    if t.len() == 0 {
        Seq::empty()
    } else {
        let rest = used_indices(t.drop_last());
        if t.last() is Some {
            rest.push((t.len() - 1) as u32)
        } else {
            rest
        }
    }
}

/// The software breakpoints held by the occupied slots of `t`, in slot order.
pub open spec fn sw_entries(t: Seq<Option<SwBreakpoint>>) -> Seq<SwBreakpoint>
    decreases t.len(),
{
    if t.len() == 0 {
        Seq::empty()
    } else {
        let rest = sw_entries(t.drop_last());
        match t.last() {
            Some(b) => rest.push(b),
            None => rest,
        }
    }
}

/// Every slot of `t` is empty.
pub open spec fn all_free<T>(t: Seq<Option<T>>) -> bool {
    forall|i: int| 0 <= i < t.len() ==> (#[trigger] t[i]) is None
}

/// The slot is attached to `pid`.
pub open spec fn attached_to(pid: i32) -> spec_fn(GdbSessionInner) -> bool {
    |s: GdbSessionInner| s.raw_pid() == pid
}

/// The stop reported to GDB for an exception event: breakpoints and
/// watchpoints as such, exceptions as the signal of their kind.
pub open spec fn spec_stop_reason(ev: ExceptionEvent) -> StopReason {
    match ev {
        ExceptionEvent::HwBreak { tid } => StopReason::HwBreak(tid),
        ExceptionEvent::SwBreak { tid } => StopReason::SwBreak(tid),
        ExceptionEvent::Watch { tid, addr, kind } => StopReason::Watch { tid, kind, addr },
        ExceptionEvent::Exception { tid, kind } => StopReason::SignalWithThread {
            tid,
            signal: spec_exception_signal(kind),
        },
    }
}

/// Signal reported for an exception kind.
pub open spec fn spec_exception_signal(kind: ExceptionKind) -> u8 {
    match kind {
        ExceptionKind::Dabt => SIGSEGV,
        ExceptionKind::Pabt => SIGBUS,
        ExceptionKind::Undef => SIGILL,
    }
}

/// The stop reported to GDB for an exception event.
pub fn stop_reason_from(ev: ExceptionEvent) -> (r: StopReason)
    ensures
        r == spec_stop_reason(ev),
{
    match ev {
        ExceptionEvent::HwBreak { tid } => StopReason::HwBreak(tid),
        ExceptionEvent::SwBreak { tid } => StopReason::SwBreak(tid),
        ExceptionEvent::Watch { tid, addr, kind } => StopReason::Watch { tid, kind, addr },
        ExceptionEvent::Exception { tid, kind } => StopReason::SignalWithThread {
            tid,
            signal: match kind {
                ExceptionKind::Dabt => SIGSEGV,
                ExceptionKind::Pabt => SIGBUS,
                ExceptionKind::Undef => SIGILL,
            },
        },
    }
}

/// State of one debug session slot.
pub struct GdbSessionInner {
    pid: i32,
    evflag: Option<i32>,
    hw_breakpoints: [Option<HwBreakpoint>; 6],
    hw_watchpoints: [Option<HwWatchpoint>; 3],
    sw_breakpoints: [Option<SwBreakpoint>; 16],
    step: Option<(i32, u32)>,
    step_result: Option<i32>,
    exited: bool,
    exceptions: MpscRing<ExceptionEvent, 8>,
}

impl GdbSessionInner {
    /// The slot's bookkeeping is consistent: the event queue is well formed,
    /// no address holds two breakpoints of a kind, and each saved
    /// instruction is two or four bytes long.
    pub closed spec fn wf(&self) -> bool {
        &&& self.exceptions.wf()
        &&& unique_hw_bps(self.hw_breakpoints@)
        &&& sw_bps_wf(self.sw_breakpoints@)
    }

    /// Raw pid of the slot, `PID_UNUSED` when detached.
    pub closed spec fn raw_pid(&self) -> i32 {
        self.pid
    }

    /// Event flag of the worker that owns the slot.
    pub closed spec fn flag(&self) -> Option<i32> {
        self.evflag
    }

    /// Hardware breakpoint slots.
    pub closed spec fn hw_bps(&self) -> Seq<Option<HwBreakpoint>> {
        self.hw_breakpoints@
    }

    /// Hardware watchpoint slots.
    pub closed spec fn hw_wps(&self) -> Seq<Option<HwWatchpoint>> {
        self.hw_watchpoints@
    }

    /// Software breakpoint slots.
    pub closed spec fn sw_bps(&self) -> Seq<Option<SwBreakpoint>> {
        self.sw_breakpoints@
    }

    /// The tables have their fixed numbers of slots: six hardware
    /// breakpoints, three hardware watchpoints and sixteen software
    /// breakpoints.
    pub proof fn lemma_slot_counts(&self)
        ensures
            self.hw_bps().len() == HW_BREAKPOINT_SLOTS,
            self.hw_wps().len() == HW_WATCHPOINT_SLOTS,
            self.sw_bps().len() == SW_BREAKPOINT_SLOTS,
    {
    }

    /// Pending single step: thread and the address of its breakpoint.
    pub closed spec fn pending_step(&self) -> Option<(i32, u32)> {
        self.step
    }

    /// Thread whose single step completed, not yet reported.
    pub closed spec fn finished_step(&self) -> Option<i32> {
        self.step_result
    }

    /// Whether the process exit is pending to be reported.
    pub closed spec fn exit_pending(&self) -> bool {
        self.exited
    }

    /// Queued exception events, oldest first.
    pub closed spec fn events(&self) -> Seq<ExceptionEvent> {
        self.exceptions.view()
    }

    /// A detached slot with empty tables.
    pub fn uninit() -> (s: Self)
        ensures
            s.wf(),
            s.raw_pid() == PID_UNUSED,
            s.flag() is None,
            forall|i: int| 0 <= i < HW_BREAKPOINT_SLOTS ==> (#[trigger] s.hw_bps()[i]) is None,
            forall|i: int| 0 <= i < HW_WATCHPOINT_SLOTS ==> (#[trigger] s.hw_wps()[i]) is None,
            forall|i: int| 0 <= i < SW_BREAKPOINT_SLOTS ==> (#[trigger] s.sw_bps()[i]) is None,
            s.pending_step() is None,
            s.finished_step() is None,
            !s.exit_pending(),
            s.events() == Seq::<ExceptionEvent>::empty(),
    {
        GdbSessionInner {
            pid: PID_UNUSED,
            evflag: None,
            hw_breakpoints: [None; 6],
            hw_watchpoints: [None; 3],
            sw_breakpoints: [None; 16],
            step: None,
            step_result: None,
            exited: false,
            exceptions: MpscRing::new(),
        }
    }

    /// Detaches the slot: forgets the event flag (returned, so that the
    /// caller clears its worker bit), empties every table, the step and
    /// the event queue.
    pub fn reset(&mut self) -> (flag: Option<i32>)
        requires
            old(self).wf(),
        ensures
            final(self).wf(),
            flag == old(self).flag(),
            final(self).raw_pid() == PID_UNUSED,
            final(self).flag() is None,
            forall|i: int| 0 <= i < HW_BREAKPOINT_SLOTS ==> (#[trigger] final(self).hw_bps()[i]) is None,
            forall|i: int| 0 <= i < HW_WATCHPOINT_SLOTS ==> (#[trigger] final(self).hw_wps()[i]) is None,
            forall|i: int| 0 <= i < SW_BREAKPOINT_SLOTS ==> (#[trigger] final(self).sw_bps()[i]) is None,
            final(self).pending_step() is None,
            final(self).finished_step() == old(self).finished_step(),
            !final(self).exit_pending(),
            final(self).events() == Seq::<ExceptionEvent>::empty(),
    {
        let flag = self.evflag;
        self.evflag = None;
        self.hw_breakpoints = [None; 6];
        self.hw_watchpoints = [None; 3];
        self.sw_breakpoints = [None; 16];
        self.step = None;
        self.exited = false;
        self.exceptions.clear();
        self.pid = PID_UNUSED;
        flag
    }

    /// Attaches a detached slot to `pid`, owned by the worker with event
    /// flag `flag`. Returns `false`, changing nothing, when the slot is in
    /// use.
    pub fn claim(&mut self, flag: i32, pid: i32) -> (ok: bool)
        requires
            old(self).wf(),
        ensures
            final(self).wf(),
            ok == (old(self).raw_pid() == PID_UNUSED),
            ok ==> final(self).raw_pid() == pid && final(self).flag() == Some(flag),
            !ok ==> final(self).raw_pid() == old(self).raw_pid() && final(self).flag() == old(self).flag(),
            final(self).hw_bps() == old(self).hw_bps(),
            final(self).hw_wps() == old(self).hw_wps(),
            final(self).sw_bps() == old(self).sw_bps(),
            final(self).pending_step() == old(self).pending_step(),
            final(self).finished_step() == old(self).finished_step(),
            final(self).exit_pending() == old(self).exit_pending(),
            final(self).events() == old(self).events(),
    {
        if self.pid == PID_UNUSED {
            self.pid = pid;
            self.evflag = Some(flag);
            true
        } else {
            false
        }
    }

    /// The attached process, `None` when the slot is detached.
    pub fn pid(&self) -> (p: Option<i32>)
        requires
            self.wf(),
        ensures
            p == (if self.raw_pid() == PID_UNUSED {
                None
            } else {
                Some(self.raw_pid())
            }),
    {
        if self.pid == PID_UNUSED {
            None
        } else {
            Some(self.pid)
        }
    }

    /// The event flag of the owning worker.
    pub fn evflag(&self) -> (f: Option<i32>)
        requires
            self.wf(),
        ensures
            f == self.flag(),
    {
        self.evflag
    }

    /// Queues an exception event for the worker. Without an owning worker
    /// the event is dropped and `None` returned; otherwise the worker's
    /// flag is returned (to be raised) with whether the event fit in the
    /// queue.
    pub fn push_excp(&mut self, event: ExceptionEvent) -> (r: Option<(i32, bool)>)
        requires
            old(self).wf(),
        ensures
            final(self).wf(),
            old(self).flag() is None ==> r is None && final(self).events() == old(self).events(),
            old(self).flag() matches Some(f) ==> r matches Some((g, queued)) && g == f && (
            queued, final(self).events()) == queue_push(old(self).events(), 7, event),
            final(self).flag() == old(self).flag(),
            final(self).raw_pid() == old(self).raw_pid(),
            final(self).hw_bps() == old(self).hw_bps(),
            final(self).hw_wps() == old(self).hw_wps(),
            final(self).sw_bps() == old(self).sw_bps(),
            final(self).pending_step() == old(self).pending_step(),
    {
        match self.evflag {
            None => None,
            Some(f) => {
                let queued = self.exceptions.push(event);
                Some((f, queued))
            },
        }
    }

    /// Takes the oldest queued exception event.
    pub fn pop_excp(&mut self) -> (r: Option<ExceptionEvent>)
        requires
            old(self).wf(),
        ensures
            final(self).wf(),
            (r, final(self).events()) == queue_pop(old(self).events()),
            final(self).flag() == old(self).flag(),
            final(self).raw_pid() == old(self).raw_pid(),
            final(self).hw_bps() == old(self).hw_bps(),
            final(self).hw_wps() == old(self).hw_wps(),
            final(self).sw_bps() == old(self).sw_bps(),
            final(self).pending_step() == old(self).pending_step(),
            final(self).finished_step() == old(self).finished_step(),
            final(self).exit_pending() == old(self).exit_pending(),
    {
        self.exceptions.pop()
    }

    /// Whether an exception event is queued.
    pub fn has_excp(&self) -> (b: bool)
        requires
            self.wf(),
        ensures
            b == (self.events().len() > 0),
    {
        self.exceptions.len() > 0
    }

    /// Records that the process exited. Without an owning worker nothing
    /// happens and `None` is returned; otherwise the worker's flag, to be
    /// raised.
    pub fn push_exited(&mut self) -> (r: Option<i32>)
        requires
            old(self).wf(),
        ensures
            final(self).wf(),
            r == old(self).flag(),
            final(self).exit_pending() == (old(self).exit_pending() || old(self).flag() is Some),
            final(self).flag() == old(self).flag(),
            final(self).events() == old(self).events(),
            final(self).pending_step() == old(self).pending_step(),
            final(self).finished_step() == old(self).finished_step(),
            final(self).hw_bps() == old(self).hw_bps(),
            final(self).hw_wps() == old(self).hw_wps(),
            final(self).sw_bps() == old(self).sw_bps(),
            final(self).raw_pid() == old(self).raw_pid(),
    {
        match self.evflag {
            None => None,
            Some(f) => {
                self.exited = true;
                Some(f)
            },
        }
    }

    /// Takes the pending exit notice.
    pub fn pop_exited(&mut self) -> (b: bool)
        requires
            old(self).wf(),
        ensures
            final(self).wf(),
            b == old(self).exit_pending(),
            !final(self).exit_pending(),
            final(self).flag() == old(self).flag(),
            final(self).events() == old(self).events(),
            final(self).pending_step() == old(self).pending_step(),
            final(self).finished_step() == old(self).finished_step(),
            final(self).hw_bps() == old(self).hw_bps(),
            final(self).hw_wps() == old(self).hw_wps(),
            final(self).sw_bps() == old(self).sw_bps(),
            final(self).raw_pid() == old(self).raw_pid(),
    {
        let b = self.exited;
        self.exited = false;
        b
    }

    /// Records that thread `tid` single-steps onto the breakpoint at `addr`.
    pub fn set_step(&mut self, tid: i32, addr: u32)
        requires
            old(self).wf(),
        ensures
            final(self).wf(),
            final(self).pending_step() == Some((tid, addr)),
            final(self).flag() == old(self).flag(),
            final(self).raw_pid() == old(self).raw_pid(),
            final(self).sw_bps() == old(self).sw_bps(),
            final(self).hw_bps() == old(self).hw_bps(),
            final(self).hw_wps() == old(self).hw_wps(),
            final(self).events() == old(self).events(),
            final(self).finished_step() == old(self).finished_step(),
            final(self).exit_pending() == old(self).exit_pending(),
    {
        self.step = Some((tid, addr));
    }

    /// Whether a single step is pending onto the breakpoint at `addr`.
    pub fn is_step(&self, addr: u32) -> (b: bool)
        requires
            self.wf(),
        ensures
            b == (self.pending_step() matches Some((_t, a)) && a == addr),
    {
        match self.step {
            Some((_tid, step_addr)) => step_addr == addr,
            None => false,
        }
    }

    /// Completes the pending single step: its breakpoint is taken out (the
    /// bytes to restore are returned) and the stepped thread is recorded
    /// as finished. Returns the restore and the worker's flag to raise;
    /// `None`, changing nothing, when no step is pending.
    pub fn step_finished(&mut self) -> (r: Option<(SwTake, i32)>)
        requires
            old(self).wf(),
            old(self).pending_step() is Some ==> old(self).flag() is Some,
        ensures
            final(self).wf(),
            old(self).pending_step() is None ==> r is None && final(self).sw_bps() == old(self).sw_bps() && final(self).finished_step() == old(self).finished_step(),
            old(self).pending_step() matches Some((tid, addr)) ==> {
                &&& r matches Some((take, f))
                &&& Some(f) == old(self).flag()
                &&& final(self).pending_step() is None
                &&& final(self).finished_step() == Some(tid)
                &&& take_outcome(old(self).raw_pid(), old(self).sw_bps(), addr, take, final(self).sw_bps())
            },
            final(self).flag() == old(self).flag(),
            final(self).raw_pid() == old(self).raw_pid(),
            final(self).hw_bps() == old(self).hw_bps(),
            final(self).hw_wps() == old(self).hw_wps(),
            final(self).events() == old(self).events(),
            final(self).exit_pending() == old(self).exit_pending(),
    {
        match self.step.take() {
            None => None,
            Some((step_tid, step_addr)) => {
                let take = self.take_sw_breakpoint(step_addr);
                self.step_result = Some(step_tid);
                let f = match self.evflag {
                    Some(f) => f,
                    None => {
                        0
                    },
                };
                Some((take, f))
            },
        }
    }

    /// Takes the thread whose single step completed.
    pub fn pop_step_finished(&mut self) -> (r: Option<i32>)
        requires
            old(self).wf(),
        ensures
            final(self).wf(),
            r == old(self).finished_step(),
            final(self).finished_step() is None,
            final(self).flag() == old(self).flag(),
            final(self).events() == old(self).events(),
            final(self).pending_step() == old(self).pending_step(),
            final(self).exit_pending() == old(self).exit_pending(),
            final(self).hw_bps() == old(self).hw_bps(),
            final(self).hw_wps() == old(self).hw_wps(),
            final(self).sw_bps() == old(self).sw_bps(),
            final(self).raw_pid() == old(self).raw_pid(),
    {
        self.step_result.take()
    }

    /// Decides how to set a hardware breakpoint at `addr`.
    pub fn plan_set_hw_breakpoint(&self, addr: u32) -> (p: SlotPlan)
        requires
            self.wf(),
        ensures
            p == plan_set_hw_bp(self.hw_bps(), addr),
    {
        let ghost t = self.hw_breakpoints@;
        let mut i: usize = 0;
        while i < 6
            invariant
                i <= 6,
                t == self.hw_breakpoints@,
                t.len() == 6,
                find_from(t, holds_hw_bp(addr), 0) == find_from(t, holds_hw_bp(addr), i as int),
            decreases 6 - i,
        {
            if let Some(b) = &self.hw_breakpoints[i] {
                if b.addr == addr {
                    return SlotPlan::Done;
                }
            }
            i = i + 1;
        }
        let mut i: usize = 0;
        while i < 6
            invariant
                i <= 6,
                t == self.hw_breakpoints@,
                t.len() == 6,
                find_from(t, holds_hw_bp(addr), 0) is None,
                find_from(t, is_free(), 0) == find_from(t, is_free(), i as int),
            decreases 6 - i,
        {
            if self.hw_breakpoints[i].is_none() {
                return SlotPlan::Write(DebugRegWrite { index: i as u32, addr, control: bp_control() });
            }
            i = i + 1;
        }
        SlotPlan::NoSlot
    }

    /// Records the hardware breakpoint whose register write `w`, planned by
    /// `plan_set_hw_breakpoint`, went through.
    pub fn commit_set_hw_breakpoint(&mut self, w: DebugRegWrite)
        requires
            old(self).wf(),
            plan_set_hw_bp(old(self).hw_bps(), w.addr) == SlotPlan::Write(w),
        ensures
            final(self).wf(),
            final(self).hw_bps() == old(self).hw_bps().update(w.index as int, Some(HwBreakpoint { addr: w.addr })),
            final(self).hw_wps() == old(self).hw_wps(),
            final(self).sw_bps() == old(self).sw_bps(),
            final(self).raw_pid() == old(self).raw_pid(),
            final(self).flag() == old(self).flag(),
            final(self).events() == old(self).events(),
            final(self).pending_step() == old(self).pending_step(),
            final(self).finished_step() == old(self).finished_step(),
            final(self).exit_pending() == old(self).exit_pending(),
    {
        proof {
            lemma_find_from(self.hw_breakpoints@, holds_hw_bp(w.addr), 0);
            lemma_find_from(self.hw_breakpoints@, is_free(), 0);
        }
        let index = w.index as usize;
        self.hw_breakpoints[index] = Some(HwBreakpoint { addr: w.addr });
        proof {
            let t = self.hw_breakpoints@;
            assert forall|i: int, j: int|
                0 <= i < t.len() && 0 <= j < t.len() && i != j && (#[trigger] t[i]) is Some && (
                #[trigger] t[j]) is Some implies t[i]->Some_0.addr != t[j]->Some_0.addr by {
                if i != index as int && j != index as int {
                } else if i == index as int {
                } else {
                }
            }
        }
    }

    /// Decides how to clear the hardware breakpoint at `addr`.
    pub fn plan_clear_hw_breakpoint(&self, addr: u32) -> (p: SlotPlan)
        requires
            self.wf(),
        ensures
            p == plan_clear_hw_bp(self.hw_bps(), addr),
    {
        let ghost t = self.hw_breakpoints@;
        let mut i: usize = 0;
        while i < 6
            invariant
                i <= 6,
                t == self.hw_breakpoints@,
                t.len() == 6,
                find_from(t, holds_hw_bp(addr), 0) == find_from(t, holds_hw_bp(addr), i as int),
            decreases 6 - i,
        {
            if let Some(b) = &self.hw_breakpoints[i] {
                if b.addr == addr {
                    return SlotPlan::Write(DebugRegWrite { index: i as u32, addr: 0, control: 0 });
                }
            }
            i = i + 1;
        }
        SlotPlan::NoSlot
    }

    /// Frees hardware breakpoint slot `index` once its register is disarmed.
    pub fn commit_clear_hw_breakpoint(&mut self, index: u32)
        requires
            old(self).wf(),
            index < HW_BREAKPOINT_SLOTS,
        ensures
            final(self).wf(),
            final(self).hw_bps() == old(self).hw_bps().update(index as int, None),
            final(self).hw_wps() == old(self).hw_wps(),
            final(self).sw_bps() == old(self).sw_bps(),
            final(self).raw_pid() == old(self).raw_pid(),
            final(self).flag() == old(self).flag(),
            final(self).events() == old(self).events(),
            final(self).pending_step() == old(self).pending_step(),
            final(self).finished_step() == old(self).finished_step(),
            final(self).exit_pending() == old(self).exit_pending(),
    {
        let index = index as usize;
        self.hw_breakpoints[index] = None;
    }

    /// Decides how to set a hardware watchpoint at `addr` of `kind`.
    pub fn plan_set_hw_watchpoint(&self, addr: u32, kind: WatchKind) -> (p: SlotPlan)
        requires
            self.wf(),
        ensures
            p == plan_set_hw_wp(self.hw_wps(), addr, kind),
    {
        let ghost t = self.hw_watchpoints@;
        let mut i: usize = 0;
        while i < 3
            invariant
                i <= 3,
                t == self.hw_watchpoints@,
                t.len() == 3,
                find_from(t, is_used(), 0) == find_from(t, is_used(), i as int),
            decreases 3 - i,
        {
            if let Some(w) = &self.hw_watchpoints[i] {
                if w.kind != kind {
                    return SlotPlan::Write(DebugRegWrite { index: i as u32, addr, control: wp_control(kind) });
                }
                return SlotPlan::Done;
            }
            i = i + 1;
        }
        let mut i: usize = 0;
        while i < 3
            invariant
                i <= 3,
                t == self.hw_watchpoints@,
                t.len() == 3,
                find_from(t, is_used(), 0) is None,
                find_from(t, is_free(), 0) == find_from(t, is_free(), i as int),
            decreases 3 - i,
        {
            if self.hw_watchpoints[i].is_none() {
                return SlotPlan::Write(DebugRegWrite { index: i as u32, addr, control: wp_control(kind) });
            }
            i = i + 1;
        }
        SlotPlan::NoSlot
    }

    /// Records the watchpoint of `kind` whose register write `w`, planned by
    /// `plan_set_hw_watchpoint`, went through: an occupied slot takes the
    /// new kind and keeps its address, a free one records both.
    pub fn commit_set_hw_watchpoint(&mut self, w: DebugRegWrite, kind: WatchKind)
        requires
            old(self).wf(),
            w.index < HW_WATCHPOINT_SLOTS,
        ensures
            final(self).wf(),
            final(self).hw_wps() == commit_set_hw_wp(old(self).hw_wps(), w.index as int, w.addr, kind),
            final(self).hw_bps() == old(self).hw_bps(),
            final(self).sw_bps() == old(self).sw_bps(),
            final(self).raw_pid() == old(self).raw_pid(),
            final(self).flag() == old(self).flag(),
            final(self).events() == old(self).events(),
            final(self).pending_step() == old(self).pending_step(),
            final(self).finished_step() == old(self).finished_step(),
            final(self).exit_pending() == old(self).exit_pending(),
    {
        let index = w.index as usize;
        let entry = match self.hw_watchpoints[index] {
            Some(old_wp) => HwWatchpoint { addr: old_wp.addr, kind },
            None => HwWatchpoint { addr: w.addr, kind },
        };
        self.hw_watchpoints[index] = Some(entry);
    }

    /// Decides how to clear the hardware watchpoint at `addr`.
    pub fn plan_clear_hw_watchpoint(&self, addr: u32) -> (p: SlotPlan)
        requires
            self.wf(),
        ensures
            p == plan_clear_hw_wp(self.hw_wps(), addr),
    {
        let ghost t = self.hw_watchpoints@;
        let mut i: usize = 0;
        while i < 3
            invariant
                i <= 3,
                t == self.hw_watchpoints@,
                t.len() == 3,
                find_from(t, holds_hw_wp(addr), 0) == find_from(t, holds_hw_wp(addr), i as int),
            decreases 3 - i,
        {
            if let Some(w) = &self.hw_watchpoints[i] {
                if w.addr == addr {
                    return SlotPlan::Write(DebugRegWrite { index: i as u32, addr: 0, control: 0 });
                }
            }
            i = i + 1;
        }
        SlotPlan::NoSlot
    }

    /// Frees hardware watchpoint slot `index` once its register is disarmed.
    pub fn commit_clear_hw_watchpoint(&mut self, index: u32)
        requires
            old(self).wf(),
            index < HW_WATCHPOINT_SLOTS,
        ensures
            final(self).wf(),
            final(self).hw_wps() == old(self).hw_wps().update(index as int, None),
            final(self).hw_bps() == old(self).hw_bps(),
            final(self).sw_bps() == old(self).sw_bps(),
            final(self).raw_pid() == old(self).raw_pid(),
            final(self).flag() == old(self).flag(),
            final(self).events() == old(self).events(),
            final(self).pending_step() == old(self).pending_step(),
            final(self).finished_step() == old(self).finished_step(),
            final(self).exit_pending() == old(self).exit_pending(),
    {
        let index = index as usize;
        self.hw_watchpoints[index] = None;
    }

    /// Checks a software breakpoint request at `addr` of `kind`: `None`
    /// when the session is detached or `addr` is shared library code,
    /// otherwise the process and the number of instruction bytes to save.
    pub fn prepare_sw_breakpoint(&self, addr: u32, kind: BreakpointKind) -> (r: Option<(i32, usize)>)
        requires
            self.wf(),
        ensures
            r == (if self.raw_pid() == PID_UNUSED || (0xE000_0000 <= addr < 0xF000_0000) {
                None
            } else {
                Some((self.raw_pid(), spec_patch_len(kind)))
            }),
    {
        let pid = match self.pid() {
            None => return None,
            Some(pid) => pid,
        };
        if is_shared_address(addr) {
            return None;
        }
        let patch_len: usize = match kind {
            BreakpointKind::Thumb16 => 2,
            _ => 4,
        };
        Some((pid, patch_len))
    }

    /// Claims a slot for a software breakpoint at `addr` that replaces the
    /// first `patch_len` bytes of `orig`.
    pub fn claim_sw_breakpoint(&mut self, addr: u32, orig: [u8; 4], patch_len: usize) -> (c: SwClaim)
        requires
            old(self).wf(),
            patch_len == 2 || patch_len == 4,
        ensures
            final(self).wf(),
            (c, final(self).sw_bps()) == claim_sw(old(self).sw_bps(), addr, orig, patch_len),
            c matches SwClaim::Claimed(i) ==> i < SW_BREAKPOINT_SLOTS,
            final(self).sw_bps().len() == SW_BREAKPOINT_SLOTS,
            final(self).hw_bps() == old(self).hw_bps(),
            final(self).hw_wps() == old(self).hw_wps(),
            final(self).raw_pid() == old(self).raw_pid(),
            final(self).flag() == old(self).flag(),
            final(self).events() == old(self).events(),
            final(self).pending_step() == old(self).pending_step(),
            final(self).finished_step() == old(self).finished_step(),
            final(self).exit_pending() == old(self).exit_pending(),
    {
        let ghost t = self.sw_breakpoints@;
        let mut i: usize = 0;
        while i < 16
            invariant
                i <= 16,
                *self == *old(self),
                self.wf(),
                t == self.sw_breakpoints@,
                t.len() == 16,
                find_from(t, holds_sw_bp(addr), 0) == find_from(t, holds_sw_bp(addr), i as int),
            decreases 16 - i,
        {
            if let Some(b) = &self.sw_breakpoints[i] {
                if b.addr == addr {
                    return SwClaim::AlreadySet;
                }
            }
            i = i + 1;
        }
        proof {
            lemma_find_from(t, holds_sw_bp(addr), 0);
        }
        let mut i: usize = 0;
        while i < 16
            invariant
                i <= 16,
                *self == *old(self),
                self.wf(),
                t == self.sw_breakpoints@,
                t.len() == 16,
                find_from(t, holds_sw_bp(addr), 0) is None,
                patch_len == 2 || patch_len == 4,
                forall|j: int| 0 <= j < 16 ==> !holds_sw_bp(addr)(#[trigger] t[j]),
                find_from(t, is_free(), 0) == find_from(t, is_free(), i as int),
            decreases 16 - i,
        {
            if self.sw_breakpoints[i].is_none() {
                self.sw_breakpoints[i] = Some(SwBreakpoint { addr, orig, patch_len });
                proof {
                    let n = self.sw_breakpoints@;
                    assert forall|a: int, b: int|
                        0 <= a < n.len() && 0 <= b < n.len() && a != b && (#[trigger] n[a]) is Some && (
                        #[trigger] n[b]) is Some implies n[a]->Some_0.addr != n[b]->Some_0.addr by {
                        if a != i as int && b != i as int {
                        } else if a == i as int {
                        } else {
                        }
                    }
                    assert forall|a: int| 0 <= a < n.len() && (#[trigger] n[a]) is Some implies (
                    n[a]->Some_0.patch_len == 2 || n[a]->Some_0.patch_len == 4) by {
                        if a != i as int {
                        }
                    }
                }
                return SwClaim::Claimed(i);
            }
            i = i + 1;
        }
        SwClaim::Full
    }

    /// Frees software breakpoint slot `index` after its code patch failed.
    pub fn release_sw_breakpoint(&mut self, index: usize)
        requires
            old(self).wf(),
            index < SW_BREAKPOINT_SLOTS,
        ensures
            final(self).wf(),
            final(self).sw_bps() == old(self).sw_bps().update(index as int, None),
            final(self).hw_bps() == old(self).hw_bps(),
            final(self).hw_wps() == old(self).hw_wps(),
            final(self).raw_pid() == old(self).raw_pid(),
            final(self).flag() == old(self).flag(),
            final(self).events() == old(self).events(),
            final(self).pending_step() == old(self).pending_step(),
            final(self).finished_step() == old(self).finished_step(),
            final(self).exit_pending() == old(self).exit_pending(),
    {
        self.sw_breakpoints[index] = None;
    }

    /// Tears down every breakpoint of the session: all hardware breakpoint
    /// and software breakpoint slots are freed (watchpoint slots keep their
    /// records), and the registers to disarm and the code to restore are
    /// returned in slot order.
    pub fn clear_all(&mut self) -> (c: ClearAll)
        requires
            old(self).wf(),
        ensures
            final(self).wf(),
            c.pid == old(self).raw_pid(),
            c.hw_breakpoint_slots@ == used_indices(old(self).hw_bps()),
            c.hw_watchpoint_slots@ == used_indices(old(self).hw_wps()),
            c.restores@ == sw_entries(old(self).sw_bps()),
            all_free(final(self).hw_bps()),
            all_free(final(self).sw_bps()),
            final(self).hw_wps() == old(self).hw_wps(),
            final(self).raw_pid() == old(self).raw_pid(),
            final(self).flag() == old(self).flag(),
            final(self).events() == old(self).events(),
            final(self).pending_step() == old(self).pending_step(),
            final(self).finished_step() == old(self).finished_step(),
            final(self).exit_pending() == old(self).exit_pending(),
    {
        let ghost hw0 = self.hw_breakpoints@;
        let ghost sw0 = self.sw_breakpoints@;
        let mut hw_breakpoint_slots: Vec<u32> = Vec::new();
        let mut i: usize = 0;
        while i < 6
            invariant
                i <= 6,
                hw0 == self.hw_breakpoints@,
                hw0.len() == 6,
                hw_breakpoint_slots@ == used_indices(hw0.subrange(0, i as int)),
            decreases 6 - i,
        {
            assert(hw0.subrange(0, i as int + 1).drop_last() =~= hw0.subrange(0, i as int));
            if self.hw_breakpoints[i].is_some() {
                hw_breakpoint_slots.push(i as u32);
            }
            i = i + 1;
        }
        assert(hw0.subrange(0, 6) =~= hw0);
        let ghost wp0 = self.hw_watchpoints@;
        let mut hw_watchpoint_slots: Vec<u32> = Vec::new();
        let mut i: usize = 0;
        while i < 3
            invariant
                i <= 3,
                wp0 == self.hw_watchpoints@,
                hw0 == self.hw_breakpoints@,
                wp0.len() == 3,
                hw_watchpoint_slots@ == used_indices(wp0.subrange(0, i as int)),
            decreases 3 - i,
        {
            assert(wp0.subrange(0, i as int + 1).drop_last() =~= wp0.subrange(0, i as int));
            if self.hw_watchpoints[i].is_some() {
                hw_watchpoint_slots.push(i as u32);
            }
            i = i + 1;
        }
        assert(wp0.subrange(0, 3) =~= wp0);
        let mut restores: Vec<SwBreakpoint> = Vec::new();
        let mut i: usize = 0;
        while i < 16
            invariant
                i <= 16,
                sw0 == self.sw_breakpoints@,
                hw0 == self.hw_breakpoints@,
                wp0 == self.hw_watchpoints@,
                sw0.len() == 16,
                restores@ == sw_entries(sw0.subrange(0, i as int)),
            decreases 16 - i,
        {
            assert(sw0.subrange(0, i as int + 1).drop_last() =~= sw0.subrange(0, i as int));
            if let Some(b) = self.sw_breakpoints[i] {
                restores.push(b);
            }
            i = i + 1;
        }
        assert(sw0.subrange(0, 16) =~= sw0);
        self.hw_breakpoints = [None; 6];
        self.sw_breakpoints = [None; 16];
        ClearAll { pid: self.pid, hw_breakpoint_slots, hw_watchpoint_slots, restores }
    }

    /// Snapshot of the attached process and the armed addresses.
    pub fn dump_state(&self) -> (d: DumpState)
        requires
            self.wf(),
        ensures
            d.pid == (if self.raw_pid() == PID_UNUSED {
                None
            } else {
                Some(self.raw_pid())
            }),
            hw_bp_list(d.hw_breakpoints) == hw_bp_addrs(self.hw_bps()),
            hw_wp_list(d.hw_watchpoints) == hw_wp_addrs(self.hw_wps()),
            sw_bp_list(d.sw_breakpoints) == sw_bp_addrs(self.sw_bps()),
    {
        let ghost hw0 = self.hw_breakpoints@;
        let mut hw_breakpoints = hw_bp_list_new();
        let mut i: usize = 0;
        while i < 6
            invariant
                i <= 6,
                hw0 == self.hw_breakpoints@,
                hw0.len() == 6,
                hw_bp_list(hw_breakpoints) == hw_bp_addrs(hw0.subrange(0, i as int)),
            decreases 6 - i,
        {
            assert(hw0.subrange(0, i as int + 1).drop_last() =~= hw0.subrange(0, i as int));
            if let Some(b) = &self.hw_breakpoints[i] {
                proof {
                    lemma_hw_bp_addrs_len(hw0.subrange(0, i as int));
                }
                hw_bp_list_push(&mut hw_breakpoints, b.addr);
            }
            i = i + 1;
        }
        assert(hw0.subrange(0, 6) =~= hw0);
        let ghost wp0 = self.hw_watchpoints@;
        let mut hw_watchpoints = hw_wp_list_new();
        let mut i: usize = 0;
        while i < 3
            invariant
                i <= 3,
                wp0 == self.hw_watchpoints@,
                wp0.len() == 3,
                hw_wp_list(hw_watchpoints) == hw_wp_addrs(wp0.subrange(0, i as int)),
            decreases 3 - i,
        {
            assert(wp0.subrange(0, i as int + 1).drop_last() =~= wp0.subrange(0, i as int));
            if let Some(w) = &self.hw_watchpoints[i] {
                proof {
                    lemma_hw_wp_addrs_len(wp0.subrange(0, i as int));
                }
                hw_wp_list_push(&mut hw_watchpoints, w.addr);
            }
            i = i + 1;
        }
        assert(wp0.subrange(0, 3) =~= wp0);
        let ghost sw0 = self.sw_breakpoints@;
        let mut sw_breakpoints = sw_bp_list_new();
        let mut i: usize = 0;
        while i < 16
            invariant
                i <= 16,
                sw0 == self.sw_breakpoints@,
                sw0.len() == 16,
                sw_bp_list(sw_breakpoints) == sw_bp_addrs(sw0.subrange(0, i as int)),
            decreases 16 - i,
        {
            assert(sw0.subrange(0, i as int + 1).drop_last() =~= sw0.subrange(0, i as int));
            if let Some(b) = &self.sw_breakpoints[i] {
                proof {
                    lemma_sw_bp_addrs_len(sw0.subrange(0, i as int));
                }
                sw_bp_list_push(&mut sw_breakpoints, b.addr);
            }
            i = i + 1;
        }
        assert(sw0.subrange(0, 16) =~= sw0);
        DumpState { pid: self.pid(), hw_breakpoints, hw_watchpoints, sw_breakpoints }
    }

    /// Takes the next stop to report, by priority: a pending exit, then a
    /// finished single step (as `SIGTRAP`), then the oldest queued
    /// exception event.
    pub fn poll_stop(&mut self) -> (r: Option<StopReason>)
        requires
            old(self).wf(),
        ensures
            final(self).wf(),
            !final(self).exit_pending(),
            old(self).exit_pending() ==> r == Some(StopReason::Exited(0)) && final(self).events()
                == old(self).events() && final(self).finished_step() == old(self).finished_step(),
            !old(self).exit_pending() && old(self).finished_step() is Some ==> r == Some(
                StopReason::SignalWithThread {
                    tid: old(self).finished_step()->Some_0,
                    signal: SIGTRAP,
                },
            ) && final(self).finished_step() is None && final(self).events() == old(self).events(),
            !old(self).exit_pending() && old(self).finished_step() is None ==> final(self).events()
                == queue_pop(old(self).events()).1 && r == (match queue_pop(old(self).events()).0 {
                Some(ev) => Some(spec_stop_reason(ev)),
                None => None,
            }),
            final(self).hw_bps() == old(self).hw_bps(),
            final(self).hw_wps() == old(self).hw_wps(),
            final(self).sw_bps() == old(self).sw_bps(),
            final(self).raw_pid() == old(self).raw_pid(),
            final(self).flag() == old(self).flag(),
            final(self).pending_step() == old(self).pending_step(),
    {
        if self.pop_exited() {
            return Some(StopReason::Exited(0));
        }
        if let Some(tid) = self.pop_step_finished() {
            return Some(StopReason::SignalWithThread { tid, signal: SIGTRAP });
        }
        match self.pop_excp() {
            Some(ev) => Some(stop_reason_from(ev)),
            None => None,
        }
    }

    /// Removes the software breakpoint at `addr` and hands back what must
    /// be written to restore the code. Nothing changes when the session is
    /// detached or no breakpoint is set there.
    pub fn take_sw_breakpoint(&mut self, addr: u32) -> (take: SwTake)
        requires
            old(self).wf(),
        ensures
            final(self).wf(),
            take_outcome(old(self).raw_pid(), old(self).sw_bps(), addr, take, final(self).sw_bps()),
            final(self).flag() == old(self).flag(),
            final(self).raw_pid() == old(self).raw_pid(),
            final(self).hw_bps() == old(self).hw_bps(),
            final(self).hw_wps() == old(self).hw_wps(),
            final(self).events() == old(self).events(),
            final(self).pending_step() == old(self).pending_step(),
            final(self).finished_step() == old(self).finished_step(),
            final(self).exit_pending() == old(self).exit_pending(),
    {
        if self.pid == PID_UNUSED {
            return SwTake::NoProcess;
        }
        let mut i: usize = 0;
        while i < 16
            invariant
                i <= 16,
                *self == *old(self),
                self.wf(),
                self.pid != PID_UNUSED,
                self.sw_breakpoints@.len() == 16,
                forall|j: int| 0 <= j < i ==> !((#[trigger] self.sw_breakpoints@[j]) matches Some(b) && b.addr == addr),
            decreases 16 - i,
        {
            if let Some(b) = self.sw_breakpoints[i] {
                if b.addr == addr {
                    let mut bytes: Vec<u8> = Vec::new();
                    let mut k: usize = 0;
                    while k < b.patch_len
                        invariant
                            k <= b.patch_len,
                            b.patch_len == 2 || b.patch_len == 4,
                            bytes@ == b.orig@.subrange(0, k as int),
                        decreases b.patch_len - k,
                    {
                        bytes.push(b.orig[k]);
                        k = k + 1;
                    }
                    self.sw_breakpoints[i] = None;
                    return SwTake::Restore { pid: self.pid, addr, bytes };
                }
            }
            i = i + 1;
        }
        SwTake::NotFound
    }

    /// Whether a hardware watchpoint is armed at `addr`.
    pub fn has_watchpoint(&self, addr: u32) -> (b: bool)
        requires
            self.wf(),
        ensures
            b == hw_wp_at(self.hw_wps(), addr),
    {
        let mut i: usize = 0;
        while i < 3
            invariant
                i <= 3,
                self.hw_watchpoints@.len() == 3,
                forall|j: int| 0 <= j < i ==> !((#[trigger] self.hw_watchpoints@[j]) matches Some(w) && w.addr == addr),
            decreases 3 - i,
        {
            if let Some(w) = &self.hw_watchpoints[i] {
                if w.addr == addr {
                    return true;
                }
            }
            i = i + 1;
        }
        false
    }
}

/// `take` asks to write `bytes` back at `addr` in process `pid`.
pub open spec fn is_restore(take: SwTake, pid: i32, addr: u32, bytes: Seq<u8>) -> bool {
    match take {
        SwTake::Restore { pid: p, addr: a, bytes: b } => p == pid && a == addr && b@ == bytes,
        _ => false,
    }
}

/// What removing the software breakpoint at `addr` from the table `before`
/// of a session with raw pid `pid` does: the outcome `take` and the table
/// `after`.
pub open spec fn take_outcome(
    pid: i32,
    before: Seq<Option<SwBreakpoint>>,
    addr: u32,
    take: SwTake,
    after: Seq<Option<SwBreakpoint>>,
) -> bool {
    if pid == PID_UNUSED {
        take == SwTake::NoProcess && after == before
    } else if !sw_bp_at(before, addr) {
        take == SwTake::NotFound && after == before
    } else {
        exists|i: int|
            #![trigger before[i]]
            {
                &&& 0 <= i < before.len()
                &&& before[i] is Some
                &&& before[i]->Some_0.addr == addr
                &&& after == before.update(i, None)
                &&& is_restore(take, pid, addr, saved_bytes(before[i]->Some_0))
            }
    }
}

/// Index of the first session slot whose raw pid is `pid` (for
/// `PID_UNUSED`, the first detached slot).
pub fn find_session_for_pid(pool: &Vec<GdbSessionInner>, pid: i32) -> (r: Option<usize>)
    ensures
        match r {
            Some(i) => find_from(pool@, attached_to(pid), 0) == Some(i as int),
            None => find_from(pool@, attached_to(pid), 0) is None,
        },
{
    let mut i: usize = 0;
    while i < pool.len()
        invariant
            i <= pool@.len(),
            find_from(pool@, attached_to(pid), 0) == find_from(pool@, attached_to(pid), i as int),
        decreases pool@.len() - i,
    {
        if pool[i].pid == pid {
            return Some(i);
        }
        i = i + 1;
    }
    None
}

/// Attaches the first detached slot of `pool` to `pid` for the worker with
/// event flag `flag`; `None`, changing nothing, when every slot is in use.
pub fn claim_session(pool: &mut Vec<GdbSessionInner>, flag: i32, pid: i32) -> (r: Option<usize>)
    requires
        forall|i: int| 0 <= i < old(pool)@.len() ==> (#[trigger] old(pool)@[i]).wf(),
    ensures
        forall|i: int| 0 <= i < final(pool)@.len() ==> (#[trigger] final(pool)@[i]).wf(),
        final(pool)@.len() == old(pool)@.len(),
        match r {
            Some(i) => {
                &&& find_from(old(pool)@, attached_to(PID_UNUSED), 0) == Some(i as int)
                &&& final(pool)@[i as int].raw_pid() == pid
                &&& final(pool)@[i as int].flag() == Some(flag)
                &&& final(pool)@[i as int].hw_bps() == old(pool)@[i as int].hw_bps()
                &&& final(pool)@[i as int].hw_wps() == old(pool)@[i as int].hw_wps()
                &&& final(pool)@[i as int].sw_bps() == old(pool)@[i as int].sw_bps()
                &&& final(pool)@[i as int].events() == old(pool)@[i as int].events()
                &&& final(pool)@[i as int].pending_step() == old(pool)@[i as int].pending_step()
                &&& final(pool)@[i as int].finished_step() == old(pool)@[i as int].finished_step()
                &&& final(pool)@[i as int].exit_pending() == old(pool)@[i as int].exit_pending()
                &&& forall|j: int| 0 <= j < final(pool)@.len() && j != i ==> final(pool)@[j] == old(pool)@[j]
            },
            None => find_from(old(pool)@, attached_to(PID_UNUSED), 0) is None && final(pool)@ == old(pool)@,
        },
{
    match find_session_for_pid(pool, PID_UNUSED) {
        None => None,
        Some(i) => {
            proof {
                lemma_find_from(pool@, attached_to(PID_UNUSED), 0);
            }
            pool[i].claim(flag, pid);
            Some(i)
        },
    }
}

/// A hardware breakpoint is already armed at `addr` exactly when setting
/// one there has nothing to do.
pub proof fn law_hw_breakpoint_set_is_idempotent(t: Seq<Option<HwBreakpoint>>, addr: u32)
    ensures
        (plan_set_hw_bp(t, addr) == SlotPlan::Done) == hw_bp_at(t, addr),
{
    lemma_find_from(t, holds_hw_bp(addr), 0);
    if hw_bp_at(t, addr) {
    }
}

/// Setting a hardware breakpoint where there is none arms the lowest free
/// slot; clearing it afterwards disarms the same register and gives the
/// table back as it was.
pub proof fn law_hw_breakpoint_set_then_clear(t: Seq<Option<HwBreakpoint>>, addr: u32)
    requires
        t.len() == HW_BREAKPOINT_SLOTS,
        plan_set_hw_bp(t, addr) is Write,
    ensures
        ({
            let w = plan_set_hw_bp(t, addr)->Write_0;
            let t1 = t.update(w.index as int, Some(HwBreakpoint { addr }));
            &&& w.addr == addr
            &&& w.control == spec_bp_control()
            &&& hw_bp_at(t1, addr)
            &&& plan_clear_hw_bp(t1, addr) == SlotPlan::Write(
                DebugRegWrite { index: w.index, addr: 0, control: 0 },
            )
            &&& t1.update(w.index as int, None) == t
        }),
{
    lemma_find_from(t, holds_hw_bp(addr), 0);
    lemma_find_from(t, is_free(), 0);
    let i = find_from(t, is_free(), 0)->Some_0;
    let t1 = t.update(i, Some(HwBreakpoint { addr }));
    lemma_find_from(t1, holds_hw_bp(addr), 0);
    let k = find_from(t1, holds_hw_bp(addr), 0)->Some_0;
    if k < i {
    }
    assert(t1[i] is Some && t1[i]->Some_0.addr == addr);
}

/// Once a planned clear of the hardware breakpoint at `addr` is committed,
/// no slot holds a breakpoint there.
pub proof fn law_hw_breakpoint_clear_removes(t: Seq<Option<HwBreakpoint>>, addr: u32)
    requires
        unique_hw_bps(t),
        t.len() == HW_BREAKPOINT_SLOTS,
        plan_clear_hw_bp(t, addr) is Write,
    ensures
        !hw_bp_at(t.update(plan_clear_hw_bp(t, addr)->Write_0.index as int, None), addr),
{
    lemma_find_from(t, holds_hw_bp(addr), 0);
    let i = find_from(t, holds_hw_bp(addr), 0)->Some_0;
}

/// On a session with no watchpoint, setting one arms the first slot with
/// the control word of its kind and makes it visible; clearing it
/// afterwards disarms that register and empties the table again.
pub proof fn law_hw_watchpoint_set_then_clear(t: Seq<Option<HwWatchpoint>>, addr: u32, kind: WatchKind)
    requires
        t.len() == HW_WATCHPOINT_SLOTS,
        all_free(t),
    ensures
        plan_set_hw_wp(t, addr, kind) == SlotPlan::Write(
            DebugRegWrite { index: 0, addr, control: spec_wp_control(kind) },
        ),
        hw_wp_at(commit_set_hw_wp(t, 0, addr, kind), addr),
        plan_clear_hw_wp(commit_set_hw_wp(t, 0, addr, kind), addr) == SlotPlan::Write(
            DebugRegWrite { index: 0, addr: 0, control: 0 },
        ),
        commit_set_hw_wp(t, 0, addr, kind).update(0, None) == t,
{
    lemma_find_from(t, is_used(), 0);
}

/// A software breakpoint claimed at an address that had none and then
/// taken out hands back exactly the instruction bytes it saved, the table
/// is as it was before the claim, and taking it out once more finds
/// nothing and changes nothing.
pub proof fn law_sw_breakpoint_round_trip(
    pid: i32,
    t: Seq<Option<SwBreakpoint>>,
    addr: u32,
    orig: [u8; 4],
    patch_len: usize,
    take: SwTake,
    after: Seq<Option<SwBreakpoint>>,
    take2: SwTake,
    after2: Seq<Option<SwBreakpoint>>,
)
    requires
        pid != PID_UNUSED,
        t.len() == SW_BREAKPOINT_SLOTS,
        claim_sw(t, addr, orig, patch_len).0 is Claimed,
        take_outcome(pid, claim_sw(t, addr, orig, patch_len).1, addr, take, after),
        take_outcome(pid, after, addr, take2, after2),
    ensures
        is_restore(take, pid, addr, orig@.subrange(0, patch_len as int)),
        after == t,
        take2 == SwTake::NotFound,
        after2 == after,
{
    lemma_find_from(t, holds_sw_bp(addr), 0);
    lemma_find_from(t, is_free(), 0);
    let i = find_from(t, is_free(), 0)->Some_0;
    let t1 = claim_sw(t, addr, orig, patch_len).1;
    assert(t1[i] is Some && t1[i]->Some_0.addr == addr);
    let k = choose|k: int|
        #![trigger t1[k]]
        {
            &&& 0 <= k < t1.len()
            &&& t1[k] is Some
            &&& t1[k]->Some_0.addr == addr
            &&& after == t1.update(k, None)
            &&& is_restore(take, pid, addr, saved_bytes(t1[k]->Some_0))
        };
    if k != i {
    }
    assert(after =~= t);
    assert(!sw_bp_at(t, addr)) by {
        if sw_bp_at(t, addr) {
            let j = choose|j: int| 0 <= j < t.len() && (#[trigger] t[j]) is Some && t[j]->Some_0.addr == addr;
            assert(holds_sw_bp(addr)(t[j]));
        }
    }
}

/// A slot claimed for a software breakpoint and released again, because
/// writing the breakpoint instruction failed, leaves the table as it was
/// before the claim.
pub proof fn law_sw_breakpoint_failed_set(
    t: Seq<Option<SwBreakpoint>>,
    addr: u32,
    orig: [u8; 4],
    patch_len: usize,
)
    requires
        t.len() == SW_BREAKPOINT_SLOTS,
        claim_sw(t, addr, orig, patch_len).0 is Claimed,
    ensures
        claim_sw(t, addr, orig, patch_len).1.update(
            claim_sw(t, addr, orig, patch_len).0->Claimed_0 as int,
            None,
        ) == t,
{
    lemma_find_from(t, is_free(), 0);
    let i = find_from(t, is_free(), 0)->Some_0;
    assert(claim_sw(t, addr, orig, patch_len).1.update(i, None) =~= t);
}

/// Clearing a hardware watchpoint touches only a slot that holds one at
/// that address: with none there the plan is `NoSlot`; otherwise it
/// disarms (address and control word zero) a slot whose watchpoint is at
/// `addr`, and no lower slot holds one there.
pub proof fn law_hw_watchpoint_clear_targets_its_address(t: Seq<Option<HwWatchpoint>>, addr: u32)
    requires
        t.len() == HW_WATCHPOINT_SLOTS,
    ensures
        !hw_wp_at(t, addr) ==> plan_clear_hw_wp(t, addr) == SlotPlan::NoSlot,
        hw_wp_at(t, addr) ==> plan_clear_hw_wp(t, addr) is Write,
        plan_clear_hw_wp(t, addr) matches SlotPlan::Write(w) ==> {
            &&& w.index < t.len()
            &&& t[w.index as int] matches Some(wp) && wp.addr == addr
            &&& w.addr == 0 && w.control == 0
            &&& forall|j: int| 0 <= j < w.index ==> !(#[trigger] t[j] matches Some(o) && o.addr == addr)
        },
{
    lemma_find_from(t, holds_hw_wp(addr), 0);
    if hw_wp_at(t, addr) {
        let k = choose|k: int| 0 <= k < t.len() && (#[trigger] t[k]) is Some && t[k]->Some_0.addr == addr;
        assert(holds_hw_wp(addr)(t[k]));
    }
    if let Some(i) = find_from(t, holds_hw_wp(addr), 0) {
        assert(holds_hw_wp(addr)(t[i]));
        assert forall|j: int| 0 <= j < i implies !(#[trigger] t[j] matches Some(o) && o.addr == addr) by {
            assert(!holds_hw_wp(addr)(t[j]));
        }
    }
}

/// Clearing a hardware breakpoint touches only a slot that holds one at
/// that address: with none there the plan is `NoSlot`; otherwise it
/// disarms a slot whose breakpoint is at `addr`, and no lower slot holds
/// one there.
pub proof fn law_hw_breakpoint_clear_targets_its_address(t: Seq<Option<HwBreakpoint>>, addr: u32)
    requires
        t.len() == HW_BREAKPOINT_SLOTS,
    ensures
        !hw_bp_at(t, addr) ==> plan_clear_hw_bp(t, addr) == SlotPlan::NoSlot,
        hw_bp_at(t, addr) ==> plan_clear_hw_bp(t, addr) is Write,
        plan_clear_hw_bp(t, addr) matches SlotPlan::Write(w) ==> {
            &&& w.index < t.len()
            &&& t[w.index as int] matches Some(bp) && bp.addr == addr
            &&& w.addr == 0 && w.control == 0
            &&& forall|j: int| 0 <= j < w.index ==> !(#[trigger] t[j] matches Some(o) && o.addr == addr)
        },
{
    lemma_find_from(t, holds_hw_bp(addr), 0);
    if hw_bp_at(t, addr) {
        let k = choose|k: int| 0 <= k < t.len() && (#[trigger] t[k]) is Some && t[k]->Some_0.addr == addr;
        assert(holds_hw_bp(addr)(t[k]));
    }
    if let Some(i) = find_from(t, holds_hw_bp(addr), 0) {
        assert(holds_hw_bp(addr)(t[i]));
        assert forall|j: int| 0 <= j < i implies !(#[trigger] t[j] matches Some(o) && o.addr == addr) by {
            assert(!holds_hw_bp(addr)(t[j]));
        }
    }
}

} // verus!
