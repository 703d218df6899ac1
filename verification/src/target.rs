//! Decisions of the debug target that do not touch the kernel: what to
//! launch for GDB's `run`, which part of a path or name to copy into a
//! reply buffer, the resume actions GDB asks for and how they translate
//! into thread states, and where a single step has to stop.

use vstd::prelude::*;
use vstd::string::StringSliceAdditionalSpecFns;
use vstd::utf8::valid_utf8;
use crate::utils::{
    law_write_state_concat, stream_write, str_from_utf8, write_state, ArgvWriter, SceError,
    StreamWriter,
};
use crate::armv7::Armv7Regs;
use crate::next_pc::{next_pc, try_next_pc, next_pc_defined, spec_next_pc, wadd, MemReader, NextPcError, RegContext};
use crate::session::BreakpointKind;
use arrayvec::ArrayVec;

verus! {

/// Size of the buffer the launch path is written to, NUL included.
pub const LAUNCH_PATH_CAPACITY: usize = 128;

/// Title id used when the launched file is not named by one.
pub const DEFAULT_TITLE_ID: &'static str = "MLCL05505";

/// Why GDB's `run` request cannot be turned into a launch.
#[derive(Debug, Clone, Copy, PartialEq, Eq, Structural)]
pub enum LaunchError {
    /// No file name was given.
    NoFilename,
    /// The file name is not valid UTF-8.
    InvalidFilename,
    /// The path does not fit the path buffer with its NUL, or holds a NUL.
    PathTooLong,
}

/// What to launch: the NUL-terminated executable path and the argument
/// block.
#[derive(Debug, Clone, PartialEq, Eq)]
pub struct LaunchPlan {
    pub path: Vec<u8>,
    pub argv: Vec<u8>,
}

/// A nine-byte file name is a title id, launched from its application
/// directory; any other name is a path.
pub open spec fn launch_path(name: Seq<u8>) -> Seq<u8> {
    if name.len() == 9 {
        "ux0:app/".spec_bytes() + name + "/eboot.bin".spec_bytes()
    } else {
        name
    }
}

/// The title id passed to the launched process.
pub open spec fn launch_title(name: Seq<u8>) -> Seq<u8> {
    if name.len() == 9 {
        name
    } else {
        DEFAULT_TITLE_ID.spec_bytes()
    }
}

/// The launch argument block: `-titleid` and the title id, each
/// NUL-terminated.
pub open spec fn launch_argv(name: Seq<u8>) -> Seq<u8> {
    "-titleid".spec_bytes() + seq![0u8] + launch_title(name) + seq![0u8]
}

/// Writes the pieces of the launch path in order, stopping at the first
/// that does not fit.
fn write_path(w: &mut StreamWriter, name: &str) -> (ok: bool)
    requires
        old(w).wf(),
        old(w).to_skip() == 0,
        old(w).stored() == 0,
    ensures
        final(w).wf(),
        final(w).contents().len() == old(w).contents().len(),
        ok == (launch_path(name.spec_bytes()).len() <= old(w).contents().len()),
        ok ==> final(w).stored() == launch_path(name.spec_bytes()).len() && final(w).contents().subrange(
            0,
            final(w).stored() as int,
        ) == launch_path(name.spec_bytes()),
        !ok ==> final(w).stored() == final(w).contents().len(),
{
    if name.as_bytes().len() == 9 {
        if w.write_str("ux0:app/").is_err() {
            return false;
        }
        if w.write_str(name).is_err() {
            return false;
        }
        if w.write_str("/eboot.bin").is_err() {
            return false;
        }
        true
    } else {
        if w.write_str(name).is_err() {
            return false;
        }
        true
    }
}

/// Turns GDB's `run` file name into what to launch: the executable path
/// (NUL-terminated) and the argument block naming the title id.
pub fn launch_plan(filename: Option<&[u8]>) -> (r: Result<LaunchPlan, LaunchError>)
    ensures
        match filename {
            None => r == Err::<LaunchPlan, LaunchError>(LaunchError::NoFilename),
            Some(f) => if !valid_utf8(f@) {
                r == Err::<LaunchPlan, LaunchError>(LaunchError::InvalidFilename)
            } else if launch_path(f@).len() < LAUNCH_PATH_CAPACITY && !launch_path(f@).contains(0u8) {
                r is Ok && r->Ok_0.path@ == launch_path(f@).push(0u8) && r->Ok_0.argv@ == launch_argv(f@)
            } else {
                r == Err::<LaunchPlan, LaunchError>(LaunchError::PathTooLong)
            },
        },
{
    let filename = match filename {
        None => return Err(LaunchError::NoFilename),
        Some(f) => f,
    };
    let name = match str_from_utf8(filename) {
        None => return Err(LaunchError::InvalidFilename),
        Some(s) => s,
    };
    let titleid = if filename.len() == 9 {
        name
    } else {
        DEFAULT_TITLE_ID
    };
    let mut path_buf = [0u8; 128];
    let mut writer = StreamWriter::new(&mut path_buf, 0);
    write_path(&mut writer, name);
    let path = match writer.into_cstr() {
        Err(_) => return Err(LaunchError::PathTooLong),
        Ok(s) => vstd::slice::slice_to_vec(s),
    };
    proof {
        reveal_strlit("-titleid");
        reveal_strlit("MLCL05505");
        vstd::string::is_ascii_spec_bytes("-titleid");
        vstd::string::is_ascii_spec_bytes("MLCL05505");
    }
    let mut launch_args = ArgvWriter::new();
    launch_args.add("-titleid", titleid);
    let argv = vstd::slice::slice_to_vec(launch_args.to_slice());
    Ok(LaunchPlan { path, argv })
}

/// Copies the bytes of `src` from `offset` on into `buf`, at most `length`
/// of them and no more than `buf` holds; returns how many were copied
/// (none when `offset` is past the end of `src`).
pub fn copy_window(src: &[u8], offset: usize, length: usize, buf: &mut [u8]) -> (n: usize)
    ensures
        ({
            let room: int = if length < old(buf)@.len() {
                length as int
            } else {
                old(buf)@.len() as int
            };
            if offset >= src@.len() || room == 0 {
                n == 0
            } else {
                n == (if src@.len() - offset < room {
                    src@.len() - offset
                } else {
                    room
                })
            }
        }),
        offset <= src@.len() ==> n <= src@.len() - offset,
        n <= old(buf)@.len(),
        final(buf)@.len() == old(buf)@.len(),
        n > 0 ==> final(buf)@.subrange(0, n as int) == src@.subrange(offset as int, offset + n),
        final(buf)@.subrange(n as int, final(buf)@.len() as int) == old(buf)@.subrange(
            n as int,
            old(buf)@.len() as int,
        ),
{
    let copy_len = if length < buf.len() {
        length
    } else {
        buf.len()
    };
    if offset >= src.len() || copy_len == 0 {
        return 0;
    }
    let count = if src.len() - offset < copy_len {
        src.len() - offset
    } else {
        copy_len
    };
    let mut i: usize = 0;
    while i < count
        invariant
            i <= count,
            count <= buf@.len(),
            offset + count <= src@.len(),
            src@.len() <= usize::MAX,
            buf@.len() == old(buf)@.len(),
            forall|j: int| 0 <= j < i ==> buf@[j] == src@[offset + j],
            forall|j: int| i <= j < buf@.len() ==> buf@[j] == old(buf)@[j],
        decreases count - i,
    {
        buf[i] = src[offset + i];
        i = i + 1;
    }
    assert(buf@.subrange(count as int, buf@.len() as int) =~= old(buf)@.subrange(
        count as int,
        old(buf)@.len() as int,
    ));
    count
}

#[verifier::external_type_specification]
#[verifier::external_body]
#[verifier::reject_recursive_types(T)]
pub struct ExArrayVec<T, const CAP: usize>(ArrayVec<T, CAP>);

/// The threads, in order, that a continue-action list holds.
pub uninterp spec fn continue_list(v: ArrayVec<i32, 64>) -> Seq<i32>;

/// `ArrayVec::new`: an empty list.
#[verifier::external_body]
fn continue_list_new() -> (v: ArrayVec<i32, 64>)
    ensures
        continue_list(v) == Seq::<i32>::empty(),
{
    ArrayVec::new()
}

/// `ArrayVec::try_push`: appends `tid` when fewer than its capacity of 64
/// items are held, and otherwise fails and keeps the list.
#[verifier::external_body]
fn continue_list_try_push(v: &mut ArrayVec<i32, 64>, tid: i32) -> (ok: bool)
    ensures
        ok == (continue_list(*old(v)).len() < 64),
        ok ==> continue_list(*final(v)) == continue_list(*old(v)).push(tid),
        !ok ==> continue_list(*final(v)) == continue_list(*old(v)),
{
    v.try_push(tid).is_ok()
}

/// `ArrayVec::clear`: empties the list.
#[verifier::external_body]
fn continue_list_clear(v: &mut ArrayVec<i32, 64>)
    ensures
        continue_list(*final(v)) == Seq::<i32>::empty(),
{
    v.clear()
}

/// `ArrayVec::as_slice`: the items held, in order, at most 64 of them.
#[verifier::external_body]
fn continue_list_as_slice(v: &ArrayVec<i32, 64>) -> (s: &[i32])
    ensures
        s@ == continue_list(*v),
        s@.len() <= 64,
{
    v.as_slice()
}

/// Thread state that keeps a thread stopped across a resume.
pub const STATUS_SUSPEND: i32 = 1;

/// Thread state that lets a thread run on resume.
pub const STATUS_RUNNING: i32 = 2;

/// Suspend bit of a process status.
pub const PROCESS_STATUS_SUSPENDED: u32 = 0x10;

/// What GDB asked the next resume to do: the thread to single-step, the
/// threads to continue, and whether all other threads stay stopped.
pub struct ResumeActions {
    step_action: Option<i32>,
    continue_actions: ArrayVec<i32, 64>,
    scheduler_lock: bool,
}

impl ResumeActions {
    /// Thread to single-step.
    pub closed spec fn step(&self) -> Option<i32> {
        self.step_action
    }

    /// Whether threads without an action stay stopped.
    pub closed spec fn locked(&self) -> bool {
        self.scheduler_lock
    }

    /// Thread to single-step.
    pub fn step_action(&self) -> (t: Option<i32>)
        ensures
            t == self.step(),
    {
        self.step_action
    }

    /// Whether threads without an action stay stopped.
    pub fn scheduler_lock(&self) -> (b: bool)
        ensures
            b == self.locked(),
    {
        self.scheduler_lock
    }

    /// Threads to continue, in the order GDB named them.
    pub closed spec fn continues(&self) -> Seq<i32> {
        continue_list(self.continue_actions)
    }

    /// No action recorded.
    pub fn new() -> (a: Self)
        ensures
            a.step() is None,
            a.continues() == Seq::<i32>::empty(),
            !a.locked(),
    {
        ResumeActions { step_action: None, continue_actions: continue_list_new(), scheduler_lock: false }
    }

    /// Forgets every recorded action.
    pub fn clear_resume_actions(&mut self)
        ensures
            final(self).step() is None,
            final(self).continues() == Seq::<i32>::empty(),
            !final(self).locked(),
    {
        self.step_action = None;
        continue_list_clear(&mut self.continue_actions);
        self.scheduler_lock = false;
    }

    /// Records that thread `tid` continues. Continuing with a signal is
    /// refused, and so is a continue once 64 threads are listed.
    pub fn set_resume_action_continue(&mut self, tid: i32, signal: Option<u8>) -> (r: Result<(), SceError>)
        ensures
            final(self).step() == old(self).step(),
            final(self).locked() == old(self).locked(),
            signal is Some ==> r == Err::<(), SceError>(SceError { code: -1i32, func: "set_resume_action_continue" })
                && final(self).continues() == old(self).continues(),
            signal is None && old(self).continues().len() >= 64 ==> r == Err::<(), SceError>(
                SceError { code: -1i32, func: "continue_actions full" },
            ) && final(self).continues() == old(self).continues(),
            signal is None && old(self).continues().len() < 64 ==> r is Ok && final(self).continues()
                == old(self).continues().push(tid),
    {
        if signal.is_some() {
            return Err(SceError::new(-1, "set_resume_action_continue"));
        }
        if !continue_list_try_push(&mut self.continue_actions, tid) {
            return Err(SceError::new(-1, "continue_actions full"));
        }
        Ok(())
    }

    /// Records that thread `tid` single-steps; stepping with a signal is
    /// refused.
    pub fn set_resume_action_step(&mut self, tid: i32, signal: Option<u8>) -> (r: Result<(), SceError>)
        ensures
            final(self).continues() == old(self).continues(),
            final(self).locked() == old(self).locked(),
            signal is Some ==> r == Err::<(), SceError>(SceError { code: -1i32, func: "set_resume_action_step" })
                && final(self).step() == old(self).step(),
            signal is None ==> r is Ok && final(self).step() == Some(tid),
    {
        if signal.is_some() {
            return Err(SceError::new(-1, "set_resume_action_step"));
        }
        self.step_action = Some(tid);
        Ok(())
    }

    /// Records that threads without an action stay stopped.
    pub fn set_resume_action_scheduler_lock(&mut self)
        ensures
            final(self).locked(),
            final(self).step() == old(self).step(),
            final(self).continues() == old(self).continues(),
    {
        self.scheduler_lock = true;
    }

    /// Whether a resume has anything to do: the process must be suspended,
    /// and a pending exception is reported first unless a step was asked for.
    pub fn should_resume(&self, process_status: u32, has_excp: bool) -> (b: bool)
        ensures
            b == (process_status & PROCESS_STATUS_SUSPENDED != 0 && !(has_excp && self.step() is None)),
    {
        if process_status & PROCESS_STATUS_SUSPENDED == 0 {
            return false;
        }
        if has_excp && self.step_action.is_none() {
            return false;
        }
        true
    }

    /// The state thread `tid` resumes in, and whether it is the thread to
    /// single-step (which is then taken out of the actions): the stepped
    /// thread and continued threads run; the others run unless the
    /// scheduler is locked.
    pub fn resume_thread(&mut self, tid: i32) -> (r: (i32, bool))
        ensures
            r.1 == (old(self).step() == Some(tid)),
            r.0 == (if r.1 || old(self).continues().contains(tid) || !old(self).locked() {
                STATUS_RUNNING
            } else {
                STATUS_SUSPEND
            }),
            final(self).step() == (if r.1 {
                None
            } else {
                old(self).step()
            }),
            final(self).continues() == old(self).continues(),
            final(self).locked() == old(self).locked(),
    {
        let mut status = STATUS_RUNNING;
        if self.scheduler_lock {
            status = STATUS_SUSPEND;
        }
        let stepping = match self.step_action {
            Some(id) => id == tid,
            None => false,
        };
        if stepping {
            self.step_action = None;
            status = STATUS_RUNNING;
        }
        let listed = continue_list_as_slice(&self.continue_actions);
        let ghost mid = *self;
        let mut i: usize = 0;
        while i < listed.len()
            invariant
                i <= listed@.len(),
                *self == mid,
                listed@ == old(self).continues(),
                mid.continues() == old(self).continues(),
                mid.locked() == old(self).locked(),
                stepping == (old(self).step() == Some(tid)),
                mid.step() == (if stepping {
                    None
                } else {
                    old(self).step()
                }),
                status == (if stepping || !old(self).locked() {
                    STATUS_RUNNING
                } else {
                    STATUS_SUSPEND
                }),
                forall|j: int| 0 <= j < i ==> listed@[j] != tid,
            decreases listed@.len() - i,
        {
            if listed[i] == tid {
                status = STATUS_RUNNING;
                return (status, stepping);
            }
            i = i + 1;
        }
        (status, stepping)
    }
}

/// The predictor's view of the registers `regs`.
pub open spec fn reg_context_of(regs: Armv7Regs) -> RegContext {
    RegContext { r: regs.r, sp: regs.sp, lr: regs.lr, pc: regs.pc, cpsr: regs.cpsr }
}

/// The predictor's view of the registers `regs`.
pub fn arm_reg_context(regs: &Armv7Regs) -> (c: RegContext)
    ensures
        c == reg_context_of(*regs),
{
    RegContext { r: regs.r, sp: regs.sp, lr: regs.lr, pc: regs.pc, cpsr: regs.cpsr }
}

/// The registers of a thread stopped on an instruction as the predictor
/// reads them: pc reads 8 bytes ahead in ARM state and 4 in Thumb state.
pub open spec fn step_context(regs: Armv7Regs) -> RegContext {
    let thumb = (regs.cpsr >> 5u32) & 1 != 0;
    RegContext {
        r: regs.r,
        sp: regs.sp,
        lr: regs.lr,
        pc: wadd(regs.pc, if thumb {
            4
        } else {
            8
        }),
        cpsr: regs.cpsr,
    }
}

/// Where a single step of a thread stopped with `regs` ends, and the kind
/// of breakpoint to plant there.
pub open spec fn spec_step_target<M: MemReader + ?Sized>(regs: Armv7Regs, mem: &M) -> Result<
    (u32, BreakpointKind),
    NextPcError,
> {
    match spec_next_pc(step_context(regs), mem) {
        Ok((addr, thumb)) => Ok((addr, if thumb {
            BreakpointKind::Thumb16
        } else {
            BreakpointKind::Arm32
        })),
        Err(e) => Err(e),
    }
}

/// The address a single step of the thread stopped with `regs` ends at,
/// and the breakpoint kind for it (Thumb when the next instruction runs in
/// Thumb state).
pub fn single_step_target<M: MemReader>(regs: &Armv7Regs, mem: &M) -> (r: Result<(u32, BreakpointKind), NextPcError>)
    requires
        next_pc_defined(step_context(*regs), mem),
    ensures
        r == spec_step_target(*regs, mem),
{
    let ctx = step_regs(regs);
    match next_pc(&ctx, mem) {
        Ok((addr, thumb)) => Ok((addr, if thumb {
            BreakpointKind::Thumb16
        } else {
            BreakpointKind::Arm32
        })),
        Err(e) => Err(e),
    }
}

/// `single_step_target` where the prediction is defined, `None` where it is
/// not.
pub fn try_single_step_target<M: MemReader>(regs: &Armv7Regs, mem: &M) -> (r: Option<Result<(u32, BreakpointKind), NextPcError>>)
    ensures
        r is None <==> !next_pc_defined(step_context(*regs), mem),
        r matches Some(v) ==> v == spec_step_target(*regs, mem),
{
    let ctx = step_regs(regs);
    match try_next_pc(&ctx, mem) {
        None => None,
        Some(_) => Some(single_step_target(regs, mem)),
    }
}

/// `step_context` of `regs`.
fn step_regs(regs: &Armv7Regs) -> (c: RegContext)
    ensures
        c == step_context(*regs),
{
    let thumb = (regs.cpsr >> 5) & 1 != 0;
    let mut c = arm_reg_context(regs);
    c.pc = regs.pc.wrapping_add(if thumb { 4 } else { 8 });
    c
}

/// A loaded module as the library list describes it: its path (UTF-8) and
/// its segments as `(address, size)`.
#[derive(Debug, Clone)]
pub struct ModuleLayout {
    pub path: Vec<u8>,
    pub segments: Vec<(u32, u32)>,
}

/// Lower-case hexadecimal digit `d`.
pub open spec fn hex_char(d: nat) -> u8 {
    if d < 10 {
        (0x30 + d) as u8
    } else {
        (0x61 + d - 10) as u8
    }
}

/// `v` in lower-case hexadecimal without leading zeros.
pub open spec fn hex_digits(v: nat) -> Seq<u8>
    decreases v,
{
    if v < 16 {
        seq![hex_char(v)]
    } else {
        hex_digits(v / 16).push(hex_char(v % 16))
    }
}

/// Appends `v` in lower-case hexadecimal without leading zeros.
fn push_hex(out: &mut Vec<u8>, v: u32)
    ensures
        final(out)@ == old(out)@ + hex_digits(v as nat),
    decreases v,
{
    if v >= 16 {
        push_hex(out, v / 16);
    }
    let d = v % 16;
    let c: u8 = if d < 10 {
        0x30 + d as u8
    } else {
        0x61 + (d as u8 - 10)
    };
    out.push(c);
}

/// Number of leading segments with a non-zero size: the list stops at the
/// first empty segment.
pub open spec fn live_segments(segs: Seq<(u32, u32)>) -> nat
    decreases segs.len(),
{
    if segs.len() == 0 || segs[0].1 == 0 {
        0
    } else {
        1 + live_segments(segs.drop_first())
    }
}

proof fn lemma_live_segments(segs: Seq<(u32, u32)>, k: nat)
    requires
        k <= segs.len(),
        forall|j: int| 0 <= j < k ==> (#[trigger] segs[j]).1 != 0,
        k == segs.len() || segs[k as int].1 == 0,
    ensures
        live_segments(segs) == k,
    decreases k,
{
    if k > 0 {
        let t = segs.drop_first();
        assert forall|j: int| 0 <= j < k - 1 implies (#[trigger] t[j]).1 != 0 by {
        }
        lemma_live_segments(t, (k - 1) as nat);
    }
}

/// The library-list entry of a segment at `vaddr`.
pub open spec fn segment_xml(vaddr: u32) -> Seq<u8> {
    "<segment address=\"0x".spec_bytes() + hex_digits(vaddr as nat) + "\"/>".spec_bytes()
}

/// The entries of the first `n` segments of `segs`.
pub open spec fn segments_xml(segs: Seq<(u32, u32)>, n: nat) -> Seq<u8>
    decreases n,
{
    if n == 0 {
        Seq::empty()
    } else {
        segments_xml(segs, (n - 1) as nat) + segment_xml(segs[n - 1].0)
    }
}

/// The library-list entry of a module.
pub open spec fn library_xml(m: ModuleLayout) -> Seq<u8> {
    "<library name=\"".spec_bytes() + m.path@ + "\">".spec_bytes() + segments_xml(
        m.segments@,
        live_segments(m.segments@),
    ) + "</library>".spec_bytes()
}

/// The entries of the first `n` modules of `mods`.
pub open spec fn libraries_xml(mods: Seq<ModuleLayout>, n: nat) -> Seq<u8>
    decreases n,
{
    if n == 0 {
        Seq::empty()
    } else {
        libraries_xml(mods, (n - 1) as nat) + library_xml(mods[n - 1])
    }
}

/// The GDB library list of the modules `mods`.
pub open spec fn library_list_xml(mods: Seq<ModuleLayout>) -> Seq<u8> {
    "<library-list version=\"1.0\">".spec_bytes() + libraries_xml(mods, mods.len()) + "</library-list>".spec_bytes()
}

/// The state of a stream writer.
pub open spec fn writer_state(w: StreamWriter) -> (Seq<u8>, nat, nat) {
    (w.contents(), w.to_skip(), w.stored())
}

/// Writes `piece` after what was written so far, `done`, from the state
/// `st0`; the writer then stands where writing `done + piece` leaves it.
fn write_piece(w: &mut StreamWriter, piece: &[u8], Ghost(st0): Ghost<(Seq<u8>, nat, nat)>, Ghost(done): Ghost<Seq<u8>>)
    requires
        old(w).wf(),
        st0.2 <= st0.0.len(),
        writer_state(*old(w)) == write_state(st0, done),
    ensures
        final(w).wf(),
        writer_state(*final(w)) == write_state(st0, done + piece@),
{
    let _ = w.write_bytes(piece);
    proof {
        law_write_state_concat(st0, done, piece@);
    }
}

/// Writes the library-list entry of module `m`.
fn write_library(w: &mut StreamWriter, m: &ModuleLayout, Ghost(st0): Ghost<(Seq<u8>, nat, nat)>, Ghost(done): Ghost<Seq<u8>>)
    requires
        old(w).wf(),
        st0.2 <= st0.0.len(),
        writer_state(*old(w)) == write_state(st0, done),
    ensures
        final(w).wf(),
        writer_state(*final(w)) == write_state(st0, done + library_xml(*m)),
{
    let ghost mut acc = done;
    write_piece(w, "<library name=\"".as_bytes(), Ghost(st0), Ghost(acc));
    proof { acc = acc + "<library name=\"".spec_bytes(); }
    write_piece(w, m.path.as_slice(), Ghost(st0), Ghost(acc));
    proof { acc = acc + m.path@; }
    write_piece(w, "\">".as_bytes(), Ghost(st0), Ghost(acc));
    proof { acc = acc + "\">".spec_bytes(); }
    let ghost head = acc;
    let segs = m.segments.as_slice();
    let mut i: usize = 0;
    while i < segs.len()
        invariant
            i <= segs@.len(),
            segs@ == m.segments@,
            w.wf(),
            st0.2 <= st0.0.len(),
            forall|j: int| 0 <= j < i ==> (#[trigger] segs@[j]).1 != 0,
            acc == head + segments_xml(segs@, i as nat),
            writer_state(*w) == write_state(st0, acc),
        ensures
            i == segs@.len() || segs@[i as int].1 == 0,
        decreases segs@.len() - i,
    {
        let (vaddr, size) = segs[i];
        if size == 0 {
            break;
        }
        let mut hex: Vec<u8> = Vec::new();
        hex.push(0x30);
        hex.push(0x78);
        push_hex(&mut hex, vaddr);
        write_piece(w, "<segment address=\"".as_bytes(), Ghost(st0), Ghost(acc));
        proof { acc = acc + "<segment address=\"".spec_bytes(); }
        write_piece(w, hex.as_slice(), Ghost(st0), Ghost(acc));
        proof { acc = acc + hex@; }
        write_piece(w, "\"/>".as_bytes(), Ghost(st0), Ghost(acc));
        proof {
            acc = acc + "\"/>".spec_bytes();
            reveal_strlit("<segment address=\"0x");
            reveal_strlit("<segment address=\"");
            vstd::string::is_ascii_spec_bytes("<segment address=\"0x");
            vstd::string::is_ascii_spec_bytes("<segment address=\"");
        }
        i = i + 1;
    }
    proof {
        lemma_live_segments(segs@, i as nat);
    }
    write_piece(w, "</library>".as_bytes(), Ghost(st0), Ghost(acc));
    proof {
        acc = acc + "</library>".spec_bytes();
        assert(acc =~= done + library_xml(*m));
    }
}

/// Writes GDB's library list of the modules `modules`: the whole list
/// goes through the writer, so a writer that skips a prefix yields the
/// requested window of it.
pub fn write_library_list(w: &mut StreamWriter, modules: &[ModuleLayout])
    requires
        old(w).wf(),
    ensures
        final(w).wf(),
        writer_state(*final(w)) == write_state(writer_state(*old(w)), library_list_xml(modules@)),
{
    let ghost st0 = writer_state(*w);
    let ghost mut acc = Seq::<u8>::empty();
    proof {
        w.lemma_wf();
        let r = stream_write(st0.0, st0.1, st0.2, acc);
        assert(r.1 =~= st0.0);
    }
    write_piece(w, "<library-list version=\"1.0\">".as_bytes(), Ghost(st0), Ghost(acc));
    proof { acc = acc + "<library-list version=\"1.0\">".spec_bytes(); }
    let ghost head = acc;
    let mut i: usize = 0;
    while i < modules.len()
        invariant
            i <= modules@.len(),
            w.wf(),
            st0.2 <= st0.0.len(),
            acc == head + libraries_xml(modules@, i as nat),
            writer_state(*w) == write_state(st0, acc),
        decreases modules@.len() - i,
    {
        write_library(w, &modules[i], Ghost(st0), Ghost(acc));
        proof {
            acc = acc + library_xml(modules@[i as int]);
        }
        i = i + 1;
    }
    write_piece(w, "</library-list>".as_bytes(), Ghost(st0), Ghost(acc));
    proof {
        acc = acc + "</library-list>".spec_bytes();
    }
}

} // verus!
