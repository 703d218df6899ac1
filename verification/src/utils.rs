//! Kernel call errors and the fixed-buffer writers and names used around
//! kernel calls: a byte stream writer that can skip a prefix (for paged
//! replies), the NUL-separated launch argument block and process title ids.

use vstd::prelude::*;
use vstd::utf8::valid_utf8;
use vstd::string::StringSliceAdditionalSpecFns;

verus! {

/// A failed kernel call: its negative return code and the call's name.
#[derive(Debug, Clone, Copy, PartialEq, Eq)]
pub struct SceError {
    pub code: i32,
    pub func: &'static str,
}

impl SceError {
    /// The error `code` returned by the kernel function `func`.
    pub fn new(code: i32, func: &'static str) -> (e: SceError)
        ensures
            e.code == code,
            e.func == func,
    {
        SceError { code, func }
    }
}

/// What a kernel call's return value means: a negative value is the error
/// code of the call named `func`, any other value is its result.
pub fn sce_check(ret: i32, func: &'static str) -> (r: Result<i32, SceError>)
    ensures
        ret < 0 ==> r == Err::<i32, SceError>(SceError { code: ret, func }),
        ret >= 0 ==> r == Ok::<i32, SceError>(ret),
{
    if ret < 0 {
        Err(SceError::new(ret, func))
    } else {
        Ok(ret)
    }
}

/// Why a written buffer could not be turned into a NUL-terminated string.
#[derive(Debug, Clone, Copy, PartialEq, Eq, Structural)]
pub enum CStrError {
    /// No room is left for the terminating NUL.
    BufferTooSmall,
    /// The written bytes contain a NUL.
    InvalidNul,
}

/// The stream writer ran out of room.
#[derive(Debug, Clone, Copy, PartialEq, Eq, Structural)]
pub struct WriteError;

/// State of a stream writer after writing `bytes`: it first drops up to
/// `skip` bytes, then stores the rest from position `written` on as long
/// as `contents` has room. Returns whether everything fit, the contents,
/// the bytes still to skip and the new write position.
pub open spec fn stream_write(contents: Seq<u8>, skip: nat, written: nat, bytes: Seq<u8>) -> (
    bool,
    Seq<u8>,
    nat,
    nat,
) {
    let dropped: nat = if skip < bytes.len() {
        skip
    } else {
        bytes.len()
    };
    let rest = bytes.subrange(dropped as int, bytes.len() as int);
    let room: int = contents.len() - written;
    let taken: nat = if rest.len() <= room {
        rest.len()
    } else {
        room as nat
    };
    (
        rest.len() <= room,
        contents.subrange(0, written as int) + rest.subrange(0, taken as int) + contents.subrange(
            (written + taken) as int,
            contents.len() as int,
        ),
        (skip - dropped) as nat,
        written + taken,
    )
}

/// Writing a stream in pieces stores what writing it whole stores: after
/// a first piece that fit, writing the second continues exactly where the
/// whole would; after one that did not fit, the whole leaves the writer as
/// the first piece did.
pub proof fn law_stream_write_concat(c: Seq<u8>, skip: nat, written: nat, a: Seq<u8>, b: Seq<u8>)
    requires
        written <= c.len(),
    ensures
        ({
            let first = stream_write(c, skip, written, a);
            if first.0 {
                stream_write(first.1, first.2, first.3, b) == stream_write(c, skip, written, a + b)
            } else {
                stream_write(c, skip, written, a + b) == first
            }
        }),
{
    let room: int = c.len() - written;
    if skip < a.len() {
        let rest_a = a.subrange(skip as int, a.len() as int);
        if rest_a.len() <= room {
            let w1: nat = written + rest_a.len();
            let room1: int = c.len() - w1;
            let t1: nat = if b.len() <= room1 { b.len() } else { room1 as nat };
            let c1 = c.subrange(0, written as int) + rest_a + c.subrange(w1 as int, c.len() as int);
            let second = stream_write(c1, 0, w1, b);
            assert(second.1 =~= c1.subrange(0, w1 as int) + b.subrange(0, t1 as int) + c1.subrange(
                (w1 + t1) as int,
                c1.len() as int,
            ));
            assert(c1.subrange((w1 + t1) as int, c1.len() as int) =~= c.subrange(
                (w1 + t1) as int,
                c.len() as int,
            ));
        }
    }
}

/// The writer state (contents, bytes still to skip, bytes stored) after
/// writing `bytes`, whether or not they all fit.
pub open spec fn write_state(st: (Seq<u8>, nat, nat), bytes: Seq<u8>) -> (Seq<u8>, nat, nat) {
    let r = stream_write(st.0, st.1, st.2, bytes);
    (r.1, r.2, r.3)
}

/// Writing two pieces one after the other, ignoring whether each fit,
/// leaves the writer as writing them together does.
pub proof fn law_write_state_concat(st: (Seq<u8>, nat, nat), a: Seq<u8>, b: Seq<u8>)
    requires
        st.2 <= st.0.len(),
    ensures
        write_state(write_state(st, a), b) == write_state(st, a + b),
{
    law_stream_write_concat(st.0, st.1, st.2, a, b);
}

/// Writes a byte stream into a caller's buffer, after dropping its first
/// `skip` bytes.
pub struct StreamWriter<'a> {
    buf: &'a mut [u8],
    skip: usize,
    written: usize,
}

impl<'a> StreamWriter<'a> {
    /// Current buffer contents.
    pub closed spec fn contents(&self) -> Seq<u8> {
        self.buf@
    }

    /// The caller's buffer the writer writes into.
    pub closed spec fn target(&self) -> &'a mut [u8] {
        self.buf
    }

    /// The writer's contents are those of the buffer it holds; once the
    /// writer is done, the caller's buffer ends up holding them.
    pub proof fn lemma_done(&self)
        requires
            has_resolved(*self),
        ensures
            final(self.target())@ == self.contents(),
    {
    }

    /// Bytes still to be dropped.
    pub closed spec fn to_skip(&self) -> nat {
        self.skip as nat
    }

    /// Number of bytes stored so far.
    pub closed spec fn stored(&self) -> nat {
        self.written as nat
    }

    /// The write position lies inside the buffer.
    pub closed spec fn wf(&self) -> bool {
        self.written <= self.buf@.len()
    }

    /// A well-formed writer has stored no more than its buffer holds.
    pub proof fn lemma_wf(&self)
        requires
            self.wf(),
        ensures
            self.stored() <= self.contents().len(),
    {
    }

    /// A writer over `buf` that drops the first `skip` bytes written.
    pub fn new(buf: &'a mut [u8], skip: usize) -> (w: Self)
        ensures
            w.wf(),
            w.contents() == old(buf)@,
            final(w.target())@ == final(buf)@,
            w.to_skip() == skip,
            w.stored() == 0,
    {
        StreamWriter { buf, skip, written: 0 }
    }

    /// Number of bytes stored so far.
    pub fn written(&self) -> (n: usize)
        ensures
            n == self.stored(),
    {
        self.written
    }

    /// Writes the UTF-8 bytes of `s`; fails once the buffer is full, having
    /// stored what fit.
    pub fn write_str(&mut self, s: &str) -> (r: Result<(), WriteError>)
        requires
            old(self).wf(),
        ensures
            final(self).wf(),
            (r is Ok, final(self).contents(), final(self).to_skip(), final(self).stored())
                == stream_write(
                old(self).contents(),
                old(self).to_skip(),
                old(self).stored(),
                s.spec_bytes(),
            ),
            final(final(self).target())@ == final(old(self).target())@,
    {
        self.write_bytes(s.as_bytes())
    }

    /// Writes `bytes`; fails once the buffer is full, having stored what fit.
    pub fn write_bytes(&mut self, bytes: &[u8]) -> (r: Result<(), WriteError>)
        requires
            old(self).wf(),
        ensures
            final(self).wf(),
            (r is Ok, final(self).contents(), final(self).to_skip(), final(self).stored())
                == stream_write(
                old(self).contents(),
                old(self).to_skip(),
                old(self).stored(),
                bytes@,
            ),
            final(final(self).target())@ == final(old(self).target())@,
    {
        let ghost c0 = self.buf@;
        let ghost k0 = self.skip as nat;
        let ghost w0 = self.written as nat;
        let ghost dropped: nat = if k0 < bytes@.len() {
            k0
        } else {
            bytes@.len()
        };
        let ghost rest = bytes@.subrange(dropped as int, bytes@.len() as int);
        proof {
            if dropped == 0 {
                assert(c0 =~= c0.subrange(0, w0 as int) + rest.subrange(0, 0) + c0.subrange(
                    w0 as int,
                    c0.len() as int,
                ));
            }
        }
        let mut i: usize = 0;
        let mut full = false;
        while i < bytes.len()
            invariant_except_break
                !full,
            invariant
                i <= bytes@.len(),
                final(self.target())@ == final(old(self).target())@,
                self.buf@.len() == c0.len(),
                w0 <= c0.len(),
                i <= dropped ==> self.skip == k0 - i && self.written == w0 && self.buf@ == c0,
                i >= dropped ==> self.skip == k0 - dropped && self.written == w0 + (i - dropped)
                    && self.written <= c0.len() && self.buf@ == c0.subrange(0, w0 as int)
                    + rest.subrange(0, i - dropped) + c0.subrange(
                    self.written as int,
                    c0.len() as int,
                ),
                dropped == (if k0 < bytes@.len() {
                    k0
                } else {
                    bytes@.len()
                }),
                rest == bytes@.subrange(dropped as int, bytes@.len() as int),
            ensures
                full ==> (false, self.buf@, self.skip as nat, self.written as nat) == stream_write(
                    c0,
                    k0,
                    w0,
                    bytes@,
                ),
                !full ==> i == bytes@.len(),
            decreases bytes@.len() - i,
        {
            let byte = bytes[i];
            if self.skip > 0 {
                self.skip = self.skip - 1;
                i = i + 1;
                proof {
                    if i == dropped {
                        assert(c0 =~= c0.subrange(0, w0 as int) + rest.subrange(0, 0) + c0.subrange(
                            w0 as int,
                            c0.len() as int,
                        ));
                    }
                }
                continue;
            }
            if self.written < self.buf.len() {
                let w = self.written;
                self.buf[w] = byte;
                self.written = w + 1;
                proof {
                    assert(self.buf@ =~= c0.subrange(0, w0 as int) + rest.subrange(
                        0,
                        i + 1 - dropped,
                    ) + c0.subrange(self.written as int, c0.len() as int));
                }
                i = i + 1;
            } else {
                full = true;
                break;
            }
        }
        if full {
            return Err(WriteError);
        }
        proof {
            if i <= dropped {
                assert(c0 =~= c0.subrange(0, w0 as int) + rest.subrange(0, 0) + c0.subrange(
                    w0 as int,
                    c0.len() as int,
                ));
            }
        }
        Ok(())
    }

    /// The stored bytes as a NUL-terminated string: a NUL is written after
    /// them and the bytes up to and including it are returned. Fails when
    /// no room is left for the NUL, or when the stored bytes hold a NUL.
    pub fn into_cstr(self) -> (r: Result<&'a [u8], CStrError>)
        requires
            self.wf(),
        ensures
            self.stored() >= self.contents().len() ==> r == Err::<&[u8], CStrError>(
                CStrError::BufferTooSmall,
            ),
            self.stored() < self.contents().len() && self.contents().subrange(
                0,
                self.stored() as int,
            ).contains(0u8) ==> r == Err::<&[u8], CStrError>(CStrError::InvalidNul),
            self.stored() < self.contents().len() && !self.contents().subrange(
                0,
                self.stored() as int,
            ).contains(0u8) ==> r is Ok && r->Ok_0@ == self.contents().subrange(
                0,
                self.stored() as int,
            ).push(0u8),
            final(self.target())@ == (if r is Ok {
                self.contents().update(self.stored() as int, 0u8)
            } else {
                self.contents()
            }),
    {
        let w = self.written;
        if w >= self.buf.len() {
            return Err(CStrError::BufferTooSmall);
        }
        let ghost before = self.buf@;
        let mut i: usize = 0;
        while i < w
            invariant
                i <= w,
                w < before.len(),
                self.buf@ == before,
                before == self.contents(),
                w as nat == self.stored(),
                forall|j: int| 0 <= j < i ==> before[j] != 0u8,
            decreases w - i,
        {
            if self.buf[i] == 0 {
                proof {
                    assert(before.subrange(0, w as int)[i as int] == 0u8);
                }
                return Err(CStrError::InvalidNul);
            }
            i = i + 1;
        }
        let buf = self.buf;
        buf[w] = 0;
        let shared: &'a [u8] = buf;
        let s = vstd::slice::slice_subrange(shared, 0, w + 1);
        proof {
            assert forall|j: int| 0 <= j < w implies before.subrange(0, w as int)[j] != 0u8 by {}
        }
        Ok(s)
    }
}

/// Size of the launch argument block.
pub const ARGV_CAPACITY: usize = 32;

/// Builds the NUL-separated argument block passed to a launched process.
pub struct ArgvWriter {
    buf: [u8; 32],
    offset: usize,
}

impl ArgvWriter {
    /// The block so far: every appended item followed by a NUL.
    pub closed spec fn view(&self) -> Seq<u8> {
        self.buf@.subrange(0, self.offset as int)
    }

    /// The used prefix fits the buffer and everything after it is zero.
    pub closed spec fn wf(&self) -> bool {
        &&& self.offset <= 32
        &&& forall|i: int| self.offset <= i < 32 ==> self.buf@[i] == 0u8
    }

    /// An empty block.
    pub fn new() -> (w: Self)
        ensures
            w.wf(),
            w.view() == Seq::<u8>::empty(),
    {
        let w = ArgvWriter { buf: [0u8; 32], offset: 0 };
        w
    }

    /// Appends `data` and its terminating NUL when both fit with a byte to
    /// spare; returns whether they were appended.
    pub fn append(&mut self, data: &[u8]) -> (ok: bool)
        requires
            old(self).wf(),
        ensures
            final(self).wf(),
            ok == (old(self).view().len() + data@.len() < ARGV_CAPACITY),
            ok ==> final(self).view() == old(self).view() + data@ + seq![0u8],
            !ok ==> final(self).view() == old(self).view(),
    {
        let offset = self.offset;
        if data.len() >= 32 - offset {
            return false;
        }
        let ghost b0 = self.buf@;
        let mut buf = self.buf;
        let mut i: usize = 0;
        while i < data.len()
            invariant
                i <= data@.len(),
                offset + data@.len() < 32,
                buf@.len() == 32,
                b0.len() == 32,
                offset == old(self).offset,
                b0 == old(self).buf@,
                old(self).wf(),
                forall|j: int| 0 <= j < offset ==> buf@[j] == b0[j],
                forall|j: int| 0 <= j < i ==> buf@[offset + j] == data@[j],
                forall|j: int| offset + i <= j < 32 ==> buf@[j] == b0[j],
            decreases data@.len() - i,
        {
            buf[offset + i] = data[i];
            i = i + 1;
        }
        *self = ArgvWriter { buf, offset: offset + data.len() + 1 };
        proof {
            let n = offset + data@.len();
            assert(buf@[n as int] == b0[n as int]);
            assert forall|j: int| self.offset <= j < 32 implies self.buf@[j] == 0u8 by {
                assert(buf@[j] == b0[j]);
            }
        }
        true
    }

    /// Appends `name` and `value` as two items. Returns `false` when one of
    /// them does not fit; when `value` is the one, `name` stays appended.
    pub fn add(&mut self, name: &str, value: &str) -> (ok: bool)
        requires
            old(self).wf(),
        ensures
            final(self).wf(),
            ({
                let n = name.spec_bytes();
                let v = value.spec_bytes();
                let l = old(self).view().len();
                if l + n.len() >= ARGV_CAPACITY {
                    !ok && final(self).view() == old(self).view()
                } else if l + n.len() + 1 + v.len() >= ARGV_CAPACITY {
                    !ok && final(self).view() == old(self).view() + n + seq![0u8]
                } else {
                    ok && final(self).view() == old(self).view() + n + seq![0u8] + v + seq![0u8]
                }
            }),
    {
        let name = name.as_bytes();
        let value = value.as_bytes();
        if !self.append(name) {
            return false;
        }
        if !self.append(value) {
            return false;
        }
        true
    }

    /// The block built so far.
    pub fn to_slice(&self) -> (s: &[u8])
        requires
            self.wf(),
        ensures
            s@ == self.view(),
    {
        vstd::slice::slice_subrange(self.buf.as_slice(), 0, self.offset)
    }
}

/// Length of the part of `s` before its first NUL (all of `s` when it
/// holds none).
pub open spec fn nul_prefix_len(s: Seq<u8>) -> nat
    decreases s.len(),
{
    if s.len() == 0 {
        0
    } else if s[0] == 0u8 {
        0
    } else {
        1 + nul_prefix_len(s.drop_first())
    }
}

/// Length of the NUL-terminated name in `name`: the bytes before its
/// first NUL, or all of them.
pub fn nul_terminated_len(name: &[u8]) -> (n: usize)
    ensures
        n == nul_prefix_len(name@),
        n <= name@.len(),
{
    let mut i: usize = 0;
    assert(name@.subrange(0, name@.len() as int) =~= name@);
    while i < name.len()
        invariant
            i <= name@.len(),
            forall|j: int| 0 <= j < i ==> name@[j] != 0u8,
            nul_prefix_len(name@) == i + nul_prefix_len(name@.subrange(i as int, name@.len() as int)),
        decreases name@.len() - i,
    {
        if name[i] == 0 {
            return i;
        }
        proof {
            let t = name@.subrange(i as int, name@.len() as int);
            assert(t.drop_first() =~= name@.subrange(i + 1, name@.len() as int));
        }
        i = i + 1;
    }
    i
}

/// Decodes `bytes` as UTF-8 with `core::str::from_utf8`; `None` when they
/// are not valid UTF-8. The contract restates the function's documentation:
/// it succeeds exactly on valid UTF-8, and the string it returns consists
/// of the given bytes.
#[verifier::external_body]
pub(crate) fn str_from_utf8(bytes: &[u8]) -> (r: Option<&str>)
    ensures
        r is Some == valid_utf8(bytes@),
        r matches Some(s) ==> s.spec_bytes() == bytes@,
{
    core::str::from_utf8(bytes).ok()
}

/// A process title id: up to sixteen bytes, NUL-padded.
#[derive(Debug, Clone, Copy, PartialEq, Eq)]
pub struct TitleId([u8; 16]);

/// The bytes of a title id that name it: those before the first NUL.
pub open spec fn title_name(b: Seq<u8>) -> Seq<u8> {
    b.subrange(0, nul_prefix_len(b) as int)
}

/// The text of a title id: its name when that is valid UTF-8, else empty.
pub open spec fn title_text(b: Seq<u8>) -> Seq<u8> {
    if valid_utf8(title_name(b)) {
        title_name(b)
    } else {
        Seq::empty()
    }
}

impl TitleId {
    /// The sixteen raw bytes.
    pub closed spec fn bytes(&self) -> Seq<u8> {
        self.0@
    }

    /// The empty title id.
    pub fn new() -> (t: Self)
        ensures
            t.bytes() == Seq::new(16, |_i: int| 0u8),
    {
        let t = TitleId([0u8; 16]);
        t
    }

    /// The title id spelled by `name` (a C string's bytes without its NUL):
    /// its first sixteen bytes, NUL-padded.
    pub fn from_bytes(name: &[u8]) -> (t: Self)
        ensures
            t.bytes().len() == 16,
            forall|i: int| 0 <= i < 16 ==> #[trigger] t.bytes()[i] == (if i < name@.len() {
                name@[i]
            } else {
                0u8
            }),
    {
        let mut title_id = [0u8; 16];
        let len = if name.len() < 16 {
            name.len()
        } else {
            16
        };
        let mut i: usize = 0;
        while i < len
            invariant
                i <= len,
                len <= 16,
                len <= name@.len(),
                len == 16 || len == name@.len(),
                title_id@.len() == 16,
                forall|j: int| 0 <= j < i ==> title_id@[j] == name@[j],
                forall|j: int| i <= j < 16 ==> title_id@[j] == 0u8,
            decreases len - i,
        {
            title_id[i] = name[i];
            i = i + 1;
        }
        TitleId(title_id)
    }

    /// The title id as text: the bytes before the first NUL, or the empty
    /// string when those are not valid UTF-8.
    pub fn as_str(&self) -> (s: &str)
        ensures
            s.spec_bytes() == title_text(self.bytes()),
    {
        let all = self.0.as_slice();
        let len = nul_terminated_len(all);
        match str_from_utf8(vstd::slice::slice_subrange(all, 0, len)) {
            Some(s) => s,
            None => {
                let s = "";
                proof {
                    reveal_strlit("");
                }
                s
            },
        }
    }

    /// Whether the title id reads as `other`.
    pub fn eq_str(&self, other: &str) -> (b: bool)
        ensures
            b == (title_text(self.bytes()) == other.spec_bytes()),
    {
        let mine = self.as_str().as_bytes();
        let theirs = other.as_bytes();
        if mine.len() != theirs.len() {
            return false;
        }
        let mut i: usize = 0;
        while i < mine.len()
            invariant
                i <= mine@.len(),
                mine@.len() == theirs@.len(),
                mine@ == title_text(self.bytes()),
                theirs@ == other.spec_bytes(),
                forall|j: int| 0 <= j < i ==> mine@[j] == theirs@[j],
            decreases mine@.len() - i,
        {
            if mine[i] != theirs[i] {
                return false;
            }
            i = i + 1;
        }
        assert(mine@ =~= theirs@);
        true
    }
}

/// First word of an import stub that the module loader has not resolved
/// (`sub ip, pc, #8`).
pub const UNRESOLVED_STUB_WORD: u32 = 0xe24f_c008;

/// Address of the first word of the import stub at `addr` (the Thumb bit
/// cleared).
pub fn stub_word_address(addr: usize) -> (a: usize)
    ensures
        a == addr & !1usize,
{
    addr & !1usize
}

/// Whether an import stub whose first word is `word` is still unresolved,
/// that is, the module it imports from is not loaded.
pub fn stub_is_unresolved(word: u32) -> (b: bool)
    ensures
        b == (word == UNRESOLVED_STUB_WORD),
{
    word == UNRESOLVED_STUB_WORD
}

/// What the secure processor bridge's status means: 1, 2 and 3 are its
/// failures (reported as -1, -2 and -3), anything else is the value it
/// returned.
pub fn bridge_result(status: u32) -> (r: Result<u32, SceError>)
    ensures
        status == 1 ==> r == Err::<u32, SceError>(SceError { code: -1i32, func: "fud_bridge_exec" }),
        status == 2 ==> r == Err::<u32, SceError>(SceError { code: -2i32, func: "fud_bridge_exec" }),
        status == 3 ==> r == Err::<u32, SceError>(SceError { code: -3i32, func: "fud_bridge_exec" }),
        !(1 <= status <= 3) ==> r == Ok::<u32, SceError>(status),
{
    match status {
        1 => Err(SceError::new(-1, "fud_bridge_exec")),
        2 => Err(SceError::new(-2, "fud_bridge_exec")),
        3 => Err(SceError::new(-3, "fud_bridge_exec")),
        val => Ok(val),
    }
}

/// The NUL-terminated prefix of `s` ends at `k` when no byte before `k` is
/// NUL and `k` is the end of `s` or holds a NUL.
pub proof fn lemma_nul_prefix_len(s: Seq<u8>, k: nat)
    requires
        k <= s.len(),
        forall|j: int| 0 <= j < k ==> s[j] != 0u8,
        k == s.len() || s[k as int] == 0u8,
    ensures
        nul_prefix_len(s) == k,
    decreases k,
{
    if k > 0 {
        let t = s.drop_first();
        assert forall|j: int| 0 <= j < k - 1 implies t[j] != 0u8 by {
        }
        lemma_nul_prefix_len(t, (k - 1) as nat);
    }
}

/// A title id made from a name of at most sixteen bytes that is valid
/// UTF-8 and holds no NUL reads back as that name.
pub proof fn law_title_id_round_trip(name: Seq<u8>, t: TitleId)
    requires
        name.len() <= 16,
        valid_utf8(name),
        !name.contains(0u8),
        t.bytes().len() == 16,
        forall|i: int| 0 <= i < 16 ==> #[trigger] t.bytes()[i] == (if i < name.len() {
            name[i]
        } else {
            0u8
        }),
    ensures
        title_text(t.bytes()) == name,
{
    let b = t.bytes();
    assert forall|j: int| 0 <= j < name.len() implies b[j] != 0u8 by {
        if name[j] == 0u8 {
        }
    }
    if name.len() < 16 {
    }
    lemma_nul_prefix_len(b, name.len());
    assert(title_name(b) =~= name);
}

} // verus!
