//! The buffering of the GDB connection: a receive buffer that a network
//! reader thread fills and the session worker drains byte by byte, a pool
//! of such buffers, and the send buffer that collects outgoing bytes until
//! it is full or flushed.

use vstd::prelude::*;
use crate::utils::SceError;

verus! {

/// Size of the receive and send buffers.
pub const BUFFER_SIZE: usize = 0x40;

/// Number of connections that can be open at once.
pub const MAX_CONNS: usize = 4;

/// What reading the next received byte gives.
#[derive(Debug, Clone, Copy, PartialEq, Eq)]
pub enum ReadResult {
    /// The next byte.
    Byte(u8),
    /// The peer closed the connection.
    Closed,
    /// Receiving failed.
    Error(SceError),
    /// Nothing received yet.
    Empty,
}

/// What the network reader does next.
#[derive(Debug, Clone, Copy, PartialEq, Eq, Structural)]
pub enum RxStep {
    /// The connection is closed: stop.
    Exit,
    /// The last batch is not drained yet: wait until the worker wakes us.
    Wait,
    /// Receive the next batch into the buffer.
    Receive,
}

/// Receive state of one connection, shared by its reader and its worker.
pub struct ConnState {
    claimed: bool,
    buf: [u8; 64],
    len: usize,
    closed: bool,
    err: Option<SceError>,
}

impl ConnState {
    /// Whether a connection owns this state.
    pub closed spec fn is_claimed(&self) -> bool {
        self.claimed
    }

    /// The bytes of the batch being drained.
    pub closed spec fn batch(&self) -> Seq<u8> {
        self.buf@.subrange(0, self.len as int)
    }

    /// Whether the connection is closed.
    pub closed spec fn is_closed(&self) -> bool {
        self.closed
    }

    /// The receive error, if one happened.
    pub closed spec fn error(&self) -> Option<SceError> {
        self.err
    }

    /// The batch length fits the buffer.
    pub closed spec fn wf(&self) -> bool {
        self.len <= BUFFER_SIZE
    }

    /// An unclaimed, empty state.
    pub fn new() -> (s: Self)
        ensures
            s.wf(),
            !s.is_claimed(),
            s.batch() == Seq::<u8>::empty(),
            !s.is_closed(),
            s.error() is None,
    {
        let s = ConnState { claimed: false, buf: [0u8; 64], len: 0, closed: false, err: None };
        s
    }

    /// Empties the state for a new connection.
    pub fn reset(&mut self)
        ensures
            final(self).wf(),
            final(self).is_claimed() == old(self).is_claimed(),
            final(self).batch() == Seq::<u8>::empty(),
            !final(self).is_closed(),
            final(self).error() is None,
    {
        self.len = 0;
        self.closed = false;
        self.err = None;
    }

    /// Marks the connection closed.
    pub fn close(&mut self)
        requires
            old(self).wf(),
        ensures
            final(self).wf(),
            final(self).is_closed(),
            final(self).batch() == old(self).batch(),
            final(self).error() == old(self).error(),
            final(self).is_claimed() == old(self).is_claimed(),
    {
        self.closed = true;
    }

    /// What the network reader does next: stop once closed, wait while a
    /// batch is being drained, receive otherwise.
    pub fn rx_step(&self) -> (s: RxStep)
        requires
            self.wf(),
        ensures
            s == (if self.is_closed() {
                RxStep::Exit
            } else if self.batch().len() != 0 {
                RxStep::Wait
            } else {
                RxStep::Receive
            }),
    {
        if self.closed {
            RxStep::Exit
        } else if self.len != 0 {
            RxStep::Wait
        } else {
            RxStep::Receive
        }
    }

    /// Records what a receive gave: an error is kept for the worker, no
    /// bytes means the peer closed, and bytes become the next batch.
    /// Returns whether the reader goes on (the worker is woken in every
    /// case).
    pub fn on_recv(&mut self, received: Result<&[u8], SceError>) -> (go_on: bool)
        requires
            old(self).wf(),
            old(self).batch().len() == 0,
            received matches Ok(d) ==> d@.len() <= BUFFER_SIZE,
        ensures
            final(self).wf(),
            final(self).is_claimed() == old(self).is_claimed(),
            match received {
                Err(e) => !go_on && final(self).error() == Some(e) && final(self).is_closed() == old(
                    self,
                ).is_closed() && final(self).batch() == old(self).batch(),
                Ok(d) => if d@.len() == 0 {
                    !go_on && final(self).is_closed() && final(self).error() == old(self).error()
                        && final(self).batch() == old(self).batch()
                } else {
                    go_on && final(self).batch() == d@ && final(self).is_closed() == old(
                        self,
                    ).is_closed() && final(self).error() == old(self).error()
                },
            },
    {
        match received {
            Err(e) => {
                self.err = Some(e);
                false
            },
            Ok(data) => {
                if data.len() == 0 {
                    self.closed = true;
                    return false;
                }
                let mut i: usize = 0;
                while i < data.len()
                    invariant
                        i <= data@.len(),
                        data@.len() <= 64,
                        self.buf@.len() == 64,
                        self.len == 0,
                        self.closed == old(self).closed,
                        self.err == old(self).err,
                        self.claimed == old(self).claimed,
                        forall|j: int| 0 <= j < i ==> self.buf@[j] == data@[j],
                    decreases data@.len() - i,
                {
                    self.buf[i] = data[i];
                    i = i + 1;
                }
                self.len = data.len();
                true
            },
        }
    }
}

/// The first unclaimed state of `pool` (claimed and emptied), or `None`
/// when all are taken.
pub fn acquire_state(pool: &mut Vec<ConnState>) -> (r: Option<usize>)
    ensures
        final(pool)@.len() == old(pool)@.len(),
        match r {
            Some(i) => {
                &&& i < old(pool)@.len()
                &&& !old(pool)@[i as int].is_claimed()
                &&& forall|j: int| 0 <= j < i ==> (#[trigger] old(pool)@[j]).is_claimed()
                &&& final(pool)@[i as int].is_claimed()
                &&& final(pool)@[i as int].wf()
                &&& final(pool)@[i as int].batch() == Seq::<u8>::empty()
                &&& !final(pool)@[i as int].is_closed()
                &&& final(pool)@[i as int].error() is None
                &&& forall|j: int| 0 <= j < final(pool)@.len() && j != i ==> final(pool)@[j] == old(pool)@[j]
            },
            None => {
                &&& forall|j: int| 0 <= j < old(pool)@.len() ==> (#[trigger] old(pool)@[j]).is_claimed()
                &&& final(pool)@ == old(pool)@
            },
        },
{
    let mut i: usize = 0;
    while i < pool.len()
        invariant
            i <= pool@.len(),
            *pool == *old(pool),
            forall|j: int| 0 <= j < i ==> (#[trigger] pool@[j]).is_claimed(),
        decreases pool@.len() - i,
    {
        if !pool[i].claimed {
            pool[i].claimed = true;
            pool[i].reset();
            return Some(i);
        }
        i = i + 1;
    }
    None
}

/// Gives a state back to the pool.
pub fn release_state(state: &mut ConnState)
    ensures
        !final(state).is_claimed(),
        final(state).batch() == old(state).batch(),
        final(state).is_closed() == old(state).is_closed(),
        final(state).error() == old(state).error(),
{
    state.claimed = false;
}

/// One read of the worker: from the cursor at `pos` over `state` it gives
/// `r` and leaves the cursor at `pos2` over `state2`. A closed connection
/// reads as its error if one was recorded, else as closed; an empty batch
/// reads as nothing; otherwise the byte under the cursor comes out, and
/// taking the last byte of the batch empties it and asks for the reader to
/// be woken.
pub open spec fn read_step(
    pos: nat,
    state: ConnState,
    r: (ReadResult, bool),
    pos2: nat,
    state2: ConnState,
) -> bool {
    &&& state2.is_closed() == state.is_closed()
    &&& state2.error() == state.error()
    &&& state2.is_claimed() == state.is_claimed()
    &&& state.is_closed() ==> r == (match state.error() {
        Some(e) => ReadResult::Error(e),
        None => ReadResult::Closed,
    }, false) && state2.batch() == state.batch() && pos2 == pos
    &&& !state.is_closed() && state.batch().len() == 0 ==> r == (ReadResult::Empty, false)
        && state2.batch() == state.batch() && pos2 == pos
    &&& !state.is_closed() && state.batch().len() > 0 ==> {
        &&& r.0 == ReadResult::Byte(state.batch()[pos as int])
        &&& r.1 == (pos + 1 == state.batch().len())
        &&& r.1 ==> state2.batch() == Seq::<u8>::empty() && pos2 == 0
        &&& !r.1 ==> state2.batch() == state.batch() && pos2 == pos + 1
    }
}

/// How far the worker has drained the current batch.
pub struct RxCursor {
    read_len: usize,
}

/// The cursor stands inside the batch of `state`, or at its start when the
/// batch is empty.
pub open spec fn cursor_wf(pos: nat, state: ConnState) -> bool {
    &&& state.wf()
    &&& (pos < state.batch().len() || (pos == 0 && state.batch().len() == 0))
}

impl RxCursor {
    /// Position of the next byte in the batch.
    pub closed spec fn pos(&self) -> nat {
        self.read_len as nat
    }

    /// At the start of a batch.
    pub fn new() -> (c: Self)
        ensures
            c.pos() == 0,
    {
        RxCursor { read_len: 0 }
    }

    /// Takes the next received byte. A closed connection reads as its
    /// error if one was recorded, else as closed; an empty batch reads as
    /// nothing. Taking the last byte of a batch empties it, and the reader
    /// must then be woken (the flag returned).
    pub fn read(&mut self, state: &mut ConnState) -> (r: (ReadResult, bool))
        requires
            cursor_wf(old(self).pos(), *old(state)),
        ensures
            cursor_wf(final(self).pos(), *final(state)),
            read_step(old(self).pos(), *old(state), r, final(self).pos(), *final(state)),
    {
        if state.closed {
            return match state.err {
                Some(err) => (ReadResult::Error(err), false),
                None => (ReadResult::Closed, false),
            };
        }
        let len = state.len;
        if len == 0 {
            return (ReadResult::Empty, false);
        }
        let byte = state.buf[self.read_len];
        self.read_len = self.read_len + 1;
        if self.read_len == len {
            self.read_len = 0;
            state.len = 0;
            assert(state.batch() =~= Seq::<u8>::empty());
            return (ReadResult::Byte(byte), true);
        }
        (ReadResult::Byte(byte), false)
    }
}

/// Successive reads from cursor positions `poss` over states `states`,
/// giving `rs`, with each read as `read_step` says.
pub open spec fn read_trace(poss: Seq<nat>, states: Seq<ConnState>, rs: Seq<(ReadResult, bool)>) -> bool {
    &&& poss.len() == states.len()
    &&& rs.len() + 1 == states.len()
    &&& forall|i: int|
        0 <= i < rs.len() ==> #[trigger] read_step(poss[i], states[i], rs[i], poss[i + 1], states[i + 1])
}

proof fn lemma_drain_prefix(poss: Seq<nat>, states: Seq<ConnState>, rs: Seq<(ReadResult, bool)>, k: nat)
    requires
        read_trace(poss, states, rs),
        rs.len() == states[0].batch().len(),
        poss[0] == 0,
        !states[0].is_closed(),
        k <= rs.len(),
    ensures
        forall|i: int| 0 <= i < k ==> #[trigger] rs[i] == (
            ReadResult::Byte(states[0].batch()[i]),
            i == rs.len() - 1,
        ),
        !states[k as int].is_closed(),
        k < rs.len() ==> states[k as int].batch() == states[0].batch() && poss[k as int] == k,
        k == rs.len() ==> states[k as int].batch() == Seq::<u8>::empty() && poss[k as int] == 0,
    decreases k,
{
    if k > 0 {
        let j = (k - 1) as int;
        lemma_drain_prefix(poss, states, rs, (k - 1) as nat);
        assert(read_step(poss[j], states[j], rs[j], poss[j + 1], states[j + 1]));
    }
}

/// A received batch is drained in order: reading it from its start gives
/// its bytes one by one, and only the read of its last byte empties it
/// and wakes the reader.
pub proof fn law_batch_drains_in_order(poss: Seq<nat>, states: Seq<ConnState>, rs: Seq<(ReadResult, bool)>)
    requires
        read_trace(poss, states, rs),
        rs.len() == states[0].batch().len(),
        poss[0] == 0,
        !states[0].is_closed(),
    ensures
        forall|i: int| 0 <= i < rs.len() ==> #[trigger] rs[i] == (
            ReadResult::Byte(states[0].batch()[i]),
            i == rs.len() - 1,
        ),
        states[rs.len() as int].batch() == Seq::<u8>::empty(),
        poss[rs.len() as int] == 0,
{
    lemma_drain_prefix(poss, states, rs, rs.len());
}

/// Outgoing bytes waiting to be sent.
pub struct TxBuffer {
    write_buffer: [u8; 64],
    write_len: usize,
}

impl TxBuffer {
    /// The bytes waiting, oldest first.
    pub closed spec fn pending(&self) -> Seq<u8> {
        self.write_buffer@.subrange(0, self.write_len as int)
    }

    /// The waiting bytes fit the buffer.
    pub closed spec fn wf(&self) -> bool {
        self.write_len <= BUFFER_SIZE
    }

    /// An empty buffer.
    pub fn new() -> (b: Self)
        ensures
            b.wf(),
            b.pending() == Seq::<u8>::empty(),
    {
        let b = TxBuffer { write_buffer: [0u8; 64], write_len: 0 };
        b
    }

    /// Whether the buffer is full and must be flushed before the next byte.
    pub fn is_full(&self) -> (b: bool)
        requires
            self.wf(),
        ensures
            b == (self.pending().len() == BUFFER_SIZE),
    {
        self.write_len == 64
    }

    /// Appends `byte`; returns whether the buffer is now full (and must be
    /// flushed).
    pub fn push(&mut self, byte: u8) -> (full: bool)
        requires
            old(self).wf(),
            old(self).pending().len() < BUFFER_SIZE,
        ensures
            final(self).wf(),
            final(self).pending() == old(self).pending().push(byte),
            full == (final(self).pending().len() == BUFFER_SIZE),
    {
        let n = self.write_len;
        self.write_buffer[n] = byte;
        self.write_len = n + 1;
        self.write_len == 64
    }

    /// The bytes waiting to be sent.
    pub fn as_slice(&self) -> (s: &[u8])
        requires
            self.wf(),
        ensures
            s@ == self.pending(),
    {
        vstd::slice::slice_subrange(self.write_buffer.as_slice(), 0, self.write_len)
    }

    /// Drops the first `n` waiting bytes once they were sent (all of them
    /// when `n` covers them), moving the rest to the front.
    pub fn consume(&mut self, n: usize)
        requires
            old(self).wf(),
        ensures
            final(self).wf(),
            final(self).pending() == (if n < old(self).pending().len() {
                old(self).pending().subrange(n as int, old(self).pending().len() as int)
            } else {
                Seq::<u8>::empty()
            }),
    {
        let len = self.write_len;
        if n < len {
            let ghost before = self.write_buffer@;
            let mut i: usize = 0;
            while i < len - n
                invariant
                    n < len <= 64,
                    i <= len - n,
                    self.write_buffer@.len() == 64,
                    self.write_len == len,
                    forall|j: int| 0 <= j < i ==> self.write_buffer@[j] == before[n + j],
                    forall|j: int| i <= j < 64 ==> self.write_buffer@[j] == before[j],
                decreases len - n - i,
            {
                let b = self.write_buffer[n + i];
                self.write_buffer[i] = b;
                i = i + 1;
            }
            self.write_len = len - n;
        } else {
            self.write_len = 0;
        }
    }
}

/// A connected socket, by its descriptor; a negative descriptor means it
/// was closed.
#[derive(Debug)]
pub struct TcpSocket(i32);

impl TcpSocket {
    /// The descriptor held.
    pub closed spec fn fd(&self) -> i32 {
        self.0
    }

    /// The socket with descriptor `fd`.
    pub fn from_raw(fd: i32) -> (s: Self)
        ensures
            s.fd() == fd,
    {
        TcpSocket(fd)
    }

    /// The descriptor.
    pub fn raw(&self) -> (fd: i32)
        ensures
            fd == self.fd(),
    {
        self.0
    }

    /// Closing: the descriptor to close, once; afterwards the socket holds
    /// none (`-1`).
    pub fn take_for_close(&mut self) -> (fd: Option<i32>)
        ensures
            old(self).fd() >= 0 ==> fd == Some(old(self).fd()) && final(self).fd() == -1,
            old(self).fd() < 0 ==> fd is None && final(self).fd() == old(self).fd(),
    {
        if self.0 >= 0 {
            let fd = self.0;
            self.0 = -1;
            Some(fd)
        } else {
            None
        }
    }
}

/// A listening socket, by its descriptor; a negative descriptor means it
/// was closed.
#[derive(Debug)]
pub struct TcpListener {
    socket: i32,
}

impl TcpListener {
    /// The descriptor held.
    pub closed spec fn fd(&self) -> i32 {
        self.socket
    }

    /// The listener with descriptor `socket`.
    pub fn from_raw(socket: i32) -> (l: Self)
        ensures
            l.fd() == socket,
    {
        TcpListener { socket }
    }

    /// The descriptor.
    pub fn raw(&self) -> (fd: i32)
        ensures
            fd == self.fd(),
    {
        self.socket
    }

    /// Closing: the descriptor to close, once; afterwards the listener
    /// holds none (`-1`).
    pub fn take_for_close(&mut self) -> (fd: Option<i32>)
        ensures
            old(self).fd() >= 0 ==> fd == Some(old(self).fd()) && final(self).fd() == -1,
            old(self).fd() < 0 ==> fd is None && final(self).fd() == old(self).fd(),
    {
        if self.socket >= 0 {
            let fd = self.socket;
            self.socket = -1;
            Some(fd)
        } else {
            None
        }
    }
}

} // verus!
