//! A bounded FIFO ring of `CAP` slots. One slot always stays empty so that
//! a full ring can be told apart from an empty one: the ring holds at most
//! `CAP - 1` items.

use vstd::prelude::*;

verus! {

/// Slot that holds the `k`-th queued item when the oldest one is at `tail`.
pub open spec fn ring_slot(tail: int, k: int, cap: int) -> int {
    if tail + k < cap {
        tail + k
    } else {
        tail + k - cap
    }
}

/// Number of queued items between `tail` (oldest) and `head` (next free).
pub open spec fn ring_count(tail: int, head: int, cap: int) -> int {
    if tail <= head {
        head - tail
    } else {
        head + cap - tail
    }
}

/// Queue model of a push onto `q` in a ring that holds at most `room`
/// items: whether the item was taken, and the queue afterwards.
pub open spec fn queue_push<T>(q: Seq<T>, room: int, x: T) -> (bool, Seq<T>) {
    if q.len() >= room {
        (false, q)
    } else {
        (true, q.push(x))
    }
}

/// Queue model of a pop: the oldest item, if any, and the queue afterwards.
pub open spec fn queue_pop<T>(q: Seq<T>) -> (Option<T>, Seq<T>) {
    if q.len() == 0 {
        (None, q)
    } else {
        (Some(q[0]), q.drop_first())
    }
}

/// A ring with room hands items back in the order they were pushed: a pop
/// after a push that was taken returns the same item as a pop before it
/// would have (the pushed item itself on an empty queue), and the pushed
/// item stays behind the rest.
pub proof fn law_ring_fifo<T>(q: Seq<T>, room: int, x: T)
    requires
        q.len() < room,
    ensures
        queue_push(q, room, x).0,
        queue_pop(queue_push(q, room, x).1).0 == (if q.len() == 0 {
            Some(x)
        } else {
            queue_pop(q).0
        }),
        q.len() == 0 ==> queue_pop(queue_push(q, room, x).1).1 == q,
        q.len() > 0 ==> queue_pop(queue_push(q, room, x).1).1 == queue_pop(q).1.push(x),
{
    assert(q.push(x).drop_first() =~= (if q.len() == 0 {
        q
    } else {
        q.drop_first().push(x)
    }));
}

/// A full ring refuses an item and keeps its contents.
pub proof fn law_ring_full_refuses<T>(q: Seq<T>, room: int, x: T)
    requires
        q.len() >= room,
    ensures
        queue_push(q, room, x) == (false, q),
{
}

/// A bounded multi-producer single-consumer ring of `CAP` slots.
pub struct MpscRing<T, const CAP: usize> {
    buf: Vec<Option<T>>,
    head: usize,
    tail: usize,
}

impl<T, const CAP: usize> MpscRing<T, CAP> {
    /// The ring's layout is consistent: `CAP` slots, both cursors inside
    /// them, and every slot between `tail` and `head` filled.
    pub closed spec fn wf(&self) -> bool {
        &&& self.buf@.len() == CAP
        &&& (self.head < CAP || self.head == 0)
        &&& (self.tail < CAP || self.tail == 0)
        &&& forall|k: int|
            0 <= k < ring_count(self.tail as int, self.head as int, CAP as int) ==> (#[trigger] self.buf@[ring_slot(self.tail as int, k, CAP as int)]) is Some
    }

    /// The queued items, oldest first.
    pub closed spec fn view(&self) -> Seq<T> {
        Seq::new(
            ring_count(self.tail as int, self.head as int, CAP as int) as nat,
            |k: int| self.buf@[ring_slot(self.tail as int, k, CAP as int)]->Some_0,
        )
    }

    /// Slot the next pushed item goes to.
    pub closed spec fn head_pos(&self) -> usize {
        self.head
    }

    /// Slot of the oldest queued item.
    pub closed spec fn tail_pos(&self) -> usize {
        self.tail
    }

    /// Largest number of items the ring can hold.
    pub open spec fn room() -> int {
        CAP - 1
    }

    /// An empty ring.
    pub fn new() -> (r: Self)
        ensures
            r.wf(),
            r.view() == Seq::<T>::empty(),
            r.head_pos() == 0,
            r.tail_pos() == 0,
    {
        let mut buf: Vec<Option<T>> = Vec::new();
        let mut i: usize = 0;
        while i < CAP
            invariant
                i <= CAP,
                buf@.len() == i,
            decreases CAP - i,
        {
            buf.push(None);
            i = i + 1;
        }
        let r = MpscRing { buf, head: 0, tail: 0 };
        r
    }

    /// Appends `s` unless the ring is full; returns whether it was queued.
    pub fn push(&mut self, s: T) -> (ok: bool)
        requires
            old(self).wf(),
            CAP > 0,
        ensures
            final(self).wf(),
            (ok, final(self).view()) == queue_push(old(self).view(), Self::room(), s),
            final(self).tail_pos() == old(self).tail_pos(),
            final(self).head_pos() == (if !ok {
                old(self).head_pos() as int
            } else if old(self).head_pos() + 1 == CAP {
                0
            } else {
                old(self).head_pos() + 1
            }),
    {
        let head = self.head;
        let next = if head + 1 == CAP { 0 } else { head + 1 };
        if next == self.tail {
            return false;
        }
        self.buf.set(head, Some(s));
        self.head = next;
        true
    }

    /// Removes and returns the oldest item, `None` when the ring is empty.
    pub fn pop(&mut self) -> (r: Option<T>)
        requires
            old(self).wf(),
        ensures
            final(self).wf(),
            (r, final(self).view()) == queue_pop(old(self).view()),
            final(self).head_pos() == old(self).head_pos(),
            final(self).tail_pos() == (if r is None {
                old(self).tail_pos() as int
            } else if old(self).tail_pos() + 1 == CAP {
                0
            } else {
                old(self).tail_pos() + 1
            }),
    {
        let ghost q = self.view();
        let tail = self.tail;
        if tail == self.head {
            return None;
        }
        proof {
            assert(ring_slot(tail as int, 0, CAP as int) == tail as int);
        }
        let s = self.buf[tail].take();
        self.tail = if tail + 1 == CAP { 0 } else { tail + 1 };
        proof {
            let cap = CAP as int;
            let n = ring_count(tail as int, self.head as int, cap);
            assert forall|k: int| 0 <= k < n - 1 implies ring_slot(self.tail as int, k, cap) == ring_slot(tail as int, k + 1, cap) by {}
            assert(self.view() =~= q.drop_first()) by {
            }
        }
        s
    }

    /// Drops every queued item.
    pub fn clear(&mut self)
        requires
            old(self).wf(),
        ensures
            final(self).wf(),
            final(self).view() == Seq::<T>::empty(),
            final(self).head_pos() == old(self).head_pos(),
            final(self).tail_pos() == old(self).head_pos(),
    {
        let head = self.head;
        let mut idx = self.tail;
        while idx != head
            invariant
                self.buf@.len() == CAP,
                head < CAP || head == 0,
                self.head == head,
                idx < CAP || idx == 0,
            decreases ring_count(idx as int, head as int, CAP as int),
        {
            self.buf.set(idx, None);
            idx = if idx + 1 == CAP { 0 } else { idx + 1 };
        }
        self.tail = head;
    }

    /// Number of queued items, computed as the distance from `tail_pos` to
    /// `head_pos` in wrapping `usize` arithmetic: the true count while the
    /// next free slot is not behind the oldest item, and that distance
    /// wrapped past `usize::MAX` once the ring has wrapped. It is zero
    /// exactly when the ring is empty.
    pub fn len(&self) -> (n: usize)
        requires
            self.wf(),
        ensures
            n == vstd::wrapping::usize_specs::wrapping_sub(self.head_pos(), self.tail_pos()),
            self.tail_pos() <= self.head_pos() ==> n == self.view().len(),
            (n == 0) == (self.view().len() == 0),
    {
        self.head.wrapping_sub(self.tail)
    }
}

} // verus!
