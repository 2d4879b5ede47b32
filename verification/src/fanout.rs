//! The per-session byte channels: the bounded output fan-out and the
//! bounded input queue.
//!
//! The fan-out is a ring of byte buffers with a monotonic sequence
//! number. The PTY reader publishes into it and never waits: when the
//! ring is full the oldest buffer is dropped. Each subscriber polls at
//! its own cadence through a cursor; one that fell behind the ring
//! observes `Lagged` with the number of positions skipped, and never
//! slows the publisher or any other subscriber.
//!
//! The input queue is a bounded FIFO from many senders to the single PTY
//! writer: offers never block (`Busy` when full), and what the writer
//! drains is exactly what was accepted, in order.

use vstd::prelude::*;

verus! {

/// Concatenation of a sequence of byte buffers.
pub open spec fn spec_concat(bufs: Seq<Seq<u8>>) -> Seq<u8>
    decreases bufs.len(),
{
    if bufs.len() == 0 {
        Seq::empty()
    } else {
        spec_concat(bufs.drop_last()) + bufs.last()
    }
}

/// Whether `a` is a subsequence of `b`: all of `a`'s bytes occur in `b`,
/// in order, with arbitrary gaps.
pub open spec fn spec_is_subsequence(a: Seq<u8>, b: Seq<u8>) -> bool
    decreases b.len(), a.len(),
{
    if a.len() == 0 {
        true
    } else if b.len() == 0 {
        false
    } else if a[0] == b[0] {
        spec_is_subsequence(a.skip(1), b.skip(1))
    } else {
        spec_is_subsequence(a, b.skip(1))
    }
}

pub proof fn lemma_subseq_refl(a: Seq<u8>)
    ensures
        spec_is_subsequence(a, a),
    decreases a.len(),
{
    if a.len() > 0 {
        lemma_subseq_refl(a.skip(1));
    }
}

/// A subsequence of `b` is still one of `b` extended on the right.
pub proof fn lemma_subseq_append_right(a: Seq<u8>, b: Seq<u8>, c: Seq<u8>)
    requires
        spec_is_subsequence(a, b),
    ensures
        spec_is_subsequence(a, b + c),
    decreases b.len(), a.len(),
{
    if a.len() == 0 {
        lemma_subseq_empty(b + c);
    } else {
        assert(b.len() > 0);
        assert((b + c)[0] == b[0]);
        assert((b + c).skip(1) =~= b.skip(1) + c);
        if a[0] == b[0] {
            lemma_subseq_append_right(a.skip(1), b.skip(1), c);
        } else {
            lemma_subseq_append_right(a, b.skip(1), c);
        }
    }
}

/// The empty sequence is a subsequence of anything.
pub proof fn lemma_subseq_empty(b: Seq<u8>)
    ensures
        spec_is_subsequence(Seq::empty(), b),
{
}

/// Appending the same buffer on both sides preserves the subsequence
/// relation.
pub proof fn lemma_subseq_append_both(a: Seq<u8>, b: Seq<u8>, l: Seq<u8>)
    requires
        spec_is_subsequence(a, b),
    ensures
        spec_is_subsequence(a + l, b + l),
    decreases b.len(), a.len(),
{
    if a.len() == 0 {
        assert(a + l =~= l);
        lemma_subseq_prefixed(l, b);
    } else {
        assert(b.len() > 0);
        assert((a + l)[0] == a[0]);
        assert((b + l)[0] == b[0]);
        assert((a + l).skip(1) =~= a.skip(1) + l);
        assert((b + l).skip(1) =~= b.skip(1) + l);
        if a[0] == b[0] {
            lemma_subseq_append_both(a.skip(1), b.skip(1), l);
        } else {
            lemma_subseq_append_both(a, b.skip(1), l);
        }
    }
}

/// A sequence is a subsequence of itself with anything prepended.
pub proof fn lemma_subseq_prefixed(l: Seq<u8>, b: Seq<u8>)
    ensures
        spec_is_subsequence(l, b + l),
    decreases l.len(), b.len(),
{
    if b.len() == 0 {
        assert(b + l =~= l);
        lemma_subseq_refl(l);
    } else if l.len() == 0 {
        lemma_subseq_empty(b + l);
    } else {
        assert((b + l)[0] == b[0]);
        assert((b + l).skip(1) =~= b.skip(1) + l);
        if l[0] == b[0] {
            assert(b.skip(1) + l =~= (b.skip(1) + seq![l[0]]) + l.skip(1));
            lemma_subseq_prefixed(l.skip(1), b.skip(1) + seq![l[0]]);
        } else {
            lemma_subseq_prefixed(l, b.skip(1));
        }
    }
}

/// Log correspondence: a subscriber that received the buffers at the
/// (strictly increasing) sequence numbers `idxs` holds, in concatenation,
/// a subsequence of the concatenation of everything published — which is
/// byte for byte what the reader appended to the log, since the log is
/// written before each publish.
pub proof fn lemma_log_correspondence(h: Seq<Seq<u8>>, idxs: Seq<int>)
    requires
        forall|k: int| 0 <= k < idxs.len() ==> 0 <= #[trigger] idxs[k] < h.len(),
        forall|k: int, m: int| 0 <= k < m < idxs.len() ==> #[trigger] idxs[k] < #[trigger] idxs[m],
    ensures
        spec_is_subsequence(spec_concat(idxs.map(|_k: int, j: int| h[j])), spec_concat(h)),
    decreases h.len(),
{
    let received = idxs.map(|_k: int, j: int| h[j]);
    if idxs.len() == 0 {
        assert(received.len() == 0);
        lemma_subseq_empty(spec_concat(h));
    } else if idxs.last() == h.len() - 1 {
        let idxs0 = idxs.drop_last();
        let h0 = h.drop_last();
        assert(forall|k: int| 0 <= k < idxs0.len() ==> 0 <= #[trigger] idxs0[k] < h0.len()) by {
            assert(forall|k: int|
                0 <= k < idxs0.len() ==> #[trigger] idxs0[k] == idxs[k] && idxs[k] < idxs[
                    idxs.len() - 1
                ]);
        }
        lemma_log_correspondence(h0, idxs0);
        let received0 = idxs0.map(|_k: int, j: int| h0[j]);
        assert(received0 =~= received.drop_last()) by {
            assert(forall|k: int|
                0 <= k < idxs0.len() ==> #[trigger] received0[k] == h0[idxs0[k]] && h0[idxs0[k]]
                    == h[idxs[k]]);
        }
        assert(spec_concat(received) == spec_concat(received.drop_last()) + received.last());
        assert(received.last() == h.last());
        lemma_subseq_append_both(spec_concat(received0), spec_concat(h0), h.last());
    } else {
        let h0 = h.drop_last();
        assert(forall|k: int| 0 <= k < idxs.len() ==> 0 <= #[trigger] idxs[k] < h0.len()) by {
            assert(forall|k: int|
                0 <= k < idxs.len() - 1 ==> #[trigger] idxs[k] < idxs[idxs.len() - 1]);
        }
        lemma_log_correspondence(h0, idxs);
        let received0 = idxs.map(|_k: int, j: int| h0[j]);
        assert(received0 =~= received);
        lemma_subseq_append_right(spec_concat(received), spec_concat(h0), h.last());
        assert(spec_concat(h0) + h.last() == spec_concat(h));
    }
}

/// The bounded broadcast ring for one session's PTY output.
pub struct Fanout {
    /// Sequence number of the oldest buffer still retained.
    pub base: u64,
    /// The retained buffers: `buf[k]` carries sequence number `base + k`.
    pub buf: Vec<Vec<u8>>,
    /// Ring capacity; beyond it the oldest buffer is dropped.
    pub cap: usize,
    /// Everything ever published, in order.
    pub history: Ghost<Seq<Seq<u8>>>,
}

/// A subscriber's cursor into a fan-out: the next sequence number it
/// will read.
pub struct Subscriber {
    pub next: u64,
}

/// What one poll of a subscriber yields.
pub enum PollOutcome {
    /// Nothing new published yet; poll again later.
    Empty,
    /// The subscriber fell behind the ring and skipped this many
    /// positions; its cursor now points at the oldest retained buffer.
    Lagged(u64),
    /// The buffer at the subscriber's position; the cursor advanced.
    Item(Vec<u8>),
}

impl Fanout {
    /// Ring well-formedness: the retained buffers are exactly the last
    /// stretch of the history.
    pub open spec fn wf(&self) -> bool {
        &&& self.cap > 0
        &&& self.buf@.len() <= self.cap
        &&& self.base + self.buf@.len() == self.history@.len()
        &&& self.history@.len() <= u64::MAX
        &&& forall|k: int|
            0 <= k < self.buf@.len() ==> (#[trigger] self.buf@[k]@) == self.history@[
                self.base + k
            ]
    }

    /// Everything ever published, in order: the bytes that also went to
    /// the log.
    pub open spec fn spec_history(&self) -> Seq<Seq<u8>> {
        self.history@
    }

    /// An empty fan-out with the given ring capacity.
    pub fn new(cap: usize) -> (f: Fanout)
        requires
            cap > 0,
        ensures
            f.wf(),
            f.spec_history() == Seq::<Seq<u8>>::empty(),
    {
        Fanout { base: 0, buf: Vec::new(), cap, history: Ghost(Seq::empty()) }
    }

    /// Publish one buffer. Never waits and never fails: when the ring is
    /// full the oldest buffer is dropped, so a slow subscriber cannot
    /// stall the PTY reader.
    pub fn publish(&mut self, data: Vec<u8>)
        requires
            old(self).wf(),
            old(self).spec_history().len() < u64::MAX,
        ensures
            final(self).wf(),
            final(self).spec_history() == old(self).spec_history().push(data@),
    {
        if self.buf.len() >= self.cap {
            let _ = self.buf.remove(0);
            self.base = self.base + 1;
        }
        proof {
            self.history@ = self.history@.push(data@);
        }
        self.buf.push(data);
    }

    /// A new subscriber, positioned at "now": it will see only what is
    /// published after this moment (history is served separately, from
    /// the log).
    pub fn subscribe(&self) -> (s: Subscriber)
        requires
            self.wf(),
        ensures
            s.next == self.spec_history().len(),
    {
        Subscriber { next: self.base + self.buf.len() as u64 }
    }

    /// Poll one subscriber. What it receives at sequence number `n` is
    /// `history[n]` — the same bytes for every subscriber at that
    /// position (multi-subscriber independence). A cursor that fell
    /// behind the ring observes `Lagged` with the number of positions
    /// skipped and resumes at the oldest retained buffer.
    pub fn poll(&self, sub: &mut Subscriber) -> (r: PollOutcome)
        requires
            self.wf(),
            old(sub).next <= self.spec_history().len(),
        ensures
            final(sub).next <= self.spec_history().len(),
            old(sub).next == self.spec_history().len()
                ==> r is Empty && final(sub).next == old(sub).next,
            old(sub).next < self.spec_history().len() && old(sub).next < self.base ==> (r matches
                PollOutcome::Lagged(n) && n == self.base - old(sub).next && final(sub).next
                == self.base),
            old(sub).next < self.spec_history().len() && old(sub).next >= self.base ==> (r matches
                PollOutcome::Item(d) && d@ == self.spec_history()[old(sub).next as int]
                && final(sub).next == old(sub).next + 1),
    {
        let end: u64 = self.base + self.buf.len() as u64;
        if sub.next >= end {
            return PollOutcome::Empty;
        }
        if sub.next < self.base {
            let skipped = self.base - sub.next;
            sub.next = self.base;
            return PollOutcome::Lagged(skipped);
        }
        let k: usize = (sub.next - self.base) as usize;
        let item = clone_bytes(&self.buf[k]);
        sub.next = sub.next + 1;
        PollOutcome::Item(item)
    }
}

/// Clone a byte buffer with its contents pinned.
fn clone_bytes(v: &Vec<u8>) -> (r: Vec<u8>)
    ensures
        r@ == v@,
{
    let mut r: Vec<u8> = Vec::new();
    let mut i: usize = 0;
    while i < v.len()
        invariant
            i <= v@.len(),
            r@ == v@.subrange(0, i as int),
        decreases v@.len() - i,
    {
        r.push(v[i]);
        i = i + 1;
        proof {
            assert(v@.subrange(0, i as int) =~= v@.subrange(0, i - 1).push(v@[i - 1]));
        }
    }
    proof {
        assert(v@.subrange(0, v@.len() as int) =~= v@);
    }
    r
}

/// The bounded FIFO of input buffers bound for one session's PTY writer.
pub struct InputQueue {
    /// The buffers accepted and not yet drained, oldest first.
    pub items: Vec<Vec<u8>>,
    /// Queue capacity; offers beyond it are refused, never blocked on.
    pub cap: usize,
    /// Everything ever accepted, in order.
    pub accepted: Ghost<Seq<Seq<u8>>>,
    /// How many accepted buffers the writer has already drained.
    pub drained: Ghost<int>,
}

impl InputQueue {
    /// Queue well-formedness: the pending items are exactly the accepted
    /// buffers not yet drained, in acceptance order. This is the
    /// at-most-once, in-order guarantee for input: what the writer
    /// drains is each accepted buffer exactly once, in the order sent.
    pub open spec fn wf(&self) -> bool {
        &&& self.cap > 0
        &&& self.items@.len() <= self.cap
        &&& 0 <= self.drained@
        &&& self.drained@ + self.items@.len() == self.accepted@.len()
        &&& forall|k: int|
            0 <= k < self.items@.len() ==> (#[trigger] self.items@[k]@) == self.accepted@[
                self.drained@ + k
            ]
    }

    /// Everything ever accepted, in order.
    pub open spec fn spec_accepted(&self) -> Seq<Seq<u8>> {
        self.accepted@
    }

    /// How many accepted buffers have been drained to the writer.
    pub open spec fn spec_drained(&self) -> int {
        self.drained@
    }

    /// An empty queue with the given capacity.
    pub fn new(cap: usize) -> (q: InputQueue)
        requires
            cap > 0,
        ensures
            q.wf(),
            q.spec_accepted() == Seq::<Seq<u8>>::empty(),
            q.spec_drained() == 0,
    {
        InputQueue { items: Vec::new(), cap, accepted: Ghost(Seq::empty()), drained: Ghost(0) }
    }

    /// Offer one buffer without blocking. Refused (`false`, the `Busy`
    /// outcome) exactly when the queue is full; accepted otherwise, in
    /// which case exactly these bytes will reach the writer, after
    /// everything accepted before them.
    pub fn try_enqueue(&mut self, data: Vec<u8>) -> (accepted: bool)
        requires
            old(self).wf(),
        ensures
            final(self).wf(),
            accepted <==> old(self).spec_accepted().len() - old(self).spec_drained()
                < old(self).cap,
            accepted ==> final(self).spec_accepted() == old(self).spec_accepted().push(data@),
            !accepted ==> final(self).spec_accepted() == old(self).spec_accepted(),
            final(self).spec_drained() == old(self).spec_drained(),
            final(self).cap == old(self).cap,
    {
        if self.items.len() >= self.cap {
            return false;
        }
        proof {
            self.accepted@ = self.accepted@.push(data@);
        }
        self.items.push(data);
        true
    }

    /// Drain the oldest pending buffer, if any: the single PTY writer's
    /// side. The buffer handed out is exactly the next accepted one.
    pub fn dequeue(&mut self) -> (r: Option<Vec<u8>>)
        requires
            old(self).wf(),
        ensures
            final(self).wf(),
            final(self).spec_accepted() == old(self).spec_accepted(),
            final(self).cap == old(self).cap,
            old(self).spec_drained() == old(self).spec_accepted().len()
                ==> r is None && final(self).spec_drained() == old(self).spec_drained(),
            old(self).spec_drained() < old(self).spec_accepted().len() ==> (r matches Some(d) && d@
                == old(self).spec_accepted()[old(self).spec_drained()] && final(self).spec_drained()
                == old(self).spec_drained() + 1),
    {
        if self.items.len() == 0 {
            return None;
        }
        let d = self.items.remove(0);
        proof {
            self.drained@ = self.drained@ + 1;
        }
        Some(d)
    }
}

} // verus!
