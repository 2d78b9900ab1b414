use vstd::prelude::*;
use crate::pool::elapsed;

verus! {

broadcast use vstd::seq_lib::group_seq_properties;

pub open spec fn batch_bytes(r: Option<Vec<u8>>) -> Seq<u8> {
    match r {
        Some(b) => b@,
        None => Seq::empty(),
    }
}

/// Coalesces shell output into fewer, larger messages. A batch leaves when
/// the buffer reaches `max_batch` bytes, or on a timer tick once its oldest
/// byte has waited `flush_interval` milliseconds. Bytes are never dropped
/// nor reordered: what has left, followed by what is buffered, is exactly
/// what came in.
pub struct OutputBatcher {
    buffer: Vec<u8>,
    max_batch: usize,
    flush_interval: u64,
    oldest_at: u64,
    received: Ghost<Seq<u8>>,
    emitted: Ghost<Seq<u8>>,
}

impl OutputBatcher {
    pub closed spec fn pending(&self) -> Seq<u8> {
        self.buffer@
    }

    /// Every byte handed in so far, in order.
    pub closed spec fn received(&self) -> Seq<u8> {
        self.received@
    }

    /// Every byte sent out in batches so far, in order.
    pub closed spec fn emitted(&self) -> Seq<u8> {
        self.emitted@
    }

    pub closed spec fn threshold(&self) -> nat {
        self.max_batch as nat
    }

    pub closed spec fn interval(&self) -> u64 {
        self.flush_interval
    }

    /// Arrival time of the oldest buffered byte.
    pub closed spec fn oldest(&self) -> u64 {
        self.oldest_at
    }

    pub open spec fn wf(&self) -> bool {
        self.received() == self.emitted() + self.pending()
    }

    pub fn new(max_batch: usize, flush_interval: u64) -> (r: OutputBatcher)
        ensures
            r.wf(),
            r.pending() == Seq::<u8>::empty(),
            r.received() == Seq::<u8>::empty(),
            r.emitted() == Seq::<u8>::empty(),
            r.threshold() == max_batch,
            r.interval() == flush_interval,
    {
        OutputBatcher {
            buffer: Vec::new(),
            max_batch,
            flush_interval,
            oldest_at: 0,
            received: Ghost(Seq::empty()),
            emitted: Ghost(Seq::empty()),
        }
    }

    pub fn pending_len(&self) -> (r: usize)
        ensures
            r == self.pending().len(),
    {
        self.buffer.len()
    }

    /// Adds a chunk that arrived at `now`; returns a batch when the buffer
    /// has reached the size threshold.
    pub fn push_chunk(&mut self, chunk: Vec<u8>, now: u64) -> (r: Option<Vec<u8>>)
        requires
            old(self).wf(),
            old(self).pending().len() + chunk@.len() <= usize::MAX,
        ensures
            final(self).wf(),
            final(self).received() == old(self).received() + chunk@,
            final(self).emitted() == old(self).emitted() + batch_bytes(r),
            batch_bytes(r) + final(self).pending() == old(self).pending() + chunk@,
            r is Some <==> old(self).pending().len() + chunk@.len() >= old(self).threshold() && old(
                self,
            ).pending().len() + chunk@.len() > 0,
            r is Some ==> r.unwrap()@ == old(self).pending() + chunk@ && final(self).pending().len() == 0,
            r is None ==> final(self).pending() == old(self).pending() + chunk@,
            final(self).threshold() == old(self).threshold(),
            final(self).interval() == old(self).interval(),
            old(self).pending().len() == 0 && chunk@.len() > 0 ==> final(self).oldest() == now,
            old(self).pending().len() > 0 ==> final(self).oldest() == old(self).oldest(),
    {
        let mut chunk = chunk;
        if self.buffer.len() == 0 && chunk.len() > 0 {
            self.oldest_at = now;
        }
        proof {
            self.received@ = self.received@ + chunk@;
        }
        self.buffer.append(&mut chunk);
        if self.buffer.len() >= self.max_batch && self.buffer.len() > 0 {
            let mut out: Vec<u8> = Vec::new();
            core::mem::swap(&mut self.buffer, &mut out);
            proof {
                self.emitted@ = self.emitted@ + out@;
                assert(self.received@ =~= self.emitted@ + self.buffer@);
            }
            Some(out)
        } else {
            proof {
                assert(self.received@ =~= self.emitted@ + self.buffer@);
            }
            None
        }
    }

    /// A timer tick at `now`: flushes a non-empty buffer whose oldest byte
    /// has waited at least the flush interval.
    pub fn on_tick(&mut self, now: u64) -> (r: Option<Vec<u8>>)
        requires
            old(self).wf(),
        ensures
            final(self).wf(),
            final(self).received() == old(self).received(),
            final(self).emitted() == old(self).emitted() + batch_bytes(r),
            r is Some <==> old(self).pending().len() > 0 && elapsed(old(self).oldest(), now) >= old(
                self,
            ).interval(),
            r is Some ==> r.unwrap()@ == old(self).pending() && final(self).pending().len() == 0,
            r is None ==> final(self).pending() == old(self).pending(),
            final(self).threshold() == old(self).threshold(),
            final(self).interval() == old(self).interval(),
            final(self).oldest() == old(self).oldest(),
    {
        let waited = if now >= self.oldest_at {
            now - self.oldest_at
        } else {
            0
        };
        if self.buffer.len() > 0 && waited >= self.flush_interval {
            self.take_all()
        } else {
            None
        }
    }

    /// Flushes whatever is buffered, as when the channel closes.
    pub fn flush(&mut self) -> (r: Option<Vec<u8>>)
        requires
            old(self).wf(),
        ensures
            final(self).wf(),
            final(self).received() == old(self).received(),
            final(self).emitted() == old(self).emitted() + batch_bytes(r),
            r is Some <==> old(self).pending().len() > 0,
            r is Some ==> r.unwrap()@ == old(self).pending(),
            final(self).pending().len() == 0,
            final(self).threshold() == old(self).threshold(),
            final(self).interval() == old(self).interval(),
            final(self).oldest() == old(self).oldest(),
    {
        if self.buffer.len() > 0 {
            self.take_all()
        } else {
            None
        }
    }

    fn take_all(&mut self) -> (r: Option<Vec<u8>>)
        requires
            old(self).wf(),
            old(self).pending().len() > 0,
        ensures
            final(self).wf(),
            final(self).received() == old(self).received(),
            final(self).emitted() == old(self).emitted() + old(self).pending(),
            r == Some(old(self).buffer),
            final(self).pending().len() == 0,
            final(self).max_batch == old(self).max_batch,
            final(self).flush_interval == old(self).flush_interval,
            final(self).oldest_at == old(self).oldest_at,
    {
        let mut out: Vec<u8> = Vec::new();
        core::mem::swap(&mut self.buffer, &mut out);
        proof {
            self.emitted@ = self.emitted@ + out@;
            assert(self.received@ =~= self.emitted@ + self.buffer@);
        }
        Some(out)
    }
}

pub open spec fn chunk_views(v: Seq<Vec<u8>>) -> Seq<Seq<u8>> {
    v.map_values(|c: Vec<u8>| c@)
}

/// The batches that leave when `chunks` arrive in turn behind the buffered
/// bytes `buf`: a batch leaves as soon as the buffer reaches `max_batch`
/// bytes, and what is left at the end leaves last.
pub open spec fn batches_of(chunks: Seq<Seq<u8>>, buf: Seq<u8>, max_batch: nat) -> Seq<Seq<u8>>
    decreases chunks.len(),
{
    if chunks.len() == 0 {
        if buf.len() > 0 {
            seq![buf]
        } else {
            Seq::empty()
        }
    } else {
        let next = buf + chunks[0];
        if next.len() >= max_batch && next.len() > 0 {
            seq![next] + batches_of(chunks.drop_first(), Seq::empty(), max_batch)
        } else {
            batches_of(chunks.drop_first(), next, max_batch)
        }
    }
}

/// Batches a burst of chunks that all arrive within one flush interval:
/// each chunk is added in turn, and what remains buffered at the end leaves
/// as a final batch.
pub fn batch_chunks(input: Vec<Vec<u8>>, max_batch: usize) -> (r: Vec<Vec<u8>>)
    requires
        chunk_views(input@).flatten().len() <= usize::MAX,
    ensures
        chunk_views(r@) == batches_of(chunk_views(input@), Seq::empty(), max_batch as nat),
        chunk_views(r@).flatten() == chunk_views(input@).flatten(),
        forall|i: int| 0 <= i < r@.len() ==> (#[trigger] r@[i])@.len() > 0,
        forall|i: int| 0 <= i < r@.len() - 1 ==> (#[trigger] r@[i])@.len() >= max_batch,
        r@.len() <= input@.len(),
{
    let mut chunks = input;
    let ghost all = chunk_views(chunks@);
    let mut batcher = OutputBatcher::new(max_batch, 0);
    let mut out: Vec<Vec<u8>> = Vec::new();
    let ghost mut seen: Seq<Seq<u8>> = Seq::empty();
    while chunks.len() > 0
        invariant
            batcher.wf(),
            batcher.threshold() == max_batch,
            batcher.emitted() == chunk_views(out@).flatten(),
            batcher.received() == seen.flatten(),
            seen + chunk_views(chunks@) == all,
            all.flatten().len() <= usize::MAX,
            forall|i: int| 0 <= i < out@.len() ==> (#[trigger] out@[i])@.len() >= max_batch && out@[i]@.len() > 0,
            out@.len() <= seen.len(),
            batcher.pending().len() > 0 ==> out@.len() < seen.len(),
            chunk_views(out@) + batches_of(chunk_views(chunks@), batcher.pending(), max_batch as nat)
                == batches_of(all, Seq::empty(), max_batch as nat),
        decreases chunks@.len(),
    {
        let ghost before = chunks@;
        let ghost pend = batcher.pending();
        let c = chunks.remove(0);
        proof {
            assert(chunk_views(before) =~= seq![c@] + chunk_views(chunks@));
            assert(chunk_views(before).drop_first() =~= chunk_views(chunks@));
            assert(chunk_views(before)[0] == c@);
            assert(seen.push(c@) + chunk_views(chunks@) =~= all);
            seen.lemma_flatten_push(c@);
            vstd::seq_lib::lemma_flatten_concat(seen.push(c@), chunk_views(chunks@));
            seen = seen.push(c@);
        }
        let r = batcher.push_chunk(c, 0);
        match r {
            Some(b) => {
                proof {
                    assert(chunk_views(out@.push(b)) =~= chunk_views(out@).push(b@));
                    chunk_views(out@).lemma_flatten_push(b@);
                    assert(batcher.pending() =~= Seq::<u8>::empty());
                    assert(chunk_views(out@).push(b@) + batches_of(chunk_views(chunks@), batcher.pending(), max_batch as nat)
                        =~= chunk_views(out@) + (seq![b@] + batches_of(chunk_views(chunks@), Seq::empty(), max_batch as nat)));
                }
                out.push(b);
            },
            None => {},
        }
    }
    match batcher.flush() {
        Some(b) => {
            proof {
                assert(chunk_views(out@.push(b)) =~= chunk_views(out@).push(b@));
                chunk_views(out@).lemma_flatten_push(b@);
                assert(chunk_views(chunks@).len() == 0);
                assert(chunk_views(out@).push(b@) =~= chunk_views(out@) + seq![b@]);
            }
            out.push(b);
        },
        None => {
            proof {
                assert(chunk_views(chunks@).len() == 0);
                assert(chunk_views(out@) + Seq::<Seq<u8>>::empty() =~= chunk_views(out@));
            }
        },
    }
    proof {
        assert(seen =~= all);
    }
    out
}


/// Serialises the writes to one session's shell: at most one write is in
/// flight, the others wait in arrival order. The writes started so far,
/// followed by those waiting, are exactly the writes submitted.
pub struct WriteQueue {
    waiting: Vec<Vec<u8>>,
    in_flight: bool,
    submitted: Ghost<Seq<Seq<u8>>>,
    started: Ghost<Seq<Seq<u8>>>,
}

impl WriteQueue {
    pub closed spec fn waiting_writes(&self) -> Seq<Seq<u8>> {
        chunk_views(self.waiting@)
    }

    pub closed spec fn busy(&self) -> bool {
        self.in_flight
    }

    /// Every write handed in, in order.
    pub closed spec fn submitted(&self) -> Seq<Seq<u8>> {
        self.submitted@
    }

    /// Every write handed to the shell, in order.
    pub closed spec fn started(&self) -> Seq<Seq<u8>> {
        self.started@
    }

    pub open spec fn wf(&self) -> bool {
        &&& self.submitted() == self.started() + self.waiting_writes()
        &&& self.waiting_writes().len() > 0 ==> self.busy()
    }

    pub fn new() -> (r: WriteQueue)
        ensures
            r.wf(),
            !r.busy(),
            r.submitted() == Seq::<Seq<u8>>::empty(),
            r.started() == Seq::<Seq<u8>>::empty(),
            r.waiting_writes() == Seq::<Seq<u8>>::empty(),
    {
        let q = WriteQueue {
            waiting: Vec::new(),
            in_flight: false,
            submitted: Ghost(Seq::empty()),
            started: Ghost(Seq::empty()),
        };
        proof {
            assert(chunk_views(q.waiting@) =~= Seq::<Seq<u8>>::empty());
        }
        q
    }

    /// Hands in a write. It is returned to be started at once when no other
    /// write is in flight; otherwise it waits behind the earlier ones.
    pub fn submit(&mut self, data: Vec<u8>) -> (r: Option<Vec<u8>>)
        requires
            old(self).wf(),
        ensures
            final(self).wf(),
            final(self).busy(),
            final(self).submitted() == old(self).submitted().push(data@),
            r is Some <==> !old(self).busy(),
            r is Some ==> r == Some(data) && final(self).started() == old(self).started().push(data@)
                && final(self).waiting_writes() == old(self).waiting_writes(),
            r is None ==> final(self).started() == old(self).started() && final(self).waiting_writes()
                == old(self).waiting_writes().push(data@),
    {
        proof {
            self.submitted@ = self.submitted@.push(data@);
        }
        if !self.in_flight {
            self.in_flight = true;
            proof {
                self.started@ = self.started@.push(data@);
                assert(self.waiting_writes().len() == 0);
                assert(self.submitted@ =~= self.started@ + chunk_views(self.waiting@));
            }
            Some(data)
        } else {
            let ghost d = data@;
            self.waiting.push(data);
            proof {
                assert(chunk_views(self.waiting@) =~= chunk_views(old(self).waiting@).push(d));
                assert(self.submitted@ =~= self.started@ + chunk_views(self.waiting@));
            }
            None
        }
    }

    /// The write in flight has finished: returns the next one to start, if any.
    pub fn complete(&mut self) -> (r: Option<Vec<u8>>)
        requires
            old(self).wf(),
        ensures
            final(self).wf(),
            final(self).submitted() == old(self).submitted(),
            r is Some <==> old(self).waiting_writes().len() > 0,
            r is Some ==> r.unwrap()@ == old(self).waiting_writes()[0] && final(self).busy()
                && final(self).started() == old(self).started().push(r.unwrap()@)
                && final(self).waiting_writes() == old(self).waiting_writes().drop_first(),
            r is None ==> !final(self).busy() && final(self).started() == old(self).started()
                && final(self).waiting_writes() == old(self).waiting_writes(),
    {
        if self.waiting.len() > 0 {
            let next = self.waiting.remove(0);
            proof {
                assert(chunk_views(self.waiting@) =~= chunk_views(old(self).waiting@).drop_first());
                self.started@ = self.started@.push(next@);
                assert(self.submitted@ =~= self.started@ + chunk_views(self.waiting@));
            }
            Some(next)
        } else {
            self.in_flight = false;
            None
        }
    }
}


/// The bytes of `chunks`, one after the other.
pub fn concat_chunks(chunks: Vec<Vec<u8>>) -> (r: Vec<u8>)
    requires
        chunk_views(chunks@).flatten().len() <= usize::MAX,
    ensures
        r@ == chunk_views(chunks@).flatten(),
{
    let mut chunks = chunks;
    let ghost all = chunk_views(chunks@);
    let mut out: Vec<u8> = Vec::new();
    let ghost mut seen: Seq<Seq<u8>> = Seq::empty();
    while chunks.len() > 0
        invariant
            out@ == seen.flatten(),
            seen + chunk_views(chunks@) == all,
            all.flatten().len() <= usize::MAX,
        decreases chunks@.len(),
    {
        let ghost before = chunks@;
        let mut c = chunks.remove(0);
        proof {
            assert(chunk_views(before) =~= seq![c@] + chunk_views(chunks@));
            assert(seen.push(c@) + chunk_views(chunks@) =~= all);
            seen.lemma_flatten_push(c@);
            vstd::seq_lib::lemma_flatten_concat(seen.push(c@), chunk_views(chunks@));
            seen = seen.push(c@);
        }
        out.append(&mut c);
    }
    proof {
        assert(seen =~= all);
    }
    out
}

} // verus!
