use vstd::prelude::*;

verus! {

/// A reliable, ordered byte-stream connection as the protocol engine
/// sees it.
///
/// `incoming()` is everything the peer will still deliver on this
/// stream; `sent()` is everything handed over for sending so far. A
/// read that returns no bytes means the stream has ended — closed by
/// the peer, or failed. Write faults are not reported here: as with a
/// buffered socket they surface on a following read, which finds the
/// stream ended.
pub trait Transport: Sized {
    /// The bytes still to be delivered by the peer, in order. The
    /// default stands for a connection whose model is not stated;
    /// a transport verified against this trait overrides it.
    open spec fn incoming(&self) -> Seq<u8> {
        Seq::empty()
    }

    /// The bytes handed over for sending so far, in order; as with
    /// `incoming`, a verified transport overrides the default.
    open spec fn sent(&self) -> Seq<u8> {
        Seq::empty()
    }

    /// Queues `data` for sending and flushes it.
    fn send_all(&mut self, data: &[u8])
        ensures
            final(self).sent() == old(self).sent() + data@,
            final(self).incoming() == old(self).incoming(),
    ;

    /// Delivers the next bytes of the stream: at least one and at most
    /// `max`, except that an ended stream delivers none. How many
    /// arrive per call is the transport's choice; callers must not
    /// depend on any particular chunking.
    fn read_some(&mut self, max: usize) -> (r: Vec<u8>)
        requires
            max >= 1,
        ensures
            r@.len() <= max,
            r@.len() <= old(self).incoming().len(),
            r@ == old(self).incoming().take(r@.len() as int),
            final(self).incoming() == old(self).incoming().skip(r@.len() as int),
            r@.len() == 0 ==> old(self).incoming().len() == 0,
            final(self).sent() == old(self).sent(),
    ;
}

/// An in-memory transport: a scripted sequence of bytes to deliver, an
/// optional schedule of delivery chunk sizes, and a log of everything
/// sent. It backs the tests, standing in for a peer whose replies are
/// known in advance and may arrive in arbitrary splits.
pub struct MemTransport {
    feed: Vec<u8>,
    pos: usize,
    chunks: Vec<usize>,
    chunk_at: usize,
    log: Vec<u8>,
}

impl MemTransport {
    /// A transport that will deliver `feed`, in chunks of the
    /// transport's own choosing.
    pub fn new(feed: Vec<u8>) -> (r: MemTransport)
        ensures
            r.incoming() == feed@,
            r.sent() == Seq::<u8>::empty(),
    {
        let r = MemTransport {
            feed,
            pos: 0,
            chunks: Vec::new(),
            chunk_at: 0,
            log: Vec::new(),
        };
        proof {
            assert(r.incoming() =~= r.feed@);
        }
        r
    }

    /// A transport that will deliver `feed` in successive reads capped
    /// by the sizes in `chunks` (a zero counts as one); once the
    /// schedule is used up, reads are capped only by the caller.
    pub fn with_chunks(feed: Vec<u8>, chunks: Vec<usize>) -> (r: MemTransport)
        ensures
            r.incoming() == feed@,
            r.sent() == Seq::<u8>::empty(),
    {
        let r = MemTransport { feed, pos: 0, chunks, chunk_at: 0, log: Vec::new() };
        proof {
            assert(r.incoming() =~= r.feed@);
        }
        r
    }

    /// Everything sent through this transport so far.
    pub fn log(&self) -> (r: &Vec<u8>)
        ensures
            r@ == self.sent(),
    {
        &self.log
    }

    /// Everything not yet delivered.
    pub fn pending(&self) -> (r: usize)
        ensures
            r == self.incoming().len(),
    {
        if self.pos >= self.feed.len() {
            0
        } else {
            self.feed.len() - self.pos
        }
    }
}

impl Transport for MemTransport {
    closed spec fn incoming(&self) -> Seq<u8> {
        if self.pos <= self.feed@.len() {
            self.feed@.skip(self.pos as int)
        } else {
            Seq::empty()
        }
    }

    closed spec fn sent(&self) -> Seq<u8> {
        self.log@
    }

    fn send_all(&mut self, data: &[u8])
        ensures
            final(self).sent() == old(self).sent() + data@,
            final(self).incoming() == old(self).incoming(),
    {
        let mut j: usize = 0;
        while j < data.len()
            invariant
                j <= data@.len(),
                self.log@ == old(self).log@ + data@.take(j as int),
                self.feed == old(self).feed,
                self.pos == old(self).pos,
                self.chunks == old(self).chunks,
                self.chunk_at == old(self).chunk_at,
            decreases data@.len() - j,
        {
            self.log.push(data[j]);
            proof {
                assert(old(self).log@ + data@.take(j as int) + seq![data@[j as int]] =~= old(
                    self,
                ).log@ + data@.take(j + 1));
            }
            j = j + 1;
        }
        proof {
            assert(data@.take(data@.len() as int) =~= data@);
        }
    }

    fn read_some(&mut self, max: usize) -> (r: Vec<u8>)
        ensures
            r@.len() <= max,
            r@.len() <= old(self).incoming().len(),
            r@ == old(self).incoming().take(r@.len() as int),
            final(self).incoming() == old(self).incoming().skip(r@.len() as int),
            r@.len() == 0 ==> old(self).incoming().len() == 0,
            final(self).sent() == old(self).sent(),
    {
        if self.pos >= self.feed.len() {
            let r: Vec<u8> = Vec::new();
            proof {
                assert(r@ =~= old(self).incoming().take(0));
                assert(final(self).incoming() =~= old(self).incoming().skip(0));
            }
            return r;
        }
        let remaining = self.feed.len() - self.pos;
        let mut k = max;
        if self.chunk_at < self.chunks.len() {
            let c = self.chunks[self.chunk_at];
            self.chunk_at = self.chunk_at + 1;
            if c >= 1 && c < k {
                k = c;
            }
        }
        if remaining < k {
            k = remaining;
        }
        let mut out: Vec<u8> = Vec::new();
        let start = self.pos;
        let end = start + k;
        let mut idx = start;
        while idx < end
            invariant
                start <= idx <= end,
                end == start + k,
                end <= self.feed@.len(),
                self.feed == old(self).feed,
                self.log == old(self).log,
                out@.len() == idx - start,
                forall|i: int| 0 <= i < out@.len() ==> out@[i] == self.feed@[start + i],
            decreases end - idx,
        {
            let b = self.feed[idx];
            out.push(b);
            idx = idx + 1;
        }
        self.pos = end;
        proof {
            assert(out@ =~= old(self).incoming().take(k as int));
            assert(final(self).incoming() =~= old(self).incoming().skip(k as int));
        }
        out
    }
}

} // verus!
