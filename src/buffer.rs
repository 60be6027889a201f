//! The block buffer of one copy direction: bytes read from the source wait
//! here until the sink has accepted them, possibly over several partial writes.
use vstd::prelude::*;

verus! {

pub struct CopyBuffer {
    pub buf: Vec<u8>,
    pub pos: usize,
    /// Every byte read from the source so far, in order.
    pub taken: Ghost<Seq<u8>>,
    /// Every byte the sink has accepted so far, in order.
    pub delivered: Ghost<Seq<u8>>,
}

impl CopyBuffer {
    /// Bytes read but not yet accepted by the sink.
    pub open spec fn pending(&self) -> Seq<u8> {
        self.buf@.skip(self.pos as int)
    }

    pub open spec fn wf(&self) -> bool {
        &&& self.pos <= self.buf@.len()
        &&& self.delivered@ + self.pending() == self.taken@
    }

    pub fn new() -> (r: CopyBuffer)
        ensures
            r.wf(),
            r.pending().len() == 0,
            r.taken@ == Seq::<u8>::empty(),
            r.delivered@ == Seq::<u8>::empty(),
    {
        let r = CopyBuffer {
            buf: Vec::new(),
            pos: 0,
            taken: Ghost(Seq::empty()),
            delivered: Ghost(Seq::empty()),
        };
        assert(r.delivered@ + r.pending() =~= r.taken@);
        r
    }

    pub fn pending_len(&self) -> (r: usize)
        requires
            self.wf(),
        ensures
            r == self.pending().len(),
    {
        self.buf.len() - self.pos
    }

    /// Takes in a block just read from the source.
    pub fn fill(&mut self, data: Vec<u8>)
        requires
            old(self).wf(),
            old(self).pending().len() == 0,
        ensures
            final(self).wf(),
            final(self).pending() == data@,
            final(self).taken@ == old(self).taken@ + data@,
            final(self).delivered@ == old(self).delivered@,
    {
        let ghost d = data@;
        self.buf = data;
        self.pos = 0;
        self.taken = Ghost(self.taken@ + d);
        assert(self.buf@.skip(0) =~= d);
        assert(old(self).delivered@ =~= old(self).taken@);
    }

    /// A copy of the pending bytes, to be handed to the sink.
    pub fn pending_bytes(&self) -> (r: Vec<u8>)
        requires
            self.wf(),
        ensures
            r@ == self.pending(),
    {
        let mut r: Vec<u8> = Vec::new();
        let mut i: usize = self.pos;
        while i < self.buf.len()
            invariant
                self.pos <= i <= self.buf@.len(),
                r@ == self.buf@.subrange(self.pos as int, i as int),
            decreases self.buf@.len() - i,
        {
            r.push(self.buf[i]);
            assert(r@ =~= self.buf@.subrange(self.pos as int, i + 1));
            i = i + 1;
        }
        assert(r@ =~= self.pending());
        r
    }

    /// Records that the sink accepted the first `n` pending bytes.
    pub fn consume(&mut self, n: usize)
        requires
            old(self).wf(),
            n <= old(self).pending().len(),
        ensures
            final(self).wf(),
            final(self).pending() == old(self).pending().skip(n as int),
            final(self).delivered@ == old(self).delivered@ + old(self).pending().take(n as int),
            final(self).taken@ == old(self).taken@,
    {
        let ghost p = self.pending();
        let len = self.buf.len();
        assert(self.pos + n <= len);
        self.delivered = Ghost(self.delivered@ + p.take(n as int));
        self.pos = self.pos + n;
        assert(self.pending() =~= p.skip(n as int));
        assert(self.delivered@ + self.pending() =~= old(self).delivered@ + p);
    }
}

} // verus!
