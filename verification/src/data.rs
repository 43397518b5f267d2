//! Compressed input.
use vstd::prelude::*;

verus! {

/// A piece of compressed input, consumed from its front.
#[derive(Debug)]
pub struct Data {
    buf: Vec<u8>,
    off: usize,
}

impl View for Data {
    type V = Seq<u8>;

    /// What is left to consume.
    closed spec fn view(&self) -> Seq<u8> {
        self.buf@.subrange(self.off as int, self.buf@.len() as int)
    }
}

impl Data {
    pub closed spec fn wf(self) -> bool {
        self.off <= self.buf@.len()
    }

    /// No input.
    pub fn new() -> (r: Self)
        ensures
            r.wf(),
            r@ == Seq::<u8>::empty(),
    {
        let r: Data = Data { buf: Vec::new(), off: 0 };
        assert(r@ =~= Seq::<u8>::empty());
        r
    }

    /// Input that holds the given bytes.
    pub fn wrap(buf: Vec<u8>) -> (r: Self)
        ensures
            r.wf(),
            r@ == buf@,
    {
        let r: Data = Data { buf, off: 0 };
        assert(r@ =~= buf@);
        r
    }

    pub fn len(&self) -> (r: usize)
        requires
            self.wf(),
        ensures
            r == self@.len(),
    {
        self.buf.len() - self.off
    }

    pub fn is_empty(&self) -> (r: bool)
        requires
            self.wf(),
        ensures
            r == (self@.len() == 0),
    {
        self.off == self.buf.len()
    }

    pub fn has_data(&self) -> (r: bool)
        requires
            self.wf(),
        ensures
            r == (self@.len() > 0),
    {
        self.off < self.buf.len()
    }

    /// Drops the first `n` bytes.
    pub fn consume(&mut self, n: usize)
        requires
            old(self).wf(),
            n <= old(self)@.len(),
        ensures
            final(self).wf(),
            final(self)@ == old(self)@.subrange(n as int, old(self)@.len() as int),
    {
        let len: usize = self.buf.len();
        assert(self.off + n <= len);
        self.off = self.off + n;
        assert(self@ =~= old(self)@.subrange(n as int, old(self)@.len() as int));
    }

    /// Drops all that is left.
    pub fn unref(&mut self)
        ensures
            final(self).wf(),
            final(self)@ == Seq::<u8>::empty(),
    {
        self.buf = Vec::new();
        self.off = 0;
        assert(self@ =~= Seq::<u8>::empty());
    }

    /// The bytes that are left.
    pub fn data(&self) -> (r: Vec<u8>)
        requires
            self.wf(),
        ensures
            r@ == self@,
    {
        let mut r: Vec<u8> = Vec::new();
        let mut i: usize = self.off;
        while i < self.buf.len()
            invariant
                self.off <= i <= self.buf@.len(),
                r@ == self.buf@.subrange(self.off as int, i as int),
            decreases self.buf@.len() - i,
        {
            r.push(self.buf[i]);
            i = i + 1;
            assert(r@ =~= self.buf@.subrange(self.off as int, i as int));
        }
        r
    }
}

} // verus!
