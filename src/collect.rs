//! Gathers the bytes of a fixed-size value read one byte at a time.
use vstd::prelude::*;
use crate::error::Error;

verus! {

/// The capacity of the byte buffer: the largest value that can be gathered.
pub const BUF_SIZE: usize = 8;

/// A fixed buffer that receives bytes in order until `size` of them are in.
pub struct ByteCollector {
    buf: [u8; 8],
    filled: usize,
    size: usize,
}

impl ByteCollector {
    /// The bytes received so far, in order.
    pub closed spec fn gathered(&self) -> Seq<u8> {
        self.buf@.subrange(0, self.filled as int)
    }

    /// How many bytes the value needs.
    pub closed spec fn target(&self) -> nat {
        self.size as nat
    }

    /// The collector's internal consistency: the slots not yet written hold zero.
    pub closed spec fn wf(&self) -> bool {
        &&& self.filled <= self.size <= BUF_SIZE
        &&& forall|i: int| self.filled <= i < BUF_SIZE ==> self.buf@[i] == 0u8
    }

    /// An empty collector for a value of `size` bytes.
    pub fn new(size: usize) -> (r: Self)
        requires
            size <= BUF_SIZE,
        ensures
            r.wf(),
            r.gathered() == Seq::<u8>::empty(),
            r.target() == size,
    {
        let r = ByteCollector { buf: [0u8; 8], filled: 0, size };
        assert(r.gathered() =~= Seq::<u8>::empty());
        r
    }

    /// Whether more bytes are needed.
    pub fn needs_more(&self) -> (r: bool)
        requires
            self.wf(),
        ensures
            r == (self.gathered().len() < self.target()),
    {
        self.filled < self.size
    }

    /// Stores the next byte.
    pub fn push(&mut self, b: u8)
        requires
            old(self).wf(),
            old(self).gathered().len() < old(self).target(),
        ensures
            final(self).wf(),
            final(self).gathered() == old(self).gathered().push(b),
            final(self).target() == old(self).target(),
    {
        let i = self.filled;
        self.buf[i] = b;
        self.filled = i + 1;
        assert(self.gathered() =~= old(self).gathered().push(b));
    }

    /// Takes the outcome of one byte read: a byte is stored, a failure is
    /// handed back and leaves the collector as it was.
    pub fn accept(&mut self, read: Result<u8, Error>) -> (r: Result<(), Error>)
        requires
            old(self).wf(),
            old(self).gathered().len() < old(self).target(),
        ensures
            final(self).wf(),
            final(self).target() == old(self).target(),
            match read {
                Ok(b) => r == Ok::<(), Error>(()) && final(self).gathered() == old(self).gathered().push(b),
                Err(e) => r == Err::<(), Error>(e) && final(self).gathered() == old(self).gathered(),
            },
    {
        match read {
            Ok(b) => {
                self.push(b);
                Ok(())
            },
            Err(e) => Err(e),
        }
    }

    /// The whole buffer: the gathered bytes, then zeros.
    pub fn buffer(&self) -> (r: [u8; 8])
        requires
            self.wf(),
        ensures
            r@ == self.gathered() + Seq::new((BUF_SIZE - self.gathered().len()) as nat, |i: int| 0u8),
    {
        let r = self.buf;
        assert(r@ =~= self.gathered() + Seq::new((BUF_SIZE - self.gathered().len()) as nat, |i: int| 0u8));
        r
    }
}

} // verus!
