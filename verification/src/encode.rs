use vstd::prelude::*;
use crate::byte_shift::ByteShifter;

verus! {

/// The byte-shifting copier between a reader and a writer: it takes in one
/// chunk at a time, shifts every byte by the configured offset, and hands
/// the shifted bytes on until all of them are written, counting what went
/// through. Reading, writing and polling stay with the caller; this is the
/// state carried between those steps.
pub struct Encode {
    shifter: ByteShifter,
    read_done: bool,
    pos: usize,
    amt: u64,
    buf: Vec<u8>,
}

impl Encode {
    /// The configured shift offset.
    pub closed spec fn spec_sugar(&self) -> u8 {
        self.shifter.spec_sugar()
    }

    /// Whether the source has reported end-of-input.
    pub closed spec fn spec_read_done(&self) -> bool {
        self.read_done
    }

    /// The shifted bytes still to be written.
    pub closed spec fn spec_pending(&self) -> Seq<u8> {
        self.buf@.skip(self.pos as int)
    }

    /// How many bytes have been written so far.
    pub closed spec fn spec_amount(&self) -> u64 {
        self.amt
    }

    /// The write position never passes the end of the chunk.
    pub closed spec fn wf(&self) -> bool {
        self.pos <= self.buf@.len()
    }

    pub fn new(sugar: u8) -> (e: Self)
        ensures
            e.wf(),
            e.spec_sugar() == sugar,
            !e.spec_read_done(),
            e.spec_pending() == Seq::<u8>::empty(),
            e.spec_amount() == 0,
    {
        let e = Self {
            shifter: ByteShifter::new(sugar),
            read_done: false,
            pos: 0,
            amt: 0,
            buf: Vec::new(),
        };
        proof {
            assert(e.spec_pending() =~= Seq::<u8>::empty());
        }
        e
    }

    /// Whether the copier needs another read from the source.
    pub fn needs_read(&self) -> (r: bool)
        requires
            self.wf(),
        ensures
            r == (self.spec_pending().len() == 0 && !self.spec_read_done()),
    {
        self.pos == self.buf.len() && !self.read_done
    }

    /// Absorbs one read. No bytes mean the source ended; otherwise every
    /// byte of the chunk is shifted once and queued for writing.
    pub fn absorb_read(&mut self, chunk: &[u8])
        requires
            old(self).wf(),
            old(self).spec_pending().len() == 0,
            !old(self).spec_read_done(),
        ensures
            final(self).wf(),
            final(self).spec_sugar() == old(self).spec_sugar(),
            final(self).spec_amount() == old(self).spec_amount(),
            chunk@.len() == 0 ==> final(self).spec_read_done() && final(self).spec_pending().len()
                == 0,
            chunk@.len() > 0 ==> !final(self).spec_read_done() && final(self).spec_pending()
                == chunk@.map(
                |i: int, b: u8| ByteShifter::spec_encode(old(self).spec_sugar(), b),
            ),
    {
        if chunk.len() == 0 {
            self.read_done = true;
        } else {
            let mut shifted: Vec<u8> = Vec::new();
            let n = chunk.len();
            let mut k: usize = 0;
            while k < n
                invariant
                    n == chunk@.len(),
                    k <= n,
                    shifted@ == chunk@.subrange(0, k as int).map(
                        |i: int, b: u8| ByteShifter::spec_encode(self.shifter.spec_sugar(), b),
                    ),
                decreases n - k,
            {
                shifted.push(self.shifter.encode(chunk[k]));
                assert(shifted@ =~= chunk@.subrange(0, k as int + 1).map(
                    |i: int, b: u8| ByteShifter::spec_encode(self.shifter.spec_sugar(), b),
                ));
                k = k + 1;
            }
            self.buf = shifted;
            self.pos = 0;
            proof {
                assert(chunk@.subrange(0, chunk@.len() as int) =~= chunk@);
                assert(self.spec_pending() =~= self.buf@);
            }
        }
    }

    /// A copy of the shifted bytes still to be written.
    pub fn next_chunk(&self) -> (v: Vec<u8>)
        requires
            self.wf(),
        ensures
            v@ == self.spec_pending(),
    {
        let n = self.buf.len();
        let mut v: Vec<u8> = Vec::new();
        let mut k = self.pos;
        while k < n
            invariant
                self.pos <= k <= n,
                n == self.buf@.len(),
                v@ == self.buf@.subrange(self.pos as int, k as int),
            decreases n - k,
        {
            v.push(self.buf[k]);
            assert(v@ =~= self.buf@.subrange(self.pos as int, k as int + 1));
            k = k + 1;
        }
        proof {
            assert(v@ =~= self.spec_pending());
        }
        v
    }

    /// Records that the writer accepted `n` of the pending bytes.
    pub fn advance_written(&mut self, n: usize)
        requires
            old(self).wf(),
            n <= old(self).spec_pending().len(),
            old(self).spec_amount() + n <= u64::MAX,
        ensures
            final(self).wf(),
            final(self).spec_sugar() == old(self).spec_sugar(),
            final(self).spec_read_done() == old(self).spec_read_done(),
            final(self).spec_pending() == old(self).spec_pending().skip(n as int),
            final(self).spec_amount() == old(self).spec_amount() + n,
    {
        let l = self.buf.len();
        proof {
            assert(old(self).spec_pending().len() == self.buf@.len() - self.pos);
            assert(self.pos + n <= l);
        }
        self.pos = self.pos + n;
        self.amt = self.amt + (n as u64);
        proof {
            assert(self.spec_pending() =~= old(self).spec_pending().skip(n as int));
        }
    }

    /// Whether everything read has been written: the source ended and no
    /// shifted bytes wait.
    pub fn finished(&self) -> (r: bool)
        requires
            self.wf(),
        ensures
            r == (self.spec_read_done() && self.spec_pending().len() == 0),
    {
        self.read_done && self.pos == self.buf.len()
    }

    /// How many bytes have gone through so far.
    pub fn amount(&self) -> (a: u64)
        ensures
            a == self.spec_amount(),
    {
        self.amt
    }
}

} // verus!
