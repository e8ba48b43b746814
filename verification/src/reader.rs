//! Byte readers handed out by `read` calls.
//!
//! A reader is a forward-only cursor over the bytes a read call selected.
//! Consuming it in chunks lets callers stream a value without holding it
//! whole; layers may wrap a reader to observe consumption.

use vstd::prelude::*;

verus! {

/// A forward-only source of bytes with an exact model of what is left.
pub trait OutputRead: Sized {
    /// The bytes not yet consumed.
    spec fn remaining(&self) -> Seq<u8>;

    /// Take up to `max` bytes off the front. Returns less than `max` only at
    /// the end of the stream; an empty result means the stream is finished.
    fn read_bytes(&mut self, max: usize) -> (r: Vec<u8>)
        ensures
            r@.len() == if max as int <= old(self).remaining().len() {
                max as int
            } else {
                old(self).remaining().len() as int
            },
            r@ == old(self).remaining().take(r@.len() as int),
            final(self).remaining() == old(self).remaining().skip(r@.len() as int),
    ;

    /// How many bytes are left.
    fn remaining_len(&self) -> (r: usize)
        ensures
            r == self.remaining().len(),
    ;
}

/// An in-memory reader over a value fetched whole.
pub struct Cursor {
    data: Vec<u8>,
    pos: usize,
}

impl Cursor {
    /// Wrap a fetched value; everything is still to be read.
    pub fn new(data: Vec<u8>) -> (r: Cursor)
        ensures
            r.remaining() == data@,
    {
        Cursor { data, pos: 0 }
    }

    /// Consume the cursor, returning all bytes not yet read.
    pub fn into_rest(self) -> (r: Vec<u8>)
        ensures
            r@ == self.remaining(),
    {
        let n = self.data.len();
        if self.pos >= n {
            let out: Vec<u8> = Vec::new();
            proof {
                assert(out@ =~= self.remaining());
            }
            return out;
        }
        let mut out: Vec<u8> = Vec::new();
        let mut i = self.pos;
        while i < n
            invariant
                self.pos <= i <= n,
                n == self.data@.len(),
                out@ =~= self.data@.subrange(self.pos as int, i as int),
            decreases n - i,
        {
            out.push(self.data[i]);
            proof {
                assert(out@ =~= self.data@.subrange(self.pos as int, i + 1int));
            }
            i = i + 1;
        }
        proof {
            if self.pos <= self.data@.len() {
                assert(out@ =~= self.data@.skip(self.pos as int));
            }
        }
        out
    }
}

impl OutputRead for Cursor {
    closed spec fn remaining(&self) -> Seq<u8> {
        if self.pos <= self.data@.len() {
            self.data@.skip(self.pos as int)
        } else {
            Seq::empty()
        }
    }

    fn read_bytes(&mut self, max: usize) -> (r: Vec<u8>)
        ensures
            r@.len() == if max as int <= old(self).remaining().len() {
                max as int
            } else {
                old(self).remaining().len() as int
            },
            r@ == old(self).remaining().take(r@.len() as int),
            final(self).remaining() == old(self).remaining().skip(r@.len() as int),
    {
        let n = self.data.len();
        if self.pos >= n {
            let out: Vec<u8> = Vec::new();
            proof {
                assert(old(self).remaining().len() == 0);
                assert(out@ =~= old(self).remaining().take(0int));
                assert(self.remaining() =~= old(self).remaining().skip(0int));
            }
            return out;
        }
        let left = n - self.pos;
        let k = if max <= left {
            max
        } else {
            left
        };
        let mut out: Vec<u8> = Vec::new();
        let mut i: usize = 0;
        while i < k
            invariant
                self.pos + k <= self.data@.len(),
                self.data@.len() <= usize::MAX,
                i <= k,
                out@ =~= self.data@.subrange(self.pos as int, self.pos + i),
            decreases k - i,
        {
            proof {
                assert(self.pos + i < self.data@.len());
            }
            out.push(self.data[self.pos + i]);
            proof {
                assert(out@ =~= self.data@.subrange(self.pos as int, self.pos + i + 1));
            }
            i = i + 1;
        }
        proof {
            assert(out@ =~= old(self).remaining().take(k as int));
        }
        self.pos = self.pos + k;
        proof {
            assert(self.remaining() =~= old(self).remaining().skip(k as int));
        }
        out
    }

    fn remaining_len(&self) -> (r: usize)
        ensures
            r == self.remaining().len(),
    {
        if self.pos <= self.data.len() {
            self.data.len() - self.pos
        } else {
            0
        }
    }
}

} // verus!
