//! The bytes of a response body that were received but not written yet.
//! A read that is cut off after a byte budget keeps the rest of the last
//! frame here and writes it first on the next read; bytes leave only once
//! written, so a cancelled write loses nothing.
use std::collections::VecDeque;

use vstd::prelude::*;

verus! {

pub struct Leftover {
    buffer: VecDeque<u8>,
}

impl View for Leftover {
    type V = Seq<u8>;

    closed spec fn view(&self) -> Seq<u8> {
        self.buffer@
    }
}

impl Leftover {
    pub fn new() -> (l: Self)
        ensures
            l@ == Seq::<u8>::empty(),
    {
        Leftover { buffer: VecDeque::new() }
    }

    pub fn is_empty(&self) -> (b: bool)
        ensures
            b == (self@.len() == 0),
    {
        self.buffer.len() == 0
    }

    /// The kept bytes to write first, at most `max` of them, oldest first.
    pub fn to_write(&self, max: usize) -> (v: Vec<u8>)
        ensures
            v@ == self@.take(if self@.len() < max { self@.len() as int } else { max as int }),
    {
        let n = if self.buffer.len() < max { self.buffer.len() } else { max };
        let mut v: Vec<u8> = Vec::new();
        let mut i: usize = 0;
        while i < n
            invariant
                i <= n,
                n <= self@.len(),
                v@ == self@.take(i as int),
            decreases n - i,
        {
            v.push(self.buffer[i]);
            i += 1;
            assert(v@ =~= self@.take(i as int));
        }
        v
    }

    /// `n` of the kept bytes were written: they leave.
    pub fn written(&mut self, n: usize)
        requires
            n <= old(self)@.len(),
        ensures
            final(self)@ == old(self)@.skip(n as int),
    {
        let mut i: usize = 0;
        while i < n
            invariant
                i <= n,
                n <= old(self)@.len(),
                self@ == old(self)@.skip(i as int),
            decreases n - i,
        {
            self.buffer.pop_front();
            i += 1;
        }
    }

    /// Splits a new frame of the body: the part to write now, at most
    /// `allowance` bytes, is returned; the rest is kept after what was
    /// kept before. Nothing is lost or reordered.
    pub fn split_frame(&mut self, data: &[u8], allowance: usize) -> (w: Vec<u8>)
        ensures
            w@ == data@.take(if data@.len() < allowance { data@.len() as int } else { allowance as int }),
            final(self)@ == old(self)@ + data@.skip(w@.len() as int),
            w@ + data@.skip(w@.len() as int) == data@,
    {
        let split = if data.len() < allowance { data.len() } else { allowance };
        let mut w: Vec<u8> = Vec::new();
        let mut i: usize = 0;
        while i < split
            invariant
                i <= split,
                split <= data@.len(),
                w@ == data@.take(i as int),
                self@ == old(self)@,
            decreases split - i,
        {
            w.push(data[i]);
            i += 1;
            assert(w@ =~= data@.take(i as int));
        }
        let mut j: usize = split;
        while j < data.len()
            invariant
                split <= j <= data@.len(),
                self@ == old(self)@ + data@.subrange(split as int, j as int),
            decreases data.len() - j,
        {
            self.buffer.push_back(data[j]);
            j += 1;
            assert(self@ =~= old(self)@ + data@.subrange(split as int, j as int));
        }
        assert(data@.subrange(split as int, data@.len() as int) =~= data@.skip(split as int));
        assert(w@ + data@.skip(split as int) =~= data@);
        w
    }
}

} // verus!
