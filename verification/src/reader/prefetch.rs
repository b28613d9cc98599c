//! Data read ahead of the reader, served before asking the store again.
use std::collections::VecDeque;
use std::ops::Range;

use vstd::prelude::*;

use crate::vecdeque::{copied_from, copied_into, VecDequeExt};

verus! {

/// What a prefetch holds: its buffer, the stream positions whose bytes are
/// at the front of it, and whether it may still prefetch.
pub struct PrefetchView {
    pub buf: Seq<u8>,
    pub start: u64,
    pub end: u64,
    pub active: bool,
}

#[derive(Debug)]
pub struct Prefetch {
    buf: VecDeque<u8>,
    /// positions in the stream of the bytes at the front of `buf`
    in_buffer: Range<u64>,
    active: bool,
}

impl View for Prefetch {
    type V = PrefetchView;

    closed spec fn view(&self) -> PrefetchView {
        PrefetchView {
            buf: self.buf@,
            start: self.in_buffer.start,
            end: self.in_buffer.end,
            active: self.active,
        }
    }
}

impl Prefetch {
    pub closed spec fn wf(&self) -> bool {
        self.in_buffer.start <= self.in_buffer.end && self.in_buffer.end - self.in_buffer.start
            <= self.buf@.len()
    }

    /// A prefetch of `amount` bytes, active; an amount of 0 disables it.
    pub fn new(amount: usize) -> (p: Self)
        ensures
            p.wf(),
            p@ == (PrefetchView { buf: Seq::new(amount as nat, |i: int| 0u8), start: 0, end: 0, active: true }),
    {
        let mut buf = VecDeque::with_capacity(amount);
        let mut i: usize = 0;
        while i < amount
            invariant
                i <= amount,
                buf@ == Seq::new(i as nat, |j: int| 0u8),
            decreases amount - i,
        {
            buf.push_back(0u8);
            i += 1;
            assert(buf@ =~= Seq::new(i as nat, |j: int| 0u8));
        }
        Self { buf, in_buffer: Range { start: 0, end: 0 }, active: true }
    }

    /// Forgets what was prefetched and marks the prefetcher active again.
    /// The buffer is emptied too, and an empty buffer never asks for a
    /// prefetch (see `should_run`), so no prefetch runs after a reset.
    pub fn reset(&mut self)
        ensures
            final(self).wf(),
            final(self)@ == (PrefetchView { buf: Seq::empty(), start: 0, end: 0, active: true }),
    {
        self.buf.clear();
        self.in_buffer = Range { start: 0, end: 0 };
        self.active = true;
    }

    /// Whether to prefetch after a read of `already_read` bytes: only while
    /// active and when the read took less than the prefetch amount.
    pub fn should_run(&self, already_read: usize) -> (r: bool)
        ensures
            r == (self@.active && already_read < self@.buf.len()),
    {
        if !self.active {
            return false;
        }
        if already_read >= self.buf.len() {
            return false;
        }
        true
    }

    /// How much to prefetch: the rest of the prefetch amount, no further than
    /// the end of the stream when its size is known.
    pub fn bytes_to_prefetch(&self, already_read: usize, curr_pos: u64, stream_size: Option<u64>) -> (n: usize)
        requires
            already_read <= self@.buf.len(),
            stream_size matches Some(size) ==> curr_pos <= size,
        ensures
            n == match stream_size {
                None => self@.buf.len() - already_read,
                Some(size) => {
                    let rest = self@.buf.len() - already_read;
                    let left = ((size - curr_pos) as u64) as usize;
                    if rest < left { rest } else { left as int }
                },
            },
    {
        let mut to_prefetch = self.buf.len() - already_read;
        if let Some(stream_size) = stream_size {
            let left = (stream_size - curr_pos) as usize;
            if left < to_prefetch {
                to_prefetch = left;
            }
        }
        to_prefetch
    }

    /// Serves a read at `curr_pos` from the prefetched bytes, if they hold
    /// that position; returns how many bytes were copied.
    pub fn read_from_prefetched(&mut self, buf: &mut [u8], curr_pos: u64) -> (n: usize)
        requires
            old(self).wf(),
        ensures
            final(self)@ == old(self)@,
            final(self).wf(),
            n <= old(buf)@.len(),
            !(old(self)@.start <= curr_pos < old(self)@.end) ==> n == 0 && final(buf)@ == old(buf)@,
            old(self)@.start <= curr_pos < old(self)@.end ==> {
                let copied = copied_from(old(self)@.buf, curr_pos - old(self)@.start, old(buf)@.len() as int);
                n == copied.len() && copied_into(old(buf)@, final(buf)@, copied)
            },
    {
        if !(self.in_buffer.start <= curr_pos && curr_pos < self.in_buffer.end) {
            return 0;
        }
        let offset = curr_pos - self.in_buffer.start;
        let buffered = self.buf.len();
        assert(offset < buffered);
        self.buf.copy_starting_at(offset as usize, buf)
    }

    /// The prefetch read `data` from stream position `start` on: it goes to
    /// the front of the buffer and is served from there.
    pub fn store_prefetched(&mut self, start: u64, data: &[u8])
        requires
            old(self).wf(),
            data@.len() <= old(self)@.buf.len(),
            start + data@.len() <= u64::MAX,
        ensures
            final(self).wf(),
            final(self)@ == (PrefetchView {
                buf: data@ + old(self)@.buf.skip(data@.len() as int),
                start,
                end: (start + data@.len()) as u64,
                active: old(self)@.active,
            }),
    {
        let mut buf: VecDeque<u8> = VecDeque::new();
        let mut i: usize = 0;
        while i < data.len()
            invariant
                i <= data@.len(),
                buf@ == data@.take(i as int),
            decreases data.len() - i,
        {
            buf.push_back(data[i]);
            i += 1;
            assert(buf@ =~= data@.take(i as int));
        }
        let mut j: usize = data.len();
        while j < self.buf.len()
            invariant
                data@.len() <= j <= self.buf@.len(),
                buf@ == data@ + self.buf@.subrange(data@.len() as int, j as int),
            decreases self.buf.len() - j,
        {
            buf.push_back(self.buf[j]);
            j += 1;
            assert(buf@ =~= data@ + self.buf@.subrange(data@.len() as int, j as int));
        }
        assert(self.buf@.subrange(data@.len() as int, self.buf@.len() as int) =~= self.buf@.skip(
            data@.len() as int,
        ));
        self.buf = buf;
        self.in_buffer = Range { start, end: start + data.len() as u64 };
    }

    /// How many bytes the prefetch buffer holds.
    pub fn amount(&self) -> (n: usize)
        ensures
            n == self@.buf.len(),
    {
        self.buf.len()
    }

    /// Stops prefetching until the next reset.
    pub fn deactivate(&mut self)
        requires
            old(self).wf(),
        ensures
            final(self).wf(),
            final(self)@ == (PrefetchView { active: false, ..old(self)@ }),
    {
        self.active = false;
    }
}

/// Prefetched bytes are served back: after `data` was stored as read from
/// `start` on, a read at a position `p` it covers starts with the stored
/// bytes from `p` on, as many as the read takes and were stored.
pub proof fn lemma_prefetched_read_back(v: PrefetchView, start: u64, data: Seq<u8>, p: u64, max: int)
    requires
        data.len() <= v.buf.len(),
        start <= p < start + data.len(),
        0 <= max,
    ensures
        ({
            let stored = data + v.buf.skip(data.len() as int);
            let k = if start + data.len() - p < max { start + data.len() - p } else { max };
            copied_from(stored, p - start, max).subrange(0, k) == data.subrange(p - start, p - start + k)
        }),
{
    let stored = data + v.buf.skip(data.len() as int);
    let k = if start + data.len() - p < max { start + data.len() - p } else { max };
    let off = p - start;
    assert(copied_from(stored, off, max).subrange(0, k) =~= data.subrange(off, off + k));
}

/// A prefetch in progress: the position it reads at next and how much it
/// still has to read.
#[derive(Debug)]
pub struct Prefetching {
    pub pos: u64,
    pub still_needed: usize,
}

impl Prefetching {
    pub fn account_for_bytes_read(&mut self, bytes: usize)
        requires
            bytes <= old(self).still_needed,
            old(self).pos + bytes <= u64::MAX,
        ensures
            final(self).still_needed == old(self).still_needed - bytes,
            final(self).pos == old(self).pos + bytes,
    {
        self.still_needed -= bytes;
        self.pos += bytes as u64;
    }

    /// The positions prefetched when it started at `start`.
    pub fn finish(&self, start: u64) -> (r: Range<u64>)
        ensures
            r == (Range { start, end: self.pos }),
    {
        Range { start, end: self.pos }
    }
}

} // verus!
