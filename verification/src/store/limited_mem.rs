//! A memory store of bounded size: a ring buffer that keeps the most
//! recently written part of the stream.
use std::collections::{TryReserveError, VecDeque};
use std::ops::Range;

use rangemap::RangeSet;
use vstd::prelude::*;

use crate::range_set::{points_of, range_set_insert, range_set_new, range_set_points};
use crate::store::capacity::{available_of, full_of, Bounds, Capacity, CapacityView};
use crate::vecdeque::{copied_from, copied_into, VecDequeExt};

verus! {

#[derive(Debug)]
pub enum Error {
    /// Not critical: the write position is not where the buffered range ends.
    SeekInProgress,
    /// Could not get enough memory from the OS
    CouldNotAllocate(TryReserveError),
}

/// What a limited memory store holds: the bytes of the stream from position
/// `start` on, and its bookkeeping.
pub struct MemoryView {
    pub start: u64,
    pub bytes: Seq<u8>,
    pub buffer_cap: usize,
    pub capacity: CapacityView,
    pub last_read_pos: u64,
}

/// The store holds positions `start..start + bytes.len()`; they fit in a
/// `u64` and in the buffer.
pub open spec fn memory_valid(m: MemoryView) -> bool {
    &&& m.start + m.bytes.len() <= u64::MAX
    &&& m.bytes.len() <= m.buffer_cap
}

/// How many bytes a write of `n` bytes stores: no more than is available.
pub open spec fn write_len(m: MemoryView, n: int) -> int {
    let avail = available_of(m.capacity);
    if n < avail { n } else { avail }
}

/// The store after writing `buf` at the end of its range: the oldest bytes
/// make room for the new ones when the buffer is full.
pub open spec fn written(m: MemoryView, buf: Seq<u8>) -> MemoryView {
    let n = write_len(m, buf.len() as int);
    let free_in_buffer = m.buffer_cap - m.bytes.len();
    let to_remove = if n > free_in_buffer { n - free_in_buffer } else { 0 };
    MemoryView {
        start: (m.start + to_remove) as u64,
        bytes: m.bytes.subrange(to_remove, m.bytes.len() as int) + buf.subrange(0, n),
        buffer_cap: m.buffer_cap,
        capacity: CapacityView {
            max: m.capacity.max,
            free: (if m.capacity.free >= n { m.capacity.free - n } else { 0 }) as u64,
            can_write: (available_of(
                CapacityView {
                    max: m.capacity.max,
                    free: (if m.capacity.free >= n { m.capacity.free - n } else { 0 }) as u64,
                    can_write: m.capacity.can_write,
                },
            ) > 0 && m.capacity.can_write),
        },
        last_read_pos: m.last_read_pos,
    }
}

/// What a read at `pos` into a buffer of `max` bytes gets from the store.
pub open spec fn read_back(m: MemoryView, pos: int, max: int) -> Seq<u8> {
    copied_from(m.bytes, pos - m.start, max)
}


/// Reading back a write: after a write of `buf` at the end of the buffered
/// range, a read at any of the positions it stored returns the written bytes
/// from that position on, as many as fit in the read buffer.
pub proof fn lemma_read_after_write(m: MemoryView, buf: Seq<u8>, p: int, max: int)
    requires
        memory_valid(m),
        0 < write_len(m, buf.len() as int) <= m.buffer_cap,
        m.start + m.bytes.len() + write_len(m, buf.len() as int) <= u64::MAX,
        m.start + m.bytes.len() <= p < m.start + m.bytes.len() + write_len(m, buf.len() as int),
        0 <= max,
    ensures
        ({
            let pos = m.start + m.bytes.len();
            let left = pos + write_len(m, buf.len() as int) - p;
            let k = if left < max { left } else { max };
            read_back(written(m, buf), p, max) == buf.subrange(p - pos, p - pos + k)
        }),
        memory_valid(written(m, buf)),
{
    let pos = m.start + m.bytes.len();
    let n = write_len(m, buf.len() as int);
    let w = written(m, buf);
    let free_in_buffer = m.buffer_cap - m.bytes.len();
    let to_remove = if n > free_in_buffer { n - free_in_buffer } else { 0 };
    assert(w.bytes.len() == m.bytes.len() - to_remove + n);
    let left = pos + n - p;
    let k = if left < max { left } else { max };
    let off = p - w.start;
    assert(off == p - pos + m.bytes.len() - to_remove);
    assert(w.bytes.subrange(off, off + k) =~= buf.subrange(p - pos, p - pos + k));
}

/// `VecDeque::try_reserve_exact`; whether the allocator grants it is not
/// known beforehand, the contents stay the same either way.
#[verifier::external_body]
fn deque_try_reserve_exact(v: &mut VecDeque<u8>, additional: usize) -> (r: Result<(), TryReserveError>)
    ensures
        final(v)@ == old(v)@,
{
    v.try_reserve_exact(additional)
}

#[derive(Debug)]
pub struct Memory {
    /// space available because the reader read past data
    capacity: Capacity,
    buffer: VecDeque<u8>,
    buffer_cap: usize,
    /// range of positions available, end non inclusive
    /// positions are measured from the absolute start of the stream
    range: Range<u64>,
    last_read_pos: u64,
}

impl View for Memory {
    type V = MemoryView;

    closed spec fn view(&self) -> MemoryView {
        MemoryView {
            start: self.range.start,
            bytes: self.buffer@,
            buffer_cap: self.buffer_cap,
            capacity: self.capacity@,
            last_read_pos: self.last_read_pos,
        }
    }
}

impl Memory {
    pub closed spec fn wf(&self) -> bool {
        &&& memory_valid(self@)
        &&& self.range.end == self.range.start + self.buffer@.len()
    }

    /// An empty store whose buffer can hold as many bytes as the capacity
    /// bound allows (none when unbounded). Fails when the memory for the
    /// buffer can not be reserved.
    pub fn new(capacity: Capacity) -> (r: Result<Self, Error>)
        ensures
            r matches Ok(m) ==> m.wf() && m@ == (MemoryView {
                start: 0,
                bytes: Seq::empty(),
                buffer_cap: match capacity@.max {
                    Bounds::Unlimited => 0usize,
                    Bounds::Limited(bytes) => bytes as usize,
                },
                capacity: capacity@,
                last_read_pos: 0,
            }),
            r matches Err(e) ==> e is CouldNotAllocate && capacity@.max is Limited,
    {
        let mut buffer = VecDeque::new();
        let buffer_cap = match capacity.total() {
            Bounds::Unlimited => 0,
            Bounds::Limited(bytes) => bytes as usize,
        };
        if let Bounds::Limited(bytes) = capacity.total() {
            if let Err(e) = deque_try_reserve_exact(&mut buffer, bytes as usize) {
                return Err(Error::CouldNotAllocate(e));
            }
        }
        Ok(Self { last_read_pos: 0, capacity, buffer, buffer_cap, range: Range { start: 0, end: 0 } })
    }

    /// Writes `buf` at `pos`, which must be where the buffered range ends
    /// (else a seek is in progress). Stores as much as the capacity allows,
    /// dropping the oldest bytes when the buffer is full; returns how many
    /// bytes were stored. A write can not store more than the whole buffer:
    /// the free capacity grows with every read, also when the reader reads
    /// bytes again after seeking back inside the buffer, so it can exceed
    /// the buffer, and the caller keeps such writes out.
    #[verifier::loop_isolation(false)]
    pub fn write_at(&mut self, buf: &[u8], pos: u64) -> (r: Result<usize, Error>)
        requires
            old(self).wf(),
            buf@.len() > 0,
            pos == old(self)@.start + old(self)@.bytes.len() ==> {
                let n = write_len(old(self)@, buf@.len() as int);
                &&& 0 < n <= old(self)@.buffer_cap
                &&& pos + n <= u64::MAX
            },
        ensures
            final(self).wf(),
            pos != old(self)@.start + old(self)@.bytes.len() ==> (r matches Err(Error::SeekInProgress))
                && final(self)@ == old(self)@,
            pos == old(self)@.start + old(self)@.bytes.len() ==> r == Ok::<usize, Error>(
                write_len(old(self)@, buf@.len() as int) as usize,
            ) && final(self)@ == written(old(self)@, buf@),
    {
        if pos != self.range.end {
            return Err(Error::SeekInProgress);
        }
        let ghost m = self@;
        let avail = self.capacity.available();
        let to_write = if buf.len() < avail { buf.len() } else { avail };
        let free_in_buffer = self.buffer_cap - self.buffer.len();
        let to_remove = to_write.saturating_sub(free_in_buffer);
        assert(pos == m.start + m.bytes.len());
        assert(to_write == write_len(m, buf@.len() as int));
        assert(to_write <= self.buffer_cap);
        assert(to_remove <= m.bytes.len());
        let mut k: usize = 0;
        while k < to_remove
            invariant
                k <= to_remove,
                to_remove <= m.bytes.len(),
                self.buffer@ == m.bytes.subrange(k as int, m.bytes.len() as int),
                self.range == old(self).range,
                self.capacity == old(self).capacity,
                self.buffer_cap == old(self).buffer_cap,
                self.last_read_pos == old(self).last_read_pos,
            decreases to_remove - k,
        {
            self.buffer.pop_front();
            k += 1;
        }
        let ghost kept = self.buffer@;
        let mut k: usize = 0;
        while k < to_write
            invariant
                k <= to_write,
                to_write <= buf@.len(),
                self.buffer@ == kept + buf@.subrange(0, k as int),
                self.range == old(self).range,
                self.capacity == old(self).capacity,
                self.buffer_cap == old(self).buffer_cap,
                self.last_read_pos == old(self).last_read_pos,
            decreases to_write - k,
        {
            self.buffer.push_back(buf[k]);
            k += 1;
            assert(buf@.subrange(0, k as int) =~= buf@.subrange(0, k - 1).push(buf@[k - 1]));
        }
        self.capacity.remove(to_write);
        self.range.start = self.range.start + to_remove as u64;
        self.range.end = self.range.end + to_write as u64;
        assert(self@.bytes =~= written(m, buf@).bytes);
        Ok(to_write)
    }

    /// Copies into `buf` the bytes from `pos` on; `pos` must be in the
    /// buffered range or at its end. The bytes read become free space.
    pub fn read_at(&mut self, buf: &mut [u8], pos: u64) -> (n: usize)
        requires
            old(self).wf(),
            old(self)@.start <= pos <= old(self)@.start + old(self)@.bytes.len(),
            old(self)@.capacity.free + read_back(old(self)@, pos as int, old(buf)@.len() as int).len()
                <= u64::MAX,
        ensures
            final(self).wf(),
            n == read_back(old(self)@, pos as int, old(buf)@.len() as int).len(),
            copied_into(old(buf)@, final(buf)@, read_back(old(self)@, pos as int, old(buf)@.len() as int)),
            final(self)@.start == old(self)@.start,
            final(self)@.bytes == old(self)@.bytes,
            final(self)@.buffer_cap == old(self)@.buffer_cap,
            final(self)@.capacity.max == old(self)@.capacity.max,
            final(self)@.capacity.free == old(self)@.capacity.free + n,
            final(self)@.last_read_pos == pos,
    {
        let relative_pos = pos - self.range.start;
        let n_copied = self.buffer.copy_starting_at(relative_pos as usize, buf);
        self.capacity.add(n_copied);
        self.last_read_pos = pos;
        n_copied
    }

    /// The buffered part of the stream, if any.
    pub fn ranges(&self) -> (s: RangeSet<u64>)
        requires
            self.wf(),
        ensures
            range_set_points(s) == points_of(self@.start as int, self@.start + self@.bytes.len()),
    {
        let mut res = range_set_new();
        if self.range.start < self.range.end {
            range_set_insert(&mut res, Range { start: self.range.start, end: self.range.end });
        }
        assert(range_set_points(res) =~= points_of(self@.start as int, self@.start + self@.bytes.len()));
        res
    }

    /// Whether both positions are in the buffered range.
    pub fn gapless_from_till(&self, pos: u64, last_seek: u64) -> (r: bool)
        requires
            self.wf(),
        ensures
            r == (self@.start <= pos < self@.start + self@.bytes.len() && self@.start <= last_seek
                < self@.start + self@.bytes.len()),
    {
        self.range.start <= pos && pos < self.range.end && self.range.start <= last_seek
            && last_seek < self.range.end
    }

    pub fn set_capacity(&mut self, capacity: Capacity)
        requires
            old(self).wf(),
        ensures
            final(self).wf(),
            final(self)@ == (MemoryView { capacity: capacity@, ..old(self)@ }),
    {
        self.capacity = capacity;
    }

    /// How many bytes the capacity lets a write store now.
    pub fn available(&self) -> (n: usize)
        ensures
            n == available_of(self@.capacity),
    {
        self.capacity.available()
    }

    /// The positions buffered.
    pub fn buffered(&self) -> (r: Range<u64>)
        requires
            self.wf(),
        ensures
            r.start == self@.start,
            r.end == self@.start + self@.bytes.len(),
    {
        Range { start: self.range.start, end: self.range.end }
    }

    /// The bound of the capacity.
    pub fn capacity_bounds(&self) -> (b: Bounds)
        ensures
            b == self@.capacity.max,
    {
        self.capacity.total()
    }

    /// How many bytes the buffer holds at most.
    pub fn buffer_cap(&self) -> (n: usize)
        ensures
            n == self@.buffer_cap,
    {
        self.buffer_cap
    }

    /// Whether the writer may write; it waits for the reader otherwise.
    pub fn can_write(&self) -> (b: bool)
        ensures
            b == self@.capacity.can_write,
    {
        self.capacity.can_write()
    }

    pub fn last_read_pos(&self) -> (p: u64)
        ensures
            p == self@.last_read_pos,
    {
        self.last_read_pos
    }

    pub fn n_supported_ranges(&self) -> (n: usize)
        ensures
            n == 1,
    {
        1
    }

    /// The capacity, handed on to the next store.
    pub fn into_parts(self) -> (c: Capacity)
        ensures
            c@ == self@.capacity,
    {
        self.capacity
    }

    /// Moves the writer to `to_pos`, outside the buffered range: the buffer
    /// is emptied and the capacity is full again.
    pub fn writer_jump(&mut self, to_pos: u64)
        requires
            old(self).wf(),
            !(old(self)@.start <= to_pos < old(self)@.start + old(self)@.bytes.len()),
        ensures
            final(self).wf(),
            final(self)@ == (MemoryView {
                start: to_pos,
                bytes: Seq::empty(),
                buffer_cap: old(self)@.buffer_cap,
                capacity: CapacityView {
                    max: old(self)@.capacity.max,
                    free: full_of(old(self)@.capacity.max),
                    can_write: true,
                },
                last_read_pos: to_pos,
            }),
    {
        self.buffer.clear();
        self.capacity.reset();
        self.range = Range { start: to_pos, end: to_pos };
        self.last_read_pos = to_pos;
    }
}

} // verus!
