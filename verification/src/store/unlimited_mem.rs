//! A memory store without a size bound: it keeps every part of the stream
//! that was downloaded.
use std::collections::TryReserveError;
use std::ops::Range;

use rangemap::RangeSet;
use vstd::prelude::*;

use crate::range_set::{covers, covers_range, range_set_points};
use crate::store::capacity::{full_of, Bounds, Capacity, CapacityView};

pub mod range_store;

use range_store::{appended, entries_fit, held_points, read_from, EntryView, RangeStore};

verus! {

#[derive(Debug)]
pub enum Error {
    /// Not critical: the write position is not where the active range ends,
    /// a seek must be in progress.
    SeekInProgress,
    /// Could not get enough memory from the OS
    CouldNotAllocate(CouldNotAllocate),
}

/// Could not get enough memory from the OS
#[derive(Debug)]
pub struct CouldNotAllocate(pub TryReserveError);

/// What an unlimited memory store holds.
pub struct MemoryView {
    /// the range currently being added to
    pub active_start: u64,
    pub active_end: u64,
    pub entries: Seq<EntryView>,
    pub capacity: CapacityView,
    pub last_read_pos: u64,
}

pub struct Memory {
    /// just kept for migrations, not actually used
    capacity: Capacity,
    buffer: RangeStore,
    /// the range currently being added to
    active_range: Range<u64>,
    last_read_pos: u64,
}

impl View for Memory {
    type V = MemoryView;

    closed spec fn view(&self) -> MemoryView {
        MemoryView {
            active_start: self.active_range.start,
            active_end: self.active_range.end,
            entries: self.buffer@,
            capacity: self.capacity@,
            last_read_pos: self.last_read_pos,
        }
    }
}

impl Memory {
    pub closed spec fn wf(&self) -> bool {
        &&& self.buffer.wf()
        &&& self.active_range.start <= self.active_range.end
    }

    /// What a well-formed store promises of its view: its entries are in the
    /// shape that the read-back laws of `range_store` need, and the active
    /// range does not run backwards.
    pub proof fn lemma_wf_view(&self)
        requires
            self.wf(),
        ensures
            entries_fit(self@.entries),
            self@.active_start <= self@.active_end,
    {
    }

    pub fn new(capacity: Capacity) -> (m: Self)
        ensures
            m.wf(),
            m@ == (MemoryView {
                active_start: 0,
                active_end: 0,
                entries: seq![(0u64, Seq::<u8>::empty())],
                capacity: capacity@,
                last_read_pos: 0,
            }),
    {
        Self {
            last_read_pos: 0,
            capacity,
            buffer: RangeStore::new(),
            active_range: Range { start: 0, end: 0 },
        }
    }

    /// Writes all of `buf` at `pos`, which must be where the active range
    /// ends (else a seek is in progress). Returns how many bytes were
    /// written: all of them.
    pub fn write_at(&mut self, buf: &[u8], pos: u64) -> (r: Result<usize, Error>)
        requires
            old(self).wf(),
            buf@.len() > 0,
            pos + buf@.len() <= u64::MAX,
        ensures
            final(self).wf(),
            pos != old(self)@.active_end ==> (r matches Err(Error::SeekInProgress)) && final(self)@
                == old(self)@,
            pos == old(self)@.active_end && r is Ok ==> r == Ok::<usize, Error>(buf@.len() as usize)
                && final(self)@ == (MemoryView {
                active_end: (pos + buf@.len()) as u64,
                entries: appended(old(self)@.entries, pos, buf@),
                ..old(self)@
            }),
            pos == old(self)@.active_end && range_store::first_ending_at(
                old(self)@.entries,
                pos as int,
            ) is None ==> r is Ok,
            pos == old(self)@.active_end && r is Err ==> (r matches Err(Error::CouldNotAllocate(_)))
                && final(self)@ == old(self)@,
    {
        if pos != self.active_range.end {
            return Err(Error::SeekInProgress);
        }
        match self.buffer.append_at(pos, buf) {
            Err(e) => return Err(Error::CouldNotAllocate(CouldNotAllocate(e))),
            Ok(()) => {},
        }
        let written = buf.len();
        self.active_range.end = self.active_range.end + written as u64;
        Ok(written)
    }

    /// Copies into `buf` the bytes from `pos` on, as far as the buffer that
    /// holds `pos` goes; `pos` must not lie before the active range.
    pub fn read_at(&mut self, buf: &mut [u8], pos: u64) -> (n: usize)
        requires
            old(self).wf(),
            pos >= old(self)@.active_start,
        ensures
            final(self).wf(),
            n == read_from(old(self)@.entries, pos as int, old(buf)@.len() as int).len(),
            crate::vecdeque::copied_into(
                old(buf)@,
                final(buf)@,
                read_from(old(self)@.entries, pos as int, old(buf)@.len() as int),
            ),
            final(self)@ == (MemoryView { last_read_pos: pos, ..old(self)@ }),
    {
        let n_copied = self.buffer.copy_at(pos, buf);
        self.last_read_pos = pos;
        n_copied
    }

    pub fn ranges(&self) -> (s: RangeSet<u64>)
        requires
            self.wf(),
        ensures
            range_set_points(s) == held_points(self@.entries),
    {
        self.buffer.ranges()
    }

    /// Whether the store holds every position of `pos..last_seek`.
    pub fn gapless_from_till(&self, pos: u64, last_seek: u64) -> (r: bool)
        requires
            self.wf(),
        ensures
            r == covers(held_points(self@.entries), pos as int, last_seek as int),
    {
        let ranges = self.buffer.ranges();
        covers_range(&ranges, pos, last_seek)
    }

    pub fn set_capacity(&mut self, capacity: Capacity)
        requires
            old(self).wf(),
        ensures
            final(self).wf(),
            final(self)@ == (MemoryView { capacity: capacity@, ..old(self)@ }),
    {
        self.capacity = capacity;
    }

    /// The bound of the capacity.
    pub fn capacity_bounds(&self) -> (b: Bounds)
        ensures
            b == self@.capacity.max,
    {
        self.capacity.total()
    }

    /// The range currently being added to.
    pub fn active_range(&self) -> (r: Range<u64>)
        ensures
            r.start == self@.active_start,
            r.end == self@.active_end,
    {
        Range { start: self.active_range.start, end: self.active_range.end }
    }

    pub fn last_read_pos(&self) -> (p: u64)
        ensures
            p == self@.last_read_pos,
    {
        self.last_read_pos
    }

    pub fn n_supported_ranges(&self) -> (n: usize)
        ensures
            n == usize::MAX,
    {
        usize::MAX
    }

    /// The capacity, handed on to the next store.
    pub fn into_parts(self) -> (c: Capacity)
        ensures
            c@ == self@.capacity,
    {
        self.capacity
    }

    /// Starts a new active range at `to_pos`, which lies outside the current
    /// one; what was stored stays.
    pub fn writer_jump(&mut self, to_pos: u64)
        requires
            old(self).wf(),
            !(old(self)@.active_start <= to_pos < old(self)@.active_end),
        ensures
            final(self).wf(),
            final(self)@ == (MemoryView {
                active_start: to_pos,
                active_end: to_pos,
                entries: old(self)@.entries,
                capacity: CapacityView {
                    max: old(self)@.capacity.max,
                    free: full_of(old(self)@.capacity.max),
                    can_write: true,
                },
                last_read_pos: to_pos,
            }),
    {
        self.capacity.reset();
        self.active_range = Range { start: to_pos, end: to_pos };
        self.last_read_pos = to_pos;
    }
}

} // verus!
