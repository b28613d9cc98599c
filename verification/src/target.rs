//! Where the stream writes next, and which part of the stream to request
//! next.
use std::ops::Range;

use rangemap::RangeSet;
use vstd::prelude::*;

use crate::range_set::{covers, is_first_gap, range_set_first_gap, range_set_points};

verus! {

/// `g` cut down to at most `chunk_size` bytes.
pub open spec fn limit_to_chunk(g: Range<u64>, chunk_size: u64) -> Range<u64> {
    let len = g.end - g.start;
    let len = if len < chunk_size { len } else { chunk_size as int };
    Range { start: g.start, end: (g.start + len) as u64 }
}

#[derive(Debug)]
pub struct StreamTarget {
    /// on seek this pos is updated, in between seeks it increments with the
    /// number of bytes written
    pos: u64,
    chunk_size: u64,
}

impl View for StreamTarget {
    type V = (u64, u64);

    closed spec fn view(&self) -> (u64, u64) {
        (self.pos, self.chunk_size)
    }
}

impl StreamTarget {
    pub fn new(start_pos: u64, chunk_size: usize) -> (t: Self)
        ensures
            t@ == (start_pos, chunk_size as u64),
    {
        Self { pos: start_pos, chunk_size: chunk_size as u64 }
    }

    /// How many bytes a request asks for at most.
    pub fn chunk_size(&self) -> (c: u64)
        ensures
            c == self@.1,
    {
        self.chunk_size
    }

    pub fn pos(&self) -> (p: u64)
        ensures
            p == self@.0,
    {
        self.pos
    }

    pub fn set_pos(&mut self, pos: u64)
        ensures
            final(self)@ == (pos, old(self)@.1),
    {
        self.pos = pos;
    }

    /// After `bytes` were written the next write goes right after them
    /// (the position wraps as the shared atomic counter does).
    pub fn advance(&mut self, bytes: u64)
        ensures
            final(self)@ == (old(self)@.0.wrapping_add(bytes), old(self)@.1),
    {
        self.pos = self.pos.wrapping_add(bytes);
    }

    fn limit_to_chunk_size(&self, g: Range<u64>) -> (r: Range<u64>)
        requires
            g.start <= g.end,
        ensures
            r == limit_to_chunk(g, self@.1),
    {
        let len: u64 = g.end - g.start;
        let len = if len < self.chunk_size { len } else { self.chunk_size };
        Range { start: g.start, end: g.start + len }
    }

    /// The range to request next. When the stream's size is unknown: the
    /// chunk at the current position. Otherwise the first part missing from
    /// `ranges` after the current position, else the first missing part
    /// from the start, cut to the chunk size; `None` when nothing is missing.
    pub fn next_range(&self, stream_size: Option<u64>, ranges: &RangeSet<u64>) -> (r: Option<Range<u64>>)
        requires
            stream_size matches Some(end) ==> end >= self@.0,
            stream_size is None ==> self@.0 + self@.1 <= u64::MAX,
        ensures
            stream_size is None ==> r == Some(Range { start: self@.0, end: (self@.0 + self@.1) as u64 }),
            stream_size matches Some(end) ==> {
                let s = range_set_points(*ranges);
                &&& r is None <==> covers(s, 0, end as int)
                &&& !covers(s, self@.0 as int, end as int) ==> exists|g: Range<u64>|
                    is_first_gap(s, self@.0 as int, end as int, g) && r == Some(limit_to_chunk(g, self@.1))
                &&& covers(s, self@.0 as int, end as int) && !covers(s, 0, end as int) ==> exists|g: Range<u64>|
                    is_first_gap(s, 0, end as int, g) && r == Some(limit_to_chunk(g, self@.1))
            },
    {
        let stream_end = match stream_size {
            None => {
                let start = self.pos;
                let end = self.pos + self.chunk_size;
                return Some(Range { start, end });
            },
            Some(end) => end,
        };
        let beyond = Range { start: self.pos, end: stream_end };
        if let Some(g) = range_set_first_gap(ranges, &beyond) {
            let r = self.limit_to_chunk_size(g);
            proof {
                let s = range_set_points(*ranges);
                assert(!covers(s, 0, stream_end as int)) by {
                    assert(!s.contains(g.start));
                }
            }
            return Some(r);
        }
        let from_start = Range { start: 0, end: stream_end };
        match range_set_first_gap(ranges, &from_start) {
            Some(g) => Some(self.limit_to_chunk_size(g)),
            None => {
                proof {
                    let s = range_set_points(*ranges);
                    assert(covers(s, self.pos as int, stream_end as int));
                }
                None
            },
        }
    }
}

} // verus!
