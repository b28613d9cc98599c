//! The reader's position in the stream: seeks and reads.
pub mod prefetch;

use std::io;

use vstd::prelude::*;

use prefetch::{Prefetch, PrefetchView};
use crate::vecdeque::{copied_from, copied_into};

verus! {

/// The runtime a reader blocks on could not be created.
#[derive(Debug)]
pub struct CouldNotCreateRuntime(pub io::Error);

/// Where to seek to, as `std::io::SeekFrom`.
#[derive(Debug, Clone, Copy)]
pub enum SeekFrom {
    Start(u64),
    End(i64),
    Current(i64),
}

/// The error a seek from the end gets when the stream's size is unknown
/// (`io::Error::new` of kind `Other`).
#[verifier::external_body]
pub(crate) fn size_unknown() -> io::Error {
    io::Error::new(io::ErrorKind::Other, "could not seek from end, as size is unknown")
}

/// The absolute position a seek goes to: from the start as given, from the
/// current position by adding the (signed) offset, from the end by
/// subtracting the offset, taken as unsigned, from the stream's size (down
/// to 0).
pub open spec fn seek_position_spec(rel: SeekFrom, curr_pos: u64, size: Option<u64>) -> Option<u64> {
    match rel {
        SeekFrom::Start(bytes) => Some(bytes),
        SeekFrom::Current(bytes) => Some((curr_pos + bytes) as u64),
        SeekFrom::End(bytes) => match size {
            None => None,
            Some(size) => Some(if size >= (bytes as u64) { (size - (bytes as u64)) as u64 } else { 0 }),
        },
    }
}

/// The absolute position of a seek; an error for a seek from the end while
/// the size is unknown.
pub fn seek_position(rel: SeekFrom, curr_pos: u64, size: Option<u64>) -> (r: Result<u64, io::Error>)
    requires
        rel matches SeekFrom::Current(bytes) ==> 0 <= curr_pos + bytes <= u64::MAX,
    ensures
        match seek_position_spec(rel, curr_pos, size) {
            Some(pos) => r matches Ok(p) && p == pos,
            None => r is Err,
        },
{
    match rel {
        SeekFrom::Start(bytes) => Ok(bytes),
        SeekFrom::Current(bytes) => {
            let target: i128 = curr_pos as i128 + bytes as i128;
            Ok(target as u64)
        },
        SeekFrom::End(bytes) => match size {
            Some(size) => Ok(size.saturating_sub(bytes as u64)),
            None => Err(size_unknown()),
        },
    }
}

/// What the reader keeps between calls.
pub struct ReaderStateView {
    pub prefetch: PrefetchView,
    pub last_seek: u64,
    pub curr_pos: u64,
}

#[derive(Debug)]
pub struct ReaderState {
    prefetch: Prefetch,
    last_seek: u64,
    curr_pos: u64,
}

impl View for ReaderState {
    type V = ReaderStateView;

    closed spec fn view(&self) -> ReaderStateView {
        ReaderStateView { prefetch: self.prefetch@, last_seek: self.last_seek, curr_pos: self.curr_pos }
    }
}

impl ReaderState {
    pub closed spec fn wf(&self) -> bool {
        self.prefetch.wf()
    }

    /// At the start of the stream, prefetching `prefetch` bytes.
    pub fn new(prefetch: usize) -> (s: Self)
        ensures
            s.wf(),
            s@.last_seek == 0,
            s@.curr_pos == 0,
            s@.prefetch == (PrefetchView { buf: Seq::new(prefetch as nat, |i: int| 0u8), start: 0, end: 0, active: true }),
    {
        Self { prefetch: Prefetch::new(prefetch), last_seek: 0, curr_pos: 0 }
    }

    pub fn curr_pos(&self) -> (p: u64)
        ensures
            p == self@.curr_pos,
    {
        self.curr_pos
    }

    pub fn last_seek(&self) -> (p: u64)
        ensures
            p == self@.last_seek,
    {
        self.last_seek
    }

    /// Moves to `pos`. When the store does not hold everything from the last
    /// seek up to `pos` (`gapless` is false) the stream was sent there too: it
    /// becomes the last seek and the prefetch starts over.
    pub fn apply_seek(&mut self, pos: u64, gapless: bool)
        requires
            old(self).wf(),
        ensures
            final(self).wf(),
            final(self)@.curr_pos == pos,
            gapless ==> final(self)@.last_seek == old(self)@.last_seek && final(self)@.prefetch == old(self)@.prefetch,
            !gapless ==> final(self)@.last_seek == pos && final(self)@.prefetch == (PrefetchView {
                buf: Seq::empty(),
                start: 0,
                end: 0,
                active: true,
            }),
    {
        if !gapless {
            self.last_seek = pos;
            self.prefetch.reset();
        }
        self.curr_pos = pos;
    }

    /// Serves what it can of a read from the prefetched bytes and moves past
    /// them.
    pub fn read_prefetched(&mut self, buf: &mut [u8]) -> (n: usize)
        requires
            old(self).wf(),
            old(self)@.curr_pos + old(buf)@.len() <= u64::MAX,
        ensures
            final(self).wf(),
            final(self)@.prefetch == old(self)@.prefetch,
            final(self)@.last_seek == old(self)@.last_seek,
            final(self)@.curr_pos == old(self)@.curr_pos + n,
            !(old(self)@.prefetch.start <= old(self)@.curr_pos < old(self)@.prefetch.end) ==> n == 0
                && final(buf)@ == old(buf)@,
            old(self)@.prefetch.start <= old(self)@.curr_pos < old(self)@.prefetch.end ==> {
                let copied = copied_from(
                    old(self)@.prefetch.buf,
                    old(self)@.curr_pos - old(self)@.prefetch.start,
                    old(buf)@.len() as int,
                );
                n == copied.len() && copied_into(old(buf)@, final(buf)@, copied)
            },
    {
        let n = self.prefetch.read_from_prefetched(buf, self.curr_pos);
        self.curr_pos = self.curr_pos + n as u64;
        n
    }

    /// After a read that returned `already_read` bytes: the number of bytes
    /// to prefetch at the current position, when prefetching is due. It is
    /// due once after each seek, when the read returned less than the
    /// prefetch amount; it reaches no further than the end of the stream when
    /// its size is known.
    pub fn start_prefetch(&mut self, already_read: usize, stream_size: Option<u64>) -> (r: Option<usize>)
        requires
            old(self).wf(),
            stream_size matches Some(size) ==> old(self)@.curr_pos <= size,
        ensures
            final(self).wf(),
            final(self)@.curr_pos == old(self)@.curr_pos,
            final(self)@.last_seek == old(self)@.last_seek,
            !(old(self)@.prefetch.active && already_read < old(self)@.prefetch.buf.len()) ==> r is None
                && final(self)@ == old(self)@,
            old(self)@.prefetch.active && already_read < old(self)@.prefetch.buf.len() ==> {
                &&& final(self)@.prefetch == (PrefetchView { active: false, ..old(self)@.prefetch })
                &&& r == Some(match stream_size {
                    None => (old(self)@.prefetch.buf.len() - already_read) as usize,
                    Some(size) => {
                        let rest = old(self)@.prefetch.buf.len() - already_read;
                        let left = ((size - old(self)@.curr_pos) as u64) as usize;
                        (if rest < left { rest } else { left as int }) as usize
                    },
                })
            },
    {
        if !self.prefetch.should_run(already_read) {
            return None;
        }
        let n = self.prefetch.bytes_to_prefetch(already_read, self.curr_pos, stream_size);
        self.prefetch.deactivate();
        Some(n)
    }

    /// The prefetch read `data` at the current position.
    pub fn finish_prefetch(&mut self, data: &[u8])
        requires
            old(self).wf(),
            data@.len() <= old(self)@.prefetch.buf.len(),
            old(self)@.curr_pos + data@.len() <= u64::MAX,
        ensures
            final(self).wf(),
            final(self)@.curr_pos == old(self)@.curr_pos,
            final(self)@.last_seek == old(self)@.last_seek,
            final(self)@.prefetch == (PrefetchView {
                buf: data@ + old(self)@.prefetch.buf.skip(data@.len() as int),
                start: old(self)@.curr_pos,
                end: (old(self)@.curr_pos + data@.len()) as u64,
                active: old(self)@.prefetch.active,
            }),
    {
        self.prefetch.store_prefetched(self.curr_pos, data);
    }

    /// How many bytes a prefetch holds at most.
    pub fn prefetch_amount(&self) -> (n: usize)
        ensures
            n == self@.prefetch.buf.len(),
    {
        self.prefetch.amount()
    }

    /// Moves past `n` bytes read from the store.
    pub fn advance(&mut self, n: usize)
        requires
            old(self)@.curr_pos + n <= u64::MAX,
        ensures
            final(self)@ == (ReaderStateView { curr_pos: (old(self)@.curr_pos + n) as u64, ..old(self)@ }),
    {
        self.curr_pos = self.curr_pos + n as u64;
    }
}

} // verus!
