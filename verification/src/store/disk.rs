//! Storage of a stream in a file, with its download progress kept beside it.
//! This holds the bookkeeping of the disk store: where its reader and
//! writer are in the file and which sections are downloaded.
pub mod progress;

use std::ops::Range;

use rangemap::RangeSet;
use vstd::prelude::*;

use crate::range_set::{covers, covers_range, points_of, range_set_points};
use crate::text::{rsplit_once, rsplit_once_spec};
use progress::{decoded_sections, sections_points, FlushNeeded, Progress, FLUSH_INTERVAL_NANOS};

verus! {

/// `progress`
pub open spec fn progress_ext() -> Seq<u8> {
    seq![112u8, 114u8, 111u8, 103u8, 114u8, 101u8, 115u8, 115u8]
}

/// The extension of a file name (`Path::extension`): what follows its last
/// `.`, unless that `.` starts the name.
pub open spec fn extension_spec(file_name: Seq<u8>) -> Option<Seq<u8>> {
    match rsplit_once_spec(file_name, 46u8) {
        Some((stem, ext)) => if stem.len() == 0 {
            None
        } else {
            Some(ext)
        },
        None => None,
    }
}

/// Whether the file name ends in the extension `.progress`, which the data
/// file may not have: it would clash with its own progress file.
pub fn is_progress_file(file_name: &[u8]) -> (r: bool)
    ensures
        r == (extension_spec(file_name@) == Some(progress_ext())),
{
    match rsplit_once(file_name, 46u8) {
        None => false,
        Some((stem, ext)) => {
            if stem.len() == 0 || ext.len() != 8 {
                return false;
            }
            let expected: Vec<u8> = vec![112u8, 114u8, 111u8, 103u8, 114u8, 101u8, 115u8, 115u8];
            let mut i: usize = 0;
            while i < 8
                invariant
                    i <= 8,
                    ext@.len() == 8,
                    extension_spec(file_name@) == Some(ext@),
                    expected@ == progress_ext(),
                    forall|k: int| 0 <= k < i ==> ext@[k] == expected@[k],
                decreases 8 - i,
            {
                if ext[i] != expected[i] {
                    assert(ext@[i as int] != progress_ext()[i as int]);
                    return false;
                }
                i += 1;
            }
            assert(ext@ =~= progress_ext());
            true
        },
    }
}

/// Where the disk store's reader and writer are in the data file, and its
/// download progress.
pub struct DiskState {
    writer_pos: u64,
    reader_pos: u64,
    progress: Progress,
}

impl DiskState {
    pub closed spec fn writer(&self) -> u64 {
        self.writer_pos
    }

    pub closed spec fn reader(&self) -> u64 {
        self.reader_pos
    }

    /// The positions known to be on disk.
    pub closed spec fn points(&self) -> Set<u64> {
        self.progress.points()
    }

    /// Where the progress's next record starts.
    pub closed spec fn record_start(&self) -> u64 {
        self.progress.record_start()
    }

    /// A store opened with the progress file `progress_file`; reader and
    /// writer are at the start of the data file.
    pub fn new(progress_file: &[u8]) -> (s: Self)
        ensures
            s.writer() == 0,
            s.reader() == 0,
            s.record_start() == 0,
            s.points() == sections_points(decoded_sections(progress_file@)),
    {
        DiskState { writer_pos: 0, reader_pos: 0, progress: Progress::new(progress_file, 0) }
    }

    pub fn writer_pos(&self) -> (p: u64)
        ensures
            p == self.writer(),
    {
        self.writer_pos
    }

    /// Where the reader is (`last_read_pos`).
    pub fn last_read_pos(&self) -> (p: u64)
        ensures
            p == self.reader(),
    {
        self.reader_pos
    }

    pub fn progress(&self) -> (p: &Progress)
        ensures
            p.points() == self.points(),
            p.record_start() == self.record_start(),
    {
        &self.progress
    }

    /// The progress, to record its pending section.
    pub fn progress_mut(&mut self) -> (p: &mut Progress)
        ensures
            p.points() == old(self).points(),
            p.record_start() == old(self).record_start(),
            final(self).writer() == old(self).writer(),
            final(self).reader() == old(self).reader(),
            final(self).points() == final(p).points(),
            final(self).record_start() == final(p).record_start(),
    {
        &mut self.progress
    }

    /// The downloaded sections.
    pub fn ranges(&self) -> (r: &RangeSet<u64>)
        ensures
            range_set_points(*r) == self.points(),
    {
        self.progress.ranges()
    }

    /// Whether everything from `pos` up to `last_seek` is on disk.
    pub fn gapless_from_till(&self, pos: u64, last_seek: u64) -> (r: bool)
        ensures
            r == covers(self.points(), pos as int, last_seek as int),
    {
        covers_range(self.progress.ranges(), pos, last_seek)
    }

    /// A file holds any number of sections.
    pub fn n_supported_ranges(&self) -> (n: usize)
        ensures
            n == usize::MAX,
    {
        usize::MAX
    }

    /// The writer moved to `to` (after the file was seeked there): the
    /// section written so far ends where the writer was and the next starts
    /// at `to`. Returns the ended section, unless empty, and whether a flush
    /// is due.
    pub fn writer_sought(&mut self, to: u64, since_flush_nanos: u128) -> (r: (
        Option<Range<u64>>,
        FlushNeeded,
    ))
        ensures
            final(self).writer() == to,
            final(self).reader() == old(self).reader(),
            final(self).record_start() == to,
            old(self).writer() <= old(self).record_start() ==> {
                &&& r.0 is None
                &&& r.1 == FlushNeeded::No
                &&& final(self).points() == old(self).points()
            },
            old(self).record_start() < old(self).writer() ==> {
                &&& r.0 == Some(Range { start: old(self).record_start(), end: old(self).writer() })
                &&& r.1 == (if since_flush_nanos > FLUSH_INTERVAL_NANOS {
                    FlushNeeded::Yes
                } else {
                    FlushNeeded::No
                })
                &&& final(self).points() == old(self).points().union(
                    points_of(old(self).record_start() as int, old(self).writer() as int),
                )
            },
    {
        let r = self.progress.end_section(self.writer_pos, to, since_flush_nanos);
        self.writer_pos = to;
        r
    }

    /// `n` bytes were written at the writer's position: the writer moves on
    /// and the section being written grows up to it.
    pub fn wrote(&mut self, n: usize, since_flush_nanos: u128) -> (r: (
        Option<Range<u64>>,
        FlushNeeded,
    ))
        requires
            old(self).writer() + n <= u64::MAX,
        ensures
            final(self).writer() == old(self).writer() + n,
            final(self).reader() == old(self).reader(),
            final(self).record_start() == old(self).record_start(),
            final(self).writer() <= old(self).record_start() ==> {
                &&& r.0 is None
                &&& r.1 == FlushNeeded::No
                &&& final(self).points() == old(self).points()
            },
            old(self).record_start() < final(self).writer() ==> {
                &&& r.0 == Some(Range { start: old(self).record_start(), end: final(self).writer() })
                &&& r.1 == (if since_flush_nanos > FLUSH_INTERVAL_NANOS {
                    FlushNeeded::Yes
                } else {
                    FlushNeeded::No
                })
                &&& final(self).points() == old(self).points().union(
                    points_of(old(self).record_start() as int, final(self).writer() as int),
                )
            },
    {
        self.writer_pos = self.writer_pos + n as u64;
        self.progress.update(self.writer_pos, since_flush_nanos)
    }

    /// The reader moved to `pos` (after the file was seeked there).
    pub fn reader_sought(&mut self, pos: u64)
        ensures
            final(self).reader() == pos,
            final(self).writer() == old(self).writer(),
            final(self).points() == old(self).points(),
            final(self).record_start() == old(self).record_start(),
    {
        self.reader_pos = pos;
    }
}

} // verus!
