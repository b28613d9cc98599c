//! Download progress of a disk store: which sections of the stream are on
//! disk. It is kept in a file beside the data as a list of records, each the
//! start and the end of a downloaded section as little endian `u64`s, 16
//! bytes in all. A record cut short by a crash is ignored when the file is
//! read back.
use std::ops::Range;

use rangemap::RangeSet;
use vstd::bytes::{spec_u64_from_le_bytes, spec_u64_to_le_bytes, u64_from_le_bytes, u64_to_le_bytes};
use vstd::prelude::*;
use vstd::slice::slice_subrange;

use crate::range_set::{covers, points_of, range_set_get, range_set_insert, range_set_new, range_set_points};

verus! {

/// Length of one record in the progress file.
pub const SECTION_LEN: usize = 16;

/// How long written progress may stay unflushed, in nanoseconds.
pub const FLUSH_INTERVAL_NANOS: u128 = 500_000_000;

/// Whether the progress should be flushed to disk now.
#[derive(Debug, Clone, Copy, PartialEq, Eq, Structural)]
pub enum FlushNeeded {
    Yes,
    No,
}

/// The record of the section `start..end`.
pub open spec fn record_spec(start: u64, end: u64) -> Seq<u8> {
    spec_u64_to_le_bytes(start) + spec_u64_to_le_bytes(end)
}

/// The file holding the records of `sections`, in order.
pub open spec fn encoded_sections(sections: Seq<(u64, u64)>) -> Seq<u8>
    decreases sections.len(),
{
    if sections.len() == 0 {
        Seq::empty()
    } else {
        encoded_sections(sections.drop_last()) + record_spec(
            sections.last().0,
            sections.last().1,
        )
    }
}

/// The section held by the `i`-th record of `buf`.
pub open spec fn decoded_section(buf: Seq<u8>, i: int) -> (u64, u64) {
    (
        spec_u64_from_le_bytes(buf.subrange(16 * i, 16 * i + 8)),
        spec_u64_from_le_bytes(buf.subrange(16 * i + 8, 16 * i + 16)),
    )
}

/// The sections of all complete records of `buf`; trailing bytes that do
/// not make a whole record are ignored.
pub open spec fn decoded_sections(buf: Seq<u8>) -> Seq<(u64, u64)> {
    Seq::new((buf.len() / 16) as nat, |i: int| decoded_section(buf, i))
}

/// The positions covered by `sections`.
pub open spec fn sections_points(sections: Seq<(u64, u64)>) -> Set<u64> {
    Set::new(
        |p: u64|
            exists|i: int|
                0 <= i < sections.len() && #[trigger] sections[i].0 <= p && p < sections[i].1,
    )
}

/// The file name of the progress file of the data file `path`.
pub open spec fn progress_path_spec(path: Seq<u8>) -> Seq<u8> {
    path + seq![46u8, 112u8, 114u8, 111u8, 103u8, 114u8, 101u8, 115u8, 115u8]
}

proof fn lemma_encoded_len(sections: Seq<(u64, u64)>)
    ensures
        encoded_sections(sections).len() == 16 * sections.len(),
    decreases sections.len(),
{
    vstd::bytes::lemma_auto_spec_u64_to_from_le_bytes();
    if sections.len() > 0 {
        lemma_encoded_len(sections.drop_last());
    }
}

/// Reading back a progress file gives every section recorded in it, in the
/// order they were recorded, also when the last record was cut short.
pub proof fn lemma_sections_roundtrip(sections: Seq<(u64, u64)>, tail: Seq<u8>)
    requires
        tail.len() < 16,
    ensures
        decoded_sections(encoded_sections(sections) + tail) == sections,
    decreases sections.len(),
{
    vstd::bytes::lemma_auto_spec_u64_to_from_le_bytes();
    lemma_encoded_len(sections);
    let buf = encoded_sections(sections) + tail;
    if sections.len() > 0 {
        let prefix = sections.drop_last();
        let last = sections.last();
        let rec = record_spec(last.0, last.1);
        lemma_encoded_len(prefix);
        lemma_sections_roundtrip(prefix, Seq::empty());
        let pbuf = encoded_sections(prefix);
        assert(pbuf + Seq::<u8>::empty() == pbuf);
        let n = prefix.len() as int;
        assert(buf == pbuf + rec + tail);
        assert forall|i: int| 0 <= i < sections.len() implies decoded_section(buf, i)
            == sections[i] by {
            if i < n {
                assert(buf.subrange(16 * i, 16 * i + 8) == pbuf.subrange(16 * i, 16 * i + 8));
                assert(buf.subrange(16 * i + 8, 16 * i + 16) == pbuf.subrange(
                    16 * i + 8,
                    16 * i + 16,
                ));
                assert(decoded_sections(pbuf)[i] == decoded_section(pbuf, i));
            } else {
                assert(buf.subrange(16 * i, 16 * i + 8) == spec_u64_to_le_bytes(last.0));
                assert(buf.subrange(16 * i + 8, 16 * i + 16) == spec_u64_to_le_bytes(last.1));
            }
        }
    }
    assert(decoded_sections(buf) =~= sections);
}

/// Appending a record to a progress file adds exactly its section to what is
/// read back from it.
pub proof fn lemma_append_record(buf: Seq<u8>, start: u64, end: u64)
    requires
        buf.len() % 16 == 0,
    ensures
        decoded_sections(buf + record_spec(start, end)) == decoded_sections(buf).push(
            (start, end),
        ),
{
    vstd::bytes::lemma_auto_spec_u64_to_from_le_bytes();
    let n = buf.len() / 16;
    let nb = buf + record_spec(start, end);
    assert(nb.len() / 16 == n + 1);
    assert forall|i: int| 0 <= i < n + 1 implies decoded_section(nb, i) == decoded_sections(
        buf,
    ).push((start, end))[i] by {
        if i < n {
            assert(nb.subrange(16 * i, 16 * i + 8) == buf.subrange(16 * i, 16 * i + 8));
            assert(nb.subrange(16 * i + 8, 16 * i + 16) == buf.subrange(16 * i + 8, 16 * i + 16));
        } else {
            assert(nb.subrange(16 * i, 16 * i + 8) == spec_u64_to_le_bytes(start));
            assert(nb.subrange(16 * i + 8, 16 * i + 16) == spec_u64_to_le_bytes(end));
        }
    }
    assert(decoded_sections(nb) =~= decoded_sections(buf).push((start, end)));
}

/// The record of the section `start..end`.
pub fn section_bytes(start: u64, end: u64) -> (b: Vec<u8>)
    ensures
        b@ == record_spec(start, end),
        b@.len() == SECTION_LEN,
{
    let mut b = u64_to_le_bytes(start);
    let mut e = u64_to_le_bytes(end);
    b.append(&mut e);
    b
}

/// The file name of the progress file of the data file `path`: the name
/// with `.progress` appended.
pub fn progress_path(path: &[u8]) -> (p: Vec<u8>)
    ensures
        p@ == progress_path_spec(path@),
{
    let mut p = vstd::slice::slice_to_vec(path);
    let suffix: Vec<u8> = vec![46u8, 112u8, 114u8, 111u8, 103u8, 114u8, 101u8, 115u8, 115u8];
    let mut i: usize = 0;
    while i < suffix.len()
        invariant
            i <= suffix.len(),
            suffix@ == seq![46u8, 112u8, 114u8, 111u8, 103u8, 114u8, 101u8, 115u8, 115u8],
            p@ == path@ + suffix@.subrange(0, i as int),
        decreases suffix.len() - i,
    {
        p.push(suffix[i]);
        i += 1;
    }
    assert(suffix@.subrange(0, suffix@.len() as int) == suffix@);
    p
}

/// The sections listed in a progress file, as a set of ranges; empty
/// sections and a trailing partial record add nothing.
pub fn ranges_from_file_bytes(buf: &[u8]) -> (s: RangeSet<u64>)
    ensures
        range_set_points(s) == sections_points(decoded_sections(buf@)),
{
    let ghost secs = decoded_sections(buf@);
    let len = buf.len();
    let n = len / SECTION_LEN;
    let mut s = range_set_new();
    let mut i: usize = 0;
    while i < n
        invariant
            len == buf@.len(),
            n == buf@.len() / 16,
            i <= n,
            secs == decoded_sections(buf@),
            forall|p: u64|
                range_set_points(s).contains(p) <==> exists|k: int|
                    0 <= k < i && #[trigger] secs[k].0 <= p && p < secs[k].1,
        decreases n - i,
    {
        assert(i * 16 + 16 <= buf@.len()) by (nonlinear_arith)
            requires
                i < n,
                n == buf@.len() / 16,
        ;
        let at = i * SECTION_LEN;
        let start = u64_from_le_bytes(slice_subrange(buf, at, at + 8));
        let end = u64_from_le_bytes(slice_subrange(buf, at + 8, at + 16));
        assert(secs[i as int] == (start, end));
        let ghost before = range_set_points(s);
        if start < end {
            range_set_insert(&mut s, Range { start, end });
        }
        assert forall|p: u64|
            range_set_points(s).contains(p) <==> exists|k: int|
                0 <= k < i + 1 && #[trigger] secs[k].0 <= p && p < secs[k].1 by {
            if range_set_points(s).contains(p) && !before.contains(p) {
                assert(secs[i as int].0 <= p && p < secs[i as int].1);
            }
            if exists|k: int| 0 <= k < i + 1 && #[trigger] secs[k].0 <= p && p < secs[k].1 {
                let k = choose|k: int| 0 <= k < i + 1 && #[trigger] secs[k].0 <= p && p < secs[k].1;
                if k < i {
                    assert(before.contains(p));
                }
            }
        }
        i += 1;
    }
    assert(range_set_points(s) =~= sections_points(secs));
    s
}

/// What the progress of a disk store knows: the sections that are on disk
/// and where the next record starts.
pub struct Progress {
    next_record_start: u64,
    ranges: RangeSet<u64>,
}

impl Progress {
    /// The positions known to be on disk.
    pub closed spec fn points(&self) -> Set<u64> {
        range_set_points(self.ranges)
    }

    /// Where the next record starts.
    pub closed spec fn record_start(&self) -> u64 {
        self.next_record_start
    }

    /// Progress as read back from the progress file `buf`, with the next
    /// record starting at `start_pos`.
    pub fn new(buf: &[u8], start_pos: u64) -> (p: Self)
        ensures
            p.points() == sections_points(decoded_sections(buf@)),
            p.record_start() == start_pos,
    {
        Progress { next_record_start: start_pos, ranges: ranges_from_file_bytes(buf) }
    }

    /// The sections known to be on disk.
    pub fn ranges(&self) -> (r: &RangeSet<u64>)
        ensures
            range_set_points(*r) == self.points(),
    {
        &self.ranges
    }

    /// Where the next record starts.
    pub fn next_record_start(&self) -> (p: u64)
        ensures
            p == self.record_start(),
    {
        self.next_record_start
    }

    /// The writer reached `writer_pos`: the section from the record start to
    /// there is now downloaded. Returns that section, unless it is empty, and
    /// whether a flush is due: it is when the last flush lies more than half
    /// a second back.
    pub fn update(&mut self, writer_pos: u64, since_flush_nanos: u128) -> (r: (
        Option<Range<u64>>,
        FlushNeeded,
    ))
        ensures
            final(self).record_start() == old(self).record_start(),
            writer_pos <= old(self).record_start() ==> {
                &&& r.0 is None
                &&& r.1 == FlushNeeded::No
                &&& final(self).points() == old(self).points()
            },
            old(self).record_start() < writer_pos ==> {
                &&& r.0 == Some(Range { start: old(self).record_start(), end: writer_pos })
                &&& r.1 == (if since_flush_nanos > FLUSH_INTERVAL_NANOS {
                    FlushNeeded::Yes
                } else {
                    FlushNeeded::No
                })
                &&& final(self).points() == old(self).points().union(
                    points_of(old(self).record_start() as int, writer_pos as int),
                )
            },
    {
        if writer_pos <= self.next_record_start {
            return (None, FlushNeeded::No);
        }
        let new_range = Range { start: self.next_record_start, end: writer_pos };
        range_set_insert(&mut self.ranges, Range { start: self.next_record_start, end: writer_pos });
        let flush = if since_flush_nanos > FLUSH_INTERVAL_NANOS {
            FlushNeeded::Yes
        } else {
            FlushNeeded::No
        };
        (Some(new_range), flush)
    }

    /// A section ends at `end` and the next one starts at `new_starts_at`:
    /// updates as `update` does, then moves the record start.
    pub fn end_section(&mut self, end: u64, new_starts_at: u64, since_flush_nanos: u128) -> (r: (
        Option<Range<u64>>,
        FlushNeeded,
    ))
        ensures
            final(self).record_start() == new_starts_at,
            end <= old(self).record_start() ==> {
                &&& r.0 is None
                &&& r.1 == FlushNeeded::No
                &&& final(self).points() == old(self).points()
            },
            old(self).record_start() < end ==> {
                &&& r.0 == Some(Range { start: old(self).record_start(), end })
                &&& r.1 == (if since_flush_nanos > FLUSH_INTERVAL_NANOS {
                    FlushNeeded::Yes
                } else {
                    FlushNeeded::No
                })
                &&& final(self).points() == old(self).points().union(
                    points_of(old(self).record_start() as int, end as int),
                )
            },
    {
        let res = self.update(end, since_flush_nanos);
        self.next_record_start = new_starts_at;
        res
    }

    /// The section a flush records: the whole run of downloaded positions
    /// holding the record start, or `None` when the record start is not
    /// downloaded.
    pub fn section_to_record(&self) -> (r: Option<Range<u64>>)
        ensures
            r is None <==> !self.points().contains(self.record_start()),
            r matches Some(g) ==> {
                &&& g.start <= self.record_start() < g.end
                &&& covers(self.points(), g.start as int, g.end as int)
                &&& (g.start == 0 || !self.points().contains((g.start - 1) as u64))
                &&& !self.points().contains(g.end)
            },
    {
        range_set_get(&self.ranges, self.next_record_start)
    }

    /// The record of `section` was written and flushed: the section counts as
    /// on disk and the next record starts at its end.
    pub fn section_recorded(&mut self, section: Range<u64>)
        requires
            section.start < section.end,
        ensures
            final(self).points() == old(self).points().union(
                points_of(section.start as int, section.end as int),
            ),
            final(self).record_start() == section.end,
    {
        let end = section.end;
        range_set_insert(&mut self.ranges, section);
        self.next_record_start = end;
    }
}

} // verus!
