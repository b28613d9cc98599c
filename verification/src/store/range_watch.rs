//! What a reader waiting for data knows of the downloaded ranges: the
//! ranges the writer announced so far.
use std::ops::Range;

use rangemap::RangeSet;
use vstd::prelude::*;

use crate::range_set::{points_of, range_set_contains, range_set_insert, range_set_new, range_set_points};

verus! {

/// The ranges announced to a waiting reader.
pub struct RangeWatch {
    ranges: RangeSet<u64>,
}

impl RangeWatch {
    /// The positions announced so far.
    pub closed spec fn announced(&self) -> Set<u64> {
        range_set_points(self.ranges)
    }

    /// Nothing announced yet.
    pub fn new() -> (w: Self)
        ensures
            w.announced() == Set::<u64>::empty(),
    {
        RangeWatch { ranges: range_set_new() }
    }

    /// Whether a read at `pos` can go ahead: at least the byte at `pos` is
    /// there.
    pub fn available(&self, pos: u64) -> (r: bool)
        ensures
            r == self.announced().contains(pos),
    {
        range_set_contains(&self.ranges, pos)
    }

    /// The writer announced `range`; an empty range announces nothing.
    pub fn received(&mut self, range: Range<u64>)
        ensures
            final(self).announced() == old(self).announced().union(
                points_of(range.start as int, range.end as int),
            ),
            forall|p: u64| old(self).announced().contains(p) ==> final(self).announced().contains(p),
    {
        if range.start < range.end {
            range_set_insert(&mut self.ranges, range);
        } else {
            assert(points_of(range.start as int, range.end as int) =~= Set::<u64>::empty());
            assert(self.announced().union(Set::<u64>::empty()) =~= self.announced());
        }
    }
}

} // verus!
