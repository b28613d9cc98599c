//! Planning of a migration from one store to another: which ranges still
//! have to be copied.
pub mod range_list;

use std::ops::Range;

use rangemap::RangeSet;
use vstd::prelude::*;

use crate::range_set::{
    avoids, covers, in_some_range, points_of, points_of_ranges, range_set_first_gap,
    range_set_insert, range_set_new, range_set_points, range_set_ranges, separated_ranges,
};

verus! {

/// The positions in `b` that are not in `a`.
pub open spec fn missing_points(a: Set<u64>, b: Set<u64>) -> Set<u64> {
    b.difference(a)
}

/// `g` is the leftmost maximal run of positions of `d`.
pub open spec fn is_leftmost_run(d: Set<u64>, g: Range<u64>) -> bool {
    &&& g.start < g.end
    &&& covers(d, g.start as int, g.end as int)
    &&& !d.contains(g.end)
    &&& avoids(d, 0, g.start as int)
}

/// Returns a range that exists in `b` but not in `a`: the leftmost maximal
/// run of positions that `b` covers and `a` does not, or `None` when `a`
/// already covers all of `b`.
pub fn missing(a: &RangeSet<u64>, b: &RangeSet<u64>) -> (r: Option<Range<u64>>)
    ensures
        r is None <==> range_set_points(*b).subset_of(range_set_points(*a)),
        r matches Some(g) ==> is_leftmost_run(
            missing_points(range_set_points(*a), range_set_points(*b)),
            g,
        ),
{
    let in_b = range_set_ranges(b);
    let ghost pa = range_set_points(*a);
    let ghost pb = range_set_points(*b);
    let ghost d = missing_points(pa, pb);
    let mut i: usize = 0;
    while i < in_b.len()
        invariant
            i <= in_b.len(),
            pa == range_set_points(*a),
            pb == range_set_points(*b),
            d == missing_points(pa, pb),
            separated_ranges(in_b@),
            points_of_ranges(in_b@) == pb,
            forall|k: int| 0 <= k < i ==> covers(pa, #[trigger] in_b@[k].start as int, in_b@[k].end as int),
        decreases in_b.len() - i,
    {
        let range = Range { start: in_b[i].start, end: in_b[i].end };
        let gap = range_set_first_gap(a, &range);
        if let Some(g) = gap {
            proof {
                let ii = i as int;
                assert forall|p: u64| g.start <= p < g.end implies #[trigger] d.contains(p) by {
                    assert(in_b@[ii].start <= p && p < in_b@[ii].end);
                    assert(in_some_range(in_b@, p));
                    assert(pb.contains(p));
                    assert(!pa.contains(p));
                }
                assert(!d.contains(g.end)) by {
                    if g.end == range.end {
                        if pb.contains(g.end) {
                            assert(points_of_ranges(in_b@).contains(g.end));
                            let k = choose|k: int|
                                0 <= k < in_b@.len() && #[trigger] in_b@[k].start <= g.end
                                    && g.end < in_b@[k].end;
                            if k < ii {
                                assert(in_b@[k].end < in_b@[ii].start);
                            } else if k > ii {
                                assert(in_b@[ii].end < in_b@[k].start);
                            }
                        }
                    }
                }
                assert forall|p: u64| 0 <= p < g.start implies !#[trigger] d.contains(p) by {
                    if pb.contains(p) {
                        assert(points_of_ranges(in_b@).contains(p));
                        let k = choose|k: int|
                            0 <= k < in_b@.len() && #[trigger] in_b@[k].start <= p && p
                                < in_b@[k].end;
                        if k < ii {
                            assert(covers(pa, in_b@[k].start as int, in_b@[k].end as int));
                        } else if k > ii {
                            assert(in_b@[ii].end < in_b@[k].start);
                        }
                    }
                }
                assert(d.contains(g.start));
            }
            return Some(g);
        }
        i += 1;
    }
    proof {
        assert forall|p: u64| pb.contains(p) implies pa.contains(p) by {
            assert(points_of_ranges(in_b@).contains(p));
            let k = choose|k: int|
                0 <= k < in_b@.len() && #[trigger] in_b@[k].start <= p && p < in_b@[k].end;
            assert(covers(pa, in_b@[k].start as int, in_b@[k].end as int));
        }
    }
    None
}

/// The most a migration copies in one step.
pub const COPY_CHUNK: u64 = 4096;

/// What a migration already copied to the new store.
pub struct CopyProgress {
    on_target: RangeSet<u64>,
}

impl CopyProgress {
    /// The positions counted as copied.
    pub closed spec fn copied_points(&self) -> Set<u64> {
        range_set_points(self.on_target)
    }

    /// Nothing copied yet.
    pub fn new() -> (c: Self)
        ensures
            c.copied_points() == Set::<u64>::empty(),
    {
        CopyProgress { on_target: range_set_new() }
    }

    /// The next part of `needed` to copy: the leftmost run of positions
    /// not copied yet, with the number of bytes to copy from its start, at
    /// most `COPY_CHUNK`; `None` once everything needed is copied.
    pub fn next_chunk(&self, needed: &RangeSet<u64>) -> (r: Option<(Range<u64>, u64)>)
        ensures
            r is None <==> range_set_points(*needed).subset_of(self.copied_points()),
            r matches Some((run, n)) ==> {
                &&& is_leftmost_run(missing_points(self.copied_points(), range_set_points(*needed)), run)
                &&& n == if run.end - run.start < COPY_CHUNK { (run.end - run.start) as u64 } else { COPY_CHUNK }
            },
    {
        match missing(&self.on_target, needed) {
            None => None,
            Some(run) => {
                let len = run.end - run.start;
                let n = if len < COPY_CHUNK { len } else { COPY_CHUNK };
                Some((run, n))
            },
        }
    }

    /// `n` bytes from `start` on were copied: just those count as copied,
    /// the rest of their run is still to be copied (nothing changes for
    /// `n == 0`).
    pub fn copied(&mut self, start: u64, n: u64)
        requires
            start + n <= u64::MAX,
        ensures
            final(self).copied_points() == old(self).copied_points().union(
                points_of(start as int, start + n),
            ),
    {
        if n == 0 {
            assert(points_of(start as int, start as int) =~= Set::<u64>::empty());
            assert(old(self).copied_points().union(Set::<u64>::empty()) =~= old(self).copied_points());
            return;
        }
        range_set_insert(&mut self.on_target, Range { start, end: start + n });
    }
}

} // verus!
