//! Sets of stream positions, kept as coalesced half-open ranges by
//! `rangemap::RangeSet<u64>`. Each set is modelled by the set of positions
//! it covers.
use std::ops::Range;

use rangemap::RangeSet;
use vstd::prelude::*;

verus! {

#[verifier::external_type_specification]
#[verifier::external_body]
#[verifier::reject_recursive_types(T)]
pub struct ExRangeSet<T>(RangeSet<T>);

/// The positions covered by a `RangeSet<u64>`.
pub uninterp spec fn range_set_points(s: RangeSet<u64>) -> Set<u64>;

/// The positions of the half-open range `start..end`.
pub open spec fn points_of(start: int, end: int) -> Set<u64> {
    Set::new(|p: u64| start <= p < end)
}

/// Every position of `start..end` is in `s`.
pub open spec fn covers(s: Set<u64>, start: int, end: int) -> bool {
    forall|p: u64| start <= p < end ==> #[trigger] s.contains(p)
}

/// No position of `start..end` is in `s`.
pub open spec fn avoids(s: Set<u64>, start: int, end: int) -> bool {
    forall|p: u64| start <= p < end ==> !#[trigger] s.contains(p)
}

/// `v` lists non-empty ranges in ascending order, each separated from the
/// next by at least one position.
pub open spec fn separated_ranges(v: Seq<Range<u64>>) -> bool {
    &&& forall|i: int| 0 <= i < v.len() ==> #[trigger] v[i].start < v[i].end
    &&& forall|i: int, j: int| 0 <= i < j < v.len() ==> #[trigger] v[i].end < #[trigger] v[j].start
}

/// Position `p` lies in one of the ranges of `v`.
pub open spec fn in_some_range(v: Seq<Range<u64>>, p: u64) -> bool {
    exists|i: int| 0 <= i < v.len() && #[trigger] v[i].start <= p && p < v[i].end
}

/// The positions covered by the ranges of `v`.
pub open spec fn points_of_ranges(v: Seq<Range<u64>>) -> Set<u64> {
    Set::new(|p: u64| in_some_range(v, p))
}

/// `g` is the first gap of `s` inside `start..end`: it starts at the first
/// position of `start..end` missing from `s` and runs until `s` resumes or
/// `end` is reached.
pub open spec fn is_first_gap(s: Set<u64>, start: int, end: int, g: Range<u64>) -> bool {
    &&& start <= g.start < g.end <= end
    &&& covers(s, start, g.start as int)
    &&& avoids(s, g.start as int, g.end as int)
    &&& (g.end == end || s.contains(g.end))
}

/// An empty set of ranges (`RangeSet::new`).
#[verifier::external_body]
pub(crate) fn range_set_new() -> (s: RangeSet<u64>)
    ensures
        range_set_points(s) == Set::<u64>::empty(),
{
    RangeSet::new()
}

/// Adds `range` to the set (`RangeSet::insert`); it panics on an empty range,
/// which `requires` excludes.
#[verifier::external_body]
pub(crate) fn range_set_insert(s: &mut RangeSet<u64>, range: Range<u64>)
    requires
        range.start < range.end,
    ensures
        range_set_points(*final(s)) == range_set_points(*old(s)).union(
            points_of(range.start as int, range.end as int),
        ),
{
    s.insert(range)
}

/// Whether `pos` is covered (`RangeSet::contains`).
#[verifier::external_body]
pub(crate) fn range_set_contains(s: &RangeSet<u64>, pos: u64) -> (r: bool)
    ensures
        r == range_set_points(*s).contains(pos),
{
    s.contains(&pos)
}

/// The stored range holding `pos` (`RangeSet::get`). Stored ranges are
/// coalesced on insertion, so it is the maximal run of covered positions
/// around `pos`.
#[verifier::external_body]
pub(crate) fn range_set_get(s: &RangeSet<u64>, pos: u64) -> (g: Option<Range<u64>>)
    ensures
        g is None <==> !range_set_points(*s).contains(pos),
        g matches Some(g) ==> {
            &&& g.start <= pos < g.end
            &&& covers(range_set_points(*s), g.start as int, g.end as int)
            &&& (g.start == 0 || !range_set_points(*s).contains((g.start - 1) as u64))
            &&& !range_set_points(*s).contains(g.end)
        },
{
    s.get(&pos).cloned()
}

/// The stored ranges in order (`RangeSet::iter`). The crate coalesces ranges
/// that overlap or touch on insertion, so consecutive ranges are separated.
#[verifier::external_body]
pub(crate) fn range_set_ranges(s: &RangeSet<u64>) -> (v: Vec<Range<u64>>)
    ensures
        separated_ranges(v@),
        points_of_ranges(v@) == range_set_points(*s),
{
    s.iter().cloned().collect()
}

/// The first item of `RangeSet::gaps(outer)`: the first maximal part of
/// `outer` that the set does not cover, or `None` when the set covers all of
/// `outer` (always so for an empty or reversed `outer`).
#[verifier::external_body]
pub(crate) fn range_set_first_gap(s: &RangeSet<u64>, outer: &Range<u64>) -> (g: Option<Range<u64>>)
    ensures
        g is None <==> covers(range_set_points(*s), outer.start as int, outer.end as int),
        g matches Some(g) ==> is_first_gap(
            range_set_points(*s),
            outer.start as int,
            outer.end as int,
            g,
        ),
{
    s.gaps(outer).next()
}

/// Builds a set out of `ranges`, skipping the empty ones.
pub fn range_set_from_ranges(ranges: &Vec<Range<u64>>) -> (s: RangeSet<u64>)
    ensures
        forall|p: u64|
            range_set_points(s).contains(p) <==> exists|i: int|
                0 <= i < ranges@.len() && #[trigger] ranges@[i].start <= p && p < ranges@[i].end,
{
    let mut s = range_set_new();
    let mut i: usize = 0;
    while i < ranges.len()
        invariant
            i <= ranges.len(),
            forall|p: u64|
                range_set_points(s).contains(p) <==> exists|k: int|
                    0 <= k < i && #[trigger] ranges@[k].start <= p && p < ranges@[k].end,
        decreases ranges.len() - i,
    {
        let r = Range { start: ranges[i].start, end: ranges[i].end };
        let ghost before = range_set_points(s);
        if r.start < r.end {
            range_set_insert(&mut s, r);
        }
        assert forall|p: u64|
            range_set_points(s).contains(p) <==> exists|k: int|
                0 <= k < i + 1 && #[trigger] ranges@[k].start <= p && p < ranges@[k].end by {
            if range_set_points(s).contains(p) {
                if before.contains(p) {
                    let k = choose|k: int|
                        0 <= k < i && #[trigger] ranges@[k].start <= p && p < ranges@[k].end;
                    assert(0 <= k < i + 1 && ranges@[k].start <= p && p < ranges@[k].end);
                } else {
                    assert(ranges@[i as int].start <= p && p < ranges@[i as int].end);
                }
            }
            if exists|k: int| 0 <= k < i + 1 && #[trigger] ranges@[k].start <= p && p < ranges@[k].end {
                let k = choose|k: int|
                    0 <= k < i + 1 && #[trigger] ranges@[k].start <= p && p < ranges@[k].end;
                if k < i {
                    assert(before.contains(p));
                }
            }
        }
        i += 1;
    }
    s
}

/// Whether the set covers every position of `from..till` (gapless).
pub fn covers_range(s: &RangeSet<u64>, from: u64, till: u64) -> (r: bool)
    ensures
        r == covers(range_set_points(*s), from as int, till as int),
{
    let outer = Range { start: from, end: till };
    range_set_first_gap(s, &outer).is_none()
}

} // verus!
