//! Which ranges a migration copies first when the new store can not take
//! everything.
use std::ops::Range;

use rangemap::RangeSet;
use vstd::prelude::*;

use crate::range_set::{points_of, range_set_insert, range_set_new, range_set_points, separated_ranges};
use crate::store::capacity::Bounds;

verus! {

pub struct RangeListIterator {
    pub list: Vec<Range<u64>>,
    pub dist_from_center: isize,
    pub mul: isize,
}

/// The position the iterator reads next: `dist_from_center` steps (times
/// `mul`) from the center of the list.
pub open spec fn next_index(list_len: int, dist: int, mul: int) -> int {
    list_len / 2 + mul * dist
}

impl RangeListIterator {
    /// The next range: the one `dist_from_center * mul` after the center. The
    /// distance grows by one each call and `mul` stays as it is, so the ranges
    /// come from the center on, in order; the position must be in the list.
    pub fn next(&mut self) -> (r: Option<Range<u64>>)
        requires
            old(self).list@.len() <= isize::MAX,
            isize::MIN <= old(self).mul * old(self).dist_from_center <= isize::MAX,
            0 <= next_index(old(self).list@.len() as int, old(self).dist_from_center as int, old(self).mul as int)
                < old(self).list@.len(),
            old(self).dist_from_center < isize::MAX,
        ensures
            r == Some(old(self).list@[next_index(old(self).list@.len() as int, old(self).dist_from_center as int, old(self).mul as int)]),
            final(self).list@ == old(self).list@,
            final(self).dist_from_center == old(self).dist_from_center + 1,
            final(self).mul == old(self).mul,
    {
        let center = self.list.len() / 2;
        let idx = center as isize + self.mul * self.dist_from_center;
        self.dist_from_center += 1;
        self.mul *= 1;
        let r = &self.list[idx as usize];
        Some(Range { start: r.start, end: r.end })
    }
}

pub fn iter_by_importance(range_list: Vec<Range<u64>>) -> (it: RangeListIterator)
    ensures
        it.list@ == range_list@,
        it.dist_from_center == 0,
        it.mul == 1,
{
    RangeListIterator { list: range_list, dist_from_center: 0, mul: 1 }
}

pub open spec fn range_len(r: Range<u64>) -> int {
    r.end - r.start
}

/// The length of a range.
pub fn len(r: &Range<u64>) -> (n: u64)
    requires
        r.start <= r.end,
    ensures
        n == range_len(*r),
{
    r.end - r.start
}

/// The total length of the `k` ranges of `list` from position `from` on.
pub open spec fn taken_len(list: Seq<Range<u64>>, from: int, k: int) -> int
    decreases k,
{
    if k <= 0 {
        0
    } else {
        taken_len(list, from, k - 1) + range_len(list[from + k - 1])
    }
}

/// Every range of `list` is non-empty.
pub open spec fn all_non_empty(list: Seq<Range<u64>>) -> bool {
    forall|i: int| 0 <= i < list.len() ==> #[trigger] list[i].start < list[i].end
}

/// Going from the center of `list` on, the capacity `cap` runs out inside
/// the range `k` steps from the center: the ranges before it fit, it does
/// not, and some capacity is left for its tail.
pub open spec fn is_cut(list: Seq<Range<u64>>, cap: int, k: int) -> bool {
    let from = (list.len() / 2) as int;
    &&& 0 <= k
    &&& from + k < list.len()
    &&& taken_len(list, from, k) < cap < taken_len(list, from, k + 1)
    &&& forall|j: int| 0 <= j < k ==> #[trigger] taken_len(list, from, j + 1) <= cap
}

/// The positions of the ranges of `list` from `from` on, `k` of them.
pub open spec fn points_of_run(list: Seq<Range<u64>>, from: int, k: int) -> Set<u64> {
    Set::new(|p: u64| exists|j: int| 0 <= j < k && #[trigger] list[from + j].start <= p && p < list[from + j].end)
}

/// What fits in a limited capacity cut at step `k`: the ranges before it,
/// and the tail of the range at `k` that the rest of the capacity holds.
pub open spec fn fitted_points(list: Seq<Range<u64>>, cap: int, k: int) -> Set<u64> {
    let from = (list.len() / 2) as int;
    let left = cap - taken_len(list, from, k);
    let cut = list[from + k];
    points_of_run(list, from, k).union(points_of(cut.end - left, cut.end as int))
}

/// Trims the ranges a store has to what the target can take: all of them
/// for an unlimited target; for a limited one the ranges from the center of
/// the list on, in order, until the capacity runs out inside one of them,
/// of which only the tail that fits is kept.
pub fn correct_for_capacity(needed_from_src: Vec<Range<u64>>, capacity: Bounds) -> (s: RangeSet<u64>)
    requires
        all_non_empty(needed_from_src@),
        needed_from_src@.len() <= isize::MAX,
        capacity matches Bounds::Limited(cap) ==> exists|k: int| is_cut(needed_from_src@, cap as int, k),
    ensures
        capacity is Unlimited ==> range_set_points(s) == points_of_run(needed_from_src@, 0, needed_from_src@.len() as int),
        capacity matches Bounds::Limited(cap) ==> exists|k: int|
            #[trigger] is_cut(needed_from_src@, cap as int, k) && range_set_points(s)
                == fitted_points(needed_from_src@, cap as int, k),
{
    let ghost list = needed_from_src@;
    let cap = match capacity {
        Bounds::Unlimited => {
            let mut res = range_set_new();
            let mut i: usize = 0;
            while i < needed_from_src.len()
                invariant
                    i <= needed_from_src@.len(),
                    list == needed_from_src@,
                    all_non_empty(list),
                    range_set_points(res) == points_of_run(list, 0, i as int),
                decreases needed_from_src.len() - i,
            {
                let r = Range { start: needed_from_src[i].start, end: needed_from_src[i].end };
                let ghost before = range_set_points(res);
                range_set_insert(&mut res, r);
                assert(range_set_points(res) =~= points_of_run(list, 0, i + 1)) by {
                    assert forall|p: u64| range_set_points(res).contains(p) implies points_of_run(list, 0, i + 1).contains(p) by {
                        if !before.contains(p) {
                            assert(list[0 + i as int].start <= p && p < list[0 + i as int].end);
                        } else {
                            let j = choose|j: int| 0 <= j < i && #[trigger] list[0 + j].start <= p && p < list[0 + j].end;
                            assert(0 <= j < i + 1 && list[0 + j].start <= p && p < list[0 + j].end);
                        }
                    }
                    assert forall|p: u64| points_of_run(list, 0, i + 1).contains(p) implies range_set_points(res).contains(p) by {
                        let j = choose|j: int| 0 <= j < i + 1 && #[trigger] list[0 + j].start <= p && p < list[0 + j].end;
                        if j < i {
                            assert(before.contains(p));
                        }
                    }
                }
                i += 1;
            }
            return res;
        },
        Bounds::Limited(cap) => cap,
    };
    let ghost from = (list.len() / 2) as int;
    let ghost k = choose|k: int| is_cut(list, cap as int, k);
    let mut free_capacity = cap;
    let mut res = range_set_new();
    let mut it = iter_by_importance(needed_from_src);
    loop
        invariant
            it.list@ == list,
            list == needed_from_src@,
            capacity == Bounds::Limited(cap),
            it.mul == 1,
            list.len() <= isize::MAX,
            all_non_empty(list),
            is_cut(list, cap as int, k),
            from == (list.len() / 2) as int,
            0 <= it.dist_from_center <= k,
            free_capacity == cap - taken_len(list, from, it.dist_from_center as int),
            range_set_points(res) == points_of_run(list, from, it.dist_from_center as int),
        decreases k - it.dist_from_center,
    {
        let ghost d = it.dist_from_center as int;
        let range = it.next().unwrap();
        assert(range == list[from + d]);
        let range_length = len(&range);
        let ghost before = range_set_points(res);
        if range_length <= free_capacity {
            assert(d < k) by {
                if d == k {
                    assert(taken_len(list, from, k + 1) == taken_len(list, from, k) + range_len(list[from + k]));
                }
            }
            range_set_insert(&mut res, Range { start: range.start, end: range.end });
            free_capacity -= range_length;
            assert(range_set_points(res) =~= points_of_run(list, from, d + 1)) by {
                assert forall|p: u64| range_set_points(res).contains(p) implies points_of_run(list, from, d + 1).contains(p) by {
                    if !before.contains(p) {
                        assert(list[from + d].start <= p && p < list[from + d].end);
                    } else {
                        let j = choose|j: int| 0 <= j < d && #[trigger] list[from + j].start <= p && p < list[from + j].end;
                        assert(0 <= j < d + 1 && list[from + j].start <= p && p < list[from + j].end);
                    }
                }
                assert forall|p: u64| points_of_run(list, from, d + 1).contains(p) implies range_set_points(res).contains(p) by {
                    let j = choose|j: int| 0 <= j < d + 1 && #[trigger] list[from + j].start <= p && p < list[from + j].end;
                    if j < d {
                        assert(before.contains(p));
                    }
                }
            }
        } else {
            assert(d == k) by {
                if d < k {
                    assert(taken_len(list, from, d + 1) <= cap);
                }
            }
            let cut = Range { start: range.end - free_capacity, end: range.end };
            range_set_insert(&mut res, cut);
            assert(range_set_points(res) =~= fitted_points(list, cap as int, k));
            // the cut found is the witness of the postcondition
            assert(is_cut(needed_from_src@, cap as int, k) && range_set_points(res)
                == fitted_points(needed_from_src@, cap as int, k));
            assert(capacity matches Bounds::Limited(c) ==> c == cap);
            assert(capacity matches Bounds::Limited(c) ==> is_cut(needed_from_src@, c as int, k));
            assert(capacity matches Bounds::Limited(c) ==> exists|kk: int|
                #[trigger] is_cut(needed_from_src@, c as int, kk) && range_set_points(res)
                    == fitted_points(needed_from_src@, c as int, kk));
            return res;
        }
    }
}

/// `i` ranges of the sorted `list` end at or before `pos`: the range at `i`,
/// if any, is the one holding `pos` or else the first after it.
pub open spec fn ends_before(list: Seq<Range<u64>>, pos: u64, i: int) -> bool {
    &&& 0 <= i <= list.len()
    &&& forall|j: int| 0 <= j < i ==> #[trigger] list[j].end <= pos
    &&& forall|j: int| i <= j < list.len() ==> #[trigger] list[j].end > pos
}

/// The ranges a target supporting `n_supported` ranges takes from the
/// sorted, separated `list`, given the reader's position `last_read_pos`:
/// from the range being read (or else the first after the reader) on, up to
/// `n_supported` of them;
/// if fewer, as many of the ranges right before it as are still allowed.
pub open spec fn ranges_taken(list: Seq<Range<u64>>, center: int, n_supported: int) -> Seq<Range<u64>> {
    let end = if list.len() < center + n_supported { list.len() as int } else { center + n_supported };
    let front = list.subrange(center, end);
    let n_left = if n_supported > front.len() { n_supported - front.len() } else { 0 };
    let start = if center > n_left { center - n_left } else { 0 };
    front + list.subrange(start, center)
}

/// Gets up to the number of ranges supported by the target around the
/// range currently being read, preferring it and the ranges after it.
pub fn ranges_we_can_take(range_list: &Vec<Range<u64>>, last_read_pos: u64, n_supported: usize) -> (taking: Vec<Range<u64>>)
    requires
        separated_ranges(range_list@),
        forall|c: int| #[trigger] ends_before(range_list@, last_read_pos, c) ==> c + n_supported <= usize::MAX,
    ensures
        exists|center: int|
            ends_before(range_list@, last_read_pos, center) && taking@ == ranges_taken(
                range_list@,
                center,
                n_supported as int,
            ),
        // the range being read comes first
        forall|i: int|
            0 <= i < range_list@.len() && #[trigger] range_list@[i].start <= last_read_pos
                && last_read_pos < range_list@[i].end && n_supported > 0 ==> taking@.len() > 0
                && taking@[0] == range_list@[i],
{
    let ghost list = range_list@;
    let mut center: usize = 0;
    while center < range_list.len() && range_list[center].end <= last_read_pos
        invariant
            center <= list.len(),
            list == range_list@,
            forall|j: int| 0 <= j < center ==> #[trigger] list[j].end <= last_read_pos,
        decreases range_list.len() - center,
    {
        center += 1;
    }
    assert(ends_before(list, last_read_pos, center as int)) by {
        assert forall|j: int| center <= j < list.len() implies #[trigger] list[j].end > last_read_pos by {
            if j > center {
                assert(list[center as int].end < list[j].start);
                assert(list[j].start < list[j].end);
            }
        }
    }
    assert forall|i: int|
        0 <= i < list.len() && #[trigger] list[i].start <= last_read_pos && last_read_pos
            < list[i].end implies i == center by {
        if i < center {
            assert(list[i].end <= last_read_pos);
        } else if i > center {
            assert(list[center as int].end < list[i].start);
            assert(list[center as int].end > last_read_pos);
        }
    }
    let mut taking: Vec<Range<u64>> = Vec::new();
    let end = if range_list.len() < center + n_supported { range_list.len() } else { center + n_supported };
    let mut i = center;
    while i < end
        invariant
            center <= i <= end <= list.len(),
            list == range_list@,
            taking@ == list.subrange(center as int, i as int),
        decreases end - i,
    {
        taking.push(Range { start: range_list[i].start, end: range_list[i].end });
        i += 1;
        assert(taking@ =~= list.subrange(center as int, i as int));
    }
    let n_left = n_supported.saturating_sub(taking.len());
    let start = center.saturating_sub(n_left);
    let ghost front = taking@;
    let mut i = start;
    while i < center
        invariant
            start <= i <= center <= list.len(),
            list == range_list@,
            taking@ == front + list.subrange(start as int, i as int),
        decreases center - i,
    {
        taking.push(Range { start: range_list[i].start, end: range_list[i].end });
        i += 1;
        assert(taking@ =~= front + list.subrange(start as int, i as int));
    }
    assert(taking@ =~= ranges_taken(list, center as int, n_supported as int));
    taking
}

} // verus!
