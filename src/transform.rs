//! Index rules of the rank-to-value transform, of the segment choice when a
//! transform is applied, and of the split of a chronological series.
use vstd::prelude::*;

verus! {

/// Where the two ends of a transform segment are read from the sorted list
/// of player means: `None` at the lower end stands for 0, `None` at the
/// upper end stands for 1.
#[derive(Clone, Copy, Debug, PartialEq, Eq, Structural)]
pub struct SourceBounds {
    pub min_index: Option<usize>,
    pub max_index: Option<usize>,
    pub player_count: i32,
}

/// Bounds of the segment that covers sorted positions `begin..end` of a list
/// of `n` means: the lower end is position `begin` unless it is 0, the upper
/// end is position `end` while it lies inside the list.
pub fn rank_source_indices(n: usize, begin: usize, end: usize) -> (r: SourceBounds)
    requires
        begin == 0 || begin < n,
        begin <= end,
        end - begin <= i32::MAX,
    ensures
        r.min_index == (if begin == 0 { None } else { Some(begin) }),
        r.max_index == (if end < n { Some(end) } else { None::<usize> }),
        r.player_count == end - begin,
{
    let min_index = if begin == 0 {
        None
    } else {
        Some(begin)
    };
    let max_index = if end < n {
        Some(end)
    } else {
        None
    };
    SourceBounds { min_index, max_index, player_count: (end - begin) as i32 }
}

/// `rank_source_indices` as a function of its arguments.
pub open spec fn source_bounds_of(n: int, begin: int, end: int) -> SourceBounds {
    SourceBounds {
        min_index: if begin == 0 { None } else { Some(begin as usize) },
        max_index: if end < n { Some(end as usize) } else { None },
        player_count: (end - begin) as i32,
    }
}

/// Sum of the player counts of a table of segments.
pub open spec fn count_sum(b: Seq<SourceBounds>) -> int
    decreases b.len(),
{
    if b.len() == 0 { 0 } else { count_sum(b.drop_last()) + b.last().player_count }
}

/// The ranges follow one another: each ends where the next begins.
pub open spec fn consecutive(ranges: Seq<(usize, usize)>) -> bool {
    forall|i: int| 0 <= i < ranges.len() - 1 ==> (#[trigger] ranges[i]).1 == ranges[i + 1].0
}

/// Each range can be read from a sorted list of `n` means.
pub open spec fn readable_ranges(n: int, ranges: Seq<(usize, usize)>) -> bool {
    forall|i: int| 0 <= i < ranges.len() ==> {
        &&& ((#[trigger] ranges[i]).0 == 0 || ranges[i].0 < n)
        &&& ranges[i].0 <= ranges[i].1
        &&& ranges[i].1 - ranges[i].0 <= i32::MAX
    }
}

/// The segments of one transform table: `ranges[i]` are the sorted
/// positions of segment `i`. When the ranges follow one another, the player
/// counts add up to the positions they cover; when they cover the whole
/// list of `n` means, to `n`, one per sampled player.
pub fn rank_source_table(n: usize, ranges: &Vec<(usize, usize)>) -> (r: Vec<SourceBounds>)
    requires
        readable_ranges(n as int, ranges@),
    ensures
        r@.len() == ranges@.len(),
        forall|i: int| 0 <= i < r@.len() ==> #[trigger] r@[i] == source_bounds_of(n as int,
            ranges@[i].0 as int, ranges@[i].1 as int),
        ranges@.len() > 0 && consecutive(ranges@) ==> count_sum(r@) == ranges@.last().1 - ranges@[0].0,
        ranges@.len() > 0 && consecutive(ranges@) && ranges@[0].0 == 0 && ranges@.last().1 == n
            ==> count_sum(r@) == n,
{
    let mut r: Vec<SourceBounds> = Vec::new();
    let mut i: usize = 0;
    while i < ranges.len()
        invariant
            readable_ranges(n as int, ranges@),
            0 <= i <= ranges@.len(),
            r@.len() == i,
            forall|k: int| 0 <= k < i ==> #[trigger] r@[k] == source_bounds_of(n as int,
                ranges@[k].0 as int, ranges@[k].1 as int),
            i > 0 && consecutive(ranges@) ==> count_sum(r@) == ranges@[i - 1].1 - ranges@[0].0,
        decreases ranges@.len() - i,
    {
        let (begin, end) = ranges[i];
        assert(readable_ranges(n as int, ranges@) ==> (ranges@[i as int].0 == 0 || ranges@[i as int].0 < n));
        let b = rank_source_indices(n, begin, end);
        let ghost before = r@;
        r.push(b);
        proof {
            assert(r@.drop_last() == before);
            assert(count_sum(r@) == count_sum(before) + b.player_count);
            assert(b.player_count == end - begin);
            if i > 0 && consecutive(ranges@) {
                let prev = ranges@[i - 1];
                assert(prev.1 == ranges@[i as int].0);
            }
        }
        i += 1;
    }
    r
}

/// Number of leading `true` values of `s`.
pub open spec fn leading_true(s: Seq<bool>) -> nat
    decreases s.len(),
{
    if s.len() == 0 || !s[0] {
        0
    } else {
        1 + leading_true(s.drop_first())
    }
}

proof fn lemma_leading_true_prefix(s: Seq<bool>, i: int)
    requires
        0 <= i <= s.len(),
        forall|k: int| 0 <= k < i ==> s[k],
    ensures
        i < s.len() && !s[i] ==> leading_true(s) == i,
        i == s.len() ==> leading_true(s) == i,
    decreases i,
{
    if i > 0 {
        lemma_leading_true_prefix(s.drop_first(), i - 1);
    }
}

/// The segment a corrected index falls in, given for each segment whether
/// the index lies strictly above its lower source bound: the last segment
/// of the leading run of such segments, and the first one if there is none.
pub fn select_segment(above_lower_bound: &Vec<bool>) -> (r: usize)
    ensures
        r == (if leading_true(above_lower_bound@) == 0 {
            0
        } else {
            (leading_true(above_lower_bound@) - 1) as int
        }),
{
    let mut index: usize = 0;
    let mut i: usize = 0;
    while i < above_lower_bound.len()
        invariant_except_break
            forall|k: int| 0 <= k < i ==> above_lower_bound@[k],
            index == (if i == 0 { 0 } else { i - 1 }),
        invariant
            0 <= i <= above_lower_bound@.len(),
        ensures
            forall|k: int| 0 <= k < i ==> above_lower_bound@[k],
            index == (if i == 0 { 0 } else { i - 1 }),
            i < above_lower_bound@.len() ==> !above_lower_bound@[i as int],
        decreases above_lower_bound@.len() - i,
    {
        if above_lower_bound[i] {
            index = i;
        } else {
            break;
        }
        i += 1;
    }
    proof {
        lemma_leading_true_prefix(above_lower_bound@, i as int);
    }
    index
}

/// Size of the earlier part of a chronological series of `n` missions:
/// eight tenths of it, at least ten, at most all of it.
pub open spec fn prev_count(n: int) -> int {
    let k = if n * 8 / 10 < 10 {
        10
    } else {
        n * 8 / 10
    };
    if k >= n {
        n
    } else {
        k
    }
}

/// Number of missions, of a series of `n` in time order, that count as
/// earlier ones; the rest are the recent ones.
pub fn prev_mission_count(n: usize) -> (r: usize)
    requires
        n <= usize::MAX / 8,
    ensures
        r == prev_count(n as int),
{
    let k: usize = n * 8 / 10;
    let k: usize = if k < 10 {
        10
    } else {
        k
    };
    if k >= n {
        n
    } else {
        k
    }
}

/// Mission `a` comes before mission `b` in time order (ties by position).
pub open spec fn comes_before(ts: Seq<i64>, a: int, b: int) -> bool {
    ts[a] < ts[b] || (ts[a] == ts[b] && a < b)
}

/// `r` lists the positions `0..ts.len()` in time order of `ts`, ties by
/// position.
pub open spec fn is_time_order(ts: Seq<i64>, r: Seq<usize>) -> bool {
    &&& r.len() == ts.len()
    &&& forall|i: int| 0 <= i < r.len() ==> (#[trigger] r[i]) < ts.len()
    &&& forall|i: int, j: int| 0 <= i < j < r.len() ==> comes_before(ts, r[i] as int, r[j] as int)
    &&& forall|x: int| 0 <= x < ts.len() ==> lists_pos(r, x)
}

/// Position `x` occurs in `r`.
pub open spec fn lists_pos(r: Seq<usize>, x: int) -> bool {
    exists|i: int| 0 <= i < r.len() && #[trigger] r[i] as int == x
}

/// The positions of a series of missions sorted by begin time, equal times
/// kept in their original order.
pub fn chronological_order(timestamps: &Vec<i64>) -> (r: Vec<usize>)
    ensures
        is_time_order(timestamps@, r@),
{
    let ghost ts = timestamps@;
    let mut r: Vec<usize> = Vec::new();
    let mut k: usize = 0;
    while k < timestamps.len()
        invariant
            ts == timestamps@,
            0 <= k <= ts.len(),
            r@.len() == k,
            forall|i: int| 0 <= i < r@.len() ==> (#[trigger] r@[i]) < k,
            forall|i: int, j: int| 0 <= i < j < r@.len() ==> comes_before(ts, r@[i] as int, r@[j] as int),
            forall|x: int| 0 <= x < k ==> lists_pos(r@, x),
        decreases ts.len() - k,
    {
        let t = timestamps[k];
        let mut p: usize = 0;
        while p < r.len() && timestamps[r[p]] <= t
            invariant
                ts == timestamps@,
                0 <= k < ts.len(),
                t == ts[k as int],
                0 <= p <= r@.len(),
                forall|i: int| 0 <= i < r@.len() ==> (#[trigger] r@[i]) < k,
                forall|i: int| 0 <= i < p ==> ts[#[trigger] r@[i] as int] <= t,
            decreases r@.len() - p,
        {
            p += 1;
        }
        let ghost old_r = r@;
        proof {
            assert forall|i: int| p <= i < old_r.len() implies ts[#[trigger] old_r[i] as int] > t by {
                if i > p {
                    assert(comes_before(ts, old_r[p as int] as int, old_r[i] as int));
                }
            }
        }
        r.insert(p, k);
        proof {
            assert forall|i: int| 0 <= i < r@.len() implies (#[trigger] r@[i]) < k + 1 by {
                if i < p { assert(r@[i] == old_r[i]); }
                else if i > p { assert(r@[i] == old_r[i - 1]); }
            }
            assert forall|i: int, j: int| 0 <= i < j < r@.len() implies comes_before(ts, r@[i] as int, r@[j] as int) by {
                if j < p {
                    assert(r@[i] == old_r[i] && r@[j] == old_r[j]);
                } else if j == p {
                    assert(r@[i] == old_r[i]);
                } else if i < p {
                    assert(r@[i] == old_r[i] && r@[j] == old_r[j - 1]);
                } else if i == p {
                    assert(r@[j] == old_r[j - 1]);
                } else {
                    assert(r@[i] == old_r[i - 1] && r@[j] == old_r[j - 1]);
                }
            }
            assert forall|x: int| 0 <= x < k + 1 implies lists_pos(r@, x) by {
                if x == k {
                    assert(r@[p as int] == x);
                } else {
                    assert(lists_pos(old_r, x));
                    let i = choose|i: int| 0 <= i < old_r.len() && #[trigger] old_r[i] as int == x;
                    if i < p {
                        assert(r@[i] == x);
                    } else {
                        assert(r@[i + 1] == x);
                    }
                }
            }
        }
        k += 1;
    }
    r
}

} // verus!
