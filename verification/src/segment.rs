//! How a blob is cut into the byte ranges that are fetched over separate connections.

use vstd::prelude::*;

verus! {

/// Blobs at or under this size are fetched over one connection: splitting them
/// saves little absolute time and costs an extra probe round-trip.
pub const PARALLEL_MIN_SIZE: u64 = 32 * 1024 * 1024;

/// Bytes per segment once a blob is split.
pub const SEGMENT_TARGET: u64 = 32 * 1024 * 1024;

/// Upper bound on concurrent upstream connections for a single blob.
pub const MAX_SEGMENTS: usize = 8;

/// The end of a segment whose extent is not known.
pub const OPEN_END: u64 = u64::MAX;

/// Half-open byte range `[start, end)` of a blob.
#[derive(Clone, Copy, Debug, PartialEq, Eq, Structural)]
pub struct Segment {
    pub start: u64,
    pub end: u64,
}

/// `a / b`, rounded up.
pub open spec fn ceil_div(a: int, b: int) -> int {
    if a % b == 0 {
        a / b
    } else {
        a / b + 1
    }
}

/// How many connections a blob of `total` bytes is given.
pub open spec fn connections(total: int) -> int {
    let wanted = ceil_div(total, SEGMENT_TARGET as int);
    if wanted < 1 {
        1
    } else if wanted > MAX_SEGMENTS {
        MAX_SEGMENTS as int
    } else {
        wanted
    }
}

/// Bytes in every segment but the last.
pub open spec fn segment_len(total: int) -> int {
    ceil_div(total, connections(total))
}

/// The segments of a blob of `total` bytes: one per connection, of equal length but for the last
/// one, which is cut off at the end of the blob. There is none for an empty blob.
pub open spec fn planned(total: int) -> Seq<Segment> {
    let per = segment_len(total);
    Seq::new(
        if total == 0 {
            0
        } else {
            connections(total) as nat
        },
        |i: int|
            Segment {
                start: (i * per) as u64,
                end: (if (i + 1) * per < total {
                    (i + 1) * per
                } else {
                    total
                }) as u64,
            },
    )
}

/// Segment `i` begins where segment `i - 1` ends.
pub open spec fn joined(plan: Seq<Segment>, i: int) -> bool {
    plan[i].start == plan[i - 1].end
}

/// The segments cover `[0, total)` in order, with no gap and no overlap.
pub open spec fn tiles(plan: Seq<Segment>, total: int) -> bool {
    &&& plan.len() == 0 ==> total == 0
    &&& plan.len() > 0 ==> plan[0].start == 0 && plan[plan.len() - 1].end == total
    &&& forall|i: int| 0 <= i < plan.len() ==> (#[trigger] plan[i]).start <= plan[i].end
    &&& forall|i: int| 1 <= i < plan.len() ==> #[trigger] joined(plan, i)
}

/// The number of bytes in the segments, counted one segment at a time.
pub open spec fn covered(plan: Seq<Segment>) -> int
    decreases plan.len(),
{
    if plan.len() == 0 {
        0
    } else {
        covered(plan.drop_last()) + (plan.last().end - plan.last().start)
    }
}

fn div_ceil(a: u64, b: u64) -> (r: u64)
    requires
        b > 0,
        b > 1 || a < u64::MAX,
    ensures
        r == ceil_div(a as int, b as int),
{
    proof {
        vstd::arithmetic::div_mod::lemma_fundamental_div_mod(a as int, b as int);
        assert(b > 1 ==> (a as int) / (b as int) <= a / 2) by (nonlinear_arith)
            requires
                b > 0,
        ;
    }
    if a % b == 0 {
        a / b
    } else {
        a / b + 1
    }
}

/// `ceil_div(a, b)` is the least number of steps of length `b` that reaches `a`.
proof fn lemma_ceil_div(a: int, b: int)
    requires
        0 < a,
        0 < b,
    ensures
        0 < ceil_div(a, b) <= a,
        (ceil_div(a, b) - 1) * b < a <= ceil_div(a, b) * b,
        ceil_div(a, b) * b < a + b,
{
    vstd::arithmetic::div_mod::lemma_fundamental_div_mod(a, b);
    let q = a / b;
    let r = a % b;
    assert(0 <= r < b) by (nonlinear_arith)
        requires
            r == a % b,
            0 < b,
    ;
    assert(a == b * q + r);
    assert((q - 1) * b == b * q - b && (q + 1) * b == b * q + b && q * b == b * q) by (nonlinear_arith);
    assert(0 <= q) by (nonlinear_arith)
        requires
            a == b * q + r,
            0 < a,
            r < b,
            0 < b,
    ;
    assert(q + (if r == 0 { 0int } else { 1 }) <= a) by (nonlinear_arith)
        requires
            a == b * q + r,
            0 <= q,
            0 <= r < b,
            0 < b,
    ;
    assert(q == 0 ==> b * q == 0) by (nonlinear_arith);
}

/// The facts about `planned` that cutting a blob rests on. With so few segments no blob is so small
/// that rounding up their length leaves the last one empty.
proof fn lemma_planned(total: int)
    requires
        0 < total,
    ensures
        1 <= connections(total) <= MAX_SEGMENTS,
        1 <= segment_len(total) <= total,
        connections(total) * segment_len(total) < total + MAX_SEGMENTS,
        (connections(total) - 1) * segment_len(total) < total,
        total <= connections(total) * segment_len(total),
{
    let n = connections(total);
    let per = segment_len(total);
    lemma_ceil_div(total, SEGMENT_TARGET as int);
    lemma_ceil_div(total, n);
    assert(per * n == n * per) by (nonlinear_arith);
    if n > 1 {
        let wanted = ceil_div(total, SEGMENT_TARGET as int);
        assert(total > SEGMENT_TARGET) by (nonlinear_arith)
            requires
                (wanted - 1) * SEGMENT_TARGET < total,
                wanted > 1,
        ;
        assert((n - 1) * per < total) by (nonlinear_arith)
            requires
                (per - 1) * n < total,
                per * n < total + n,
                1 < n <= 8,
                total > 64,
        ;
    } else {
        assert((n - 1) * per == 0) by (nonlinear_arith)
            requires
                n == 1,
        ;
    }
}

/// Cuts a blob of `total` bytes into at most `MAX_SEGMENTS` segments that cover it exactly.
/// The seven largest sizes are left out: the end of the last segment is computed
/// before it is cut off at the end of the blob, and does not fit there.
pub fn plan_segments(total: u64) -> (plan: Vec<Segment>)
    requires
        total <= u64::MAX - 7,
    ensures
        plan@ == planned(total as int),
        tiles(plan@, total as int),
        plan@.len() <= MAX_SEGMENTS,
        forall|i: int| 0 <= i < plan@.len() ==> (#[trigger] plan@[i]).start < plan@[i].end,
        covered(plan@) == total,
{
    let mut plan: Vec<Segment> = Vec::new();
    if total == 0 {
        assert(plan@ =~= planned(total as int));
        return plan;
    }
    proof {
        lemma_planned(total as int);
    }
    let wanted: u64 = div_ceil(total, SEGMENT_TARGET);
    let n: u64 = if wanted < 1 {
        1
    } else if wanted > MAX_SEGMENTS as u64 {
        MAX_SEGMENTS as u64
    } else {
        wanted
    };
    let per: u64 = div_ceil(total, n);
    let mut start: u64 = 0;
    let mut i: u64 = 0;
    while i < n
        invariant
            0 < total <= u64::MAX - 7,
            n == connections(total as int),
            per == segment_len(total as int),
            n <= MAX_SEGMENTS,
            0 < per,
            n * per < total + MAX_SEGMENTS,
            i <= n,
            start == i * per,
            plan@ == planned(total as int).take(i as int),
        decreases n - i,
    {
        assert((i + 1) * per == i * per + per) by (nonlinear_arith);
        assert((i + 1) * per <= n * per) by (nonlinear_arith)
            requires
                i + 1 <= n,
                0 < per,
        ;
        let next: u64 = start + per;
        plan.push(
            Segment {
                start,
                end: if next < total {
                    next
                } else {
                    total
                },
            },
        );
        assert(plan@ =~= planned(total as int).take(i + 1));
        start = next;
        i = i + 1;
    }
    proof {
        assert(plan@ =~= planned(total as int));
        law_plan_covers_the_blob(total as int);
    }
    plan
}

/// Adjacent segments are added up from the first start to the last end.
proof fn lemma_covered(plan: Seq<Segment>, total: int)
    requires
        tiles(plan, total),
    ensures
        covered(plan) == total,
    decreases plan.len(),
{
    if plan.len() > 1 {
        let front = plan.drop_last();
        assert(joined(plan, plan.len() - 1));
        assert forall|i: int| 1 <= i < front.len() implies #[trigger] joined(front, i) by {
            assert(joined(plan, i));
        }
        lemma_covered(front, front.last().end as int);
    } else if plan.len() == 1 {
        assert(covered(plan.drop_last()) == 0);
    }
}

/// The segments planned for a blob cover it exactly: none is empty, the first starts at its first
/// byte, each starts where the one before it ends, the last ends at its end, and their lengths add
/// up to its size. There are never more of them than connections are allowed.
pub proof fn law_plan_covers_the_blob(total: int)
    requires
        0 <= total <= u64::MAX,
    ensures
        tiles(planned(total), total),
        covered(planned(total)) == total,
        planned(total).len() <= MAX_SEGMENTS,
        forall|i: int|
            0 <= i < planned(total).len() ==> (#[trigger] planned(total)[i]).start < planned(
                total,
            )[i].end,
{
    let plan = planned(total);
    if total > 0 {
        lemma_planned(total);
        let per = segment_len(total);
        let m = connections(total);
        assert forall|i: int| 0 <= i < m implies 0 <= i * per < total && (i + 1) * per == i * per
            + per && (i < m - 1 ==> (i + 1) * per < total) && (i == m - 1 ==> (i + 1) * per
            >= total) && #[trigger] plan[i].start == i * per by {
            assert(i * per <= (m - 1) * per) by (nonlinear_arith)
                requires
                    i <= m - 1,
                    0 < per,
            ;
            assert(0 <= i * per) by (nonlinear_arith)
                requires
                    0 <= i,
                    0 < per,
            ;
            assert((i + 1) * per == i * per + per) by (nonlinear_arith);
            if i < m - 1 {
                assert((i + 1) * per <= (m - 1) * per) by (nonlinear_arith)
                    requires
                        i + 1 <= m - 1,
                        0 < per,
                ;
            }
        }
        assert(0 * per == 0) by (nonlinear_arith);
        assert(plan[0].start == 0);
        assert(plan[m - 1].end == total) by {
            assert(plan[m - 1].start == (m - 1) * per);
        }
        assert forall|i: int| 1 <= i < plan.len() implies #[trigger] joined(plan, i) by {
            assert(plan[i].start == i * per);
            assert(plan[i - 1].start == (i - 1) * per);
        }
        assert(tiles(plan, total));
    }
    lemma_covered(plan, total);
}

/// The plan of a blob is the one with `n` segments of `per` bytes each, if that is as many segments
/// as the blob's size calls for and the least length with which they cover it.
pub proof fn law_plan_has_the_least_length(total: int, n: int, per: int)
    requires
        0 < total,
        1 <= n <= MAX_SEGMENTS,
        n < MAX_SEGMENTS ==> total <= n * SEGMENT_TARGET,
        n > 1 ==> (n - 1) * SEGMENT_TARGET < total,
        (per - 1) * n < total <= per * n,
    ensures
        connections(total) == n,
        segment_len(total) == per,
        planned(total).len() == n,
{
    let wanted = ceil_div(total, SEGMENT_TARGET as int);
    lemma_ceil_div(total, SEGMENT_TARGET as int);
    assert(n < MAX_SEGMENTS ==> wanted <= n) by (nonlinear_arith)
        requires
            n < MAX_SEGMENTS ==> total <= n * SEGMENT_TARGET,
            (wanted - 1) * SEGMENT_TARGET < total,
    ;
    assert(n > 1 ==> wanted >= n) by (nonlinear_arith)
        requires
            n > 1 ==> (n - 1) * SEGMENT_TARGET < total,
            total <= wanted * SEGMENT_TARGET,
    ;
    lemma_ceil_div(total, n);
    let len = ceil_div(total, n);
    assert(len == per) by (nonlinear_arith)
        requires
            (per - 1) * n < total <= per * n,
            (len - 1) * n < total <= len * n,
            0 < n,
    ;
}

/// Whether the upstream is asked if it honours ranges: only for a blob that would be split.
pub fn needs_probe(total: Option<u64>) -> (r: bool)
    ensures
        r == (total matches Some(t) && t > PARALLEL_MIN_SIZE),
{
    match total {
        Some(t) => t > PARALLEL_MIN_SIZE,
        None => false,
    }
}

/// The plan for a blob whose size is `total` if it is known.
pub open spec fn planned_for(total: Option<u64>, ranges: bool) -> Seq<Segment> {
    match total {
        Some(t) => if t > PARALLEL_MIN_SIZE && ranges {
            planned(t as int)
        } else {
            seq![Segment { start: 0, end: t }]
        },
        None => seq![Segment { start: 0, end: OPEN_END }],
    }
}

/// Chooses between one connection and several. A large blob is split if the upstream honours
/// ranges. Without a size there is one segment of unknown extent: stall detection still applies,
/// parallelism cannot.
pub fn plan_download(total: Option<u64>, ranges: bool) -> (plan: Vec<Segment>)
    requires
        total matches Some(t) ==> (ranges ==> t <= u64::MAX - 7),
    ensures
        plan@ == planned_for(total, ranges),
        tiles(plan@, if total is Some { total->0 as int } else { OPEN_END as int }),
        1 <= plan@.len() <= MAX_SEGMENTS,
        plan@[0].start == 0,
{
    match total {
        Some(t) => if t > PARALLEL_MIN_SIZE && ranges {
            plan_segments(t)
        } else {
            let plan: Vec<Segment> = vec![Segment { start: 0, end: t }];
            assert(plan@ =~= planned_for(total, ranges));
            plan
        },
        None => {
            let plan: Vec<Segment> = vec![Segment { start: 0, end: OPEN_END }];
            assert(plan@ =~= planned_for(total, ranges));
            plan
        },
    }
}

/// An upstream that ignores ranges is not asked for a blob in parts: there is one connection,
/// whatever the size. So there is for a blob that is small or whose size is not known.
pub proof fn law_one_connection_without_ranges(total: Option<u64>, ranges: bool)
    requires
        !ranges || (total matches Some(t) ==> t <= PARALLEL_MIN_SIZE),
    ensures
        planned_for(total, ranges).len() == 1,
{
}

/// A blob over the threshold is fetched over several connections if the upstream honours ranges,
/// and none of them is asked for the whole of it.
pub proof fn law_large_blob_is_split(total: u64)
    requires
        total > PARALLEL_MIN_SIZE,
    ensures
        planned_for(Some(total), true).len() >= 2,
        forall|i: int|
            0 <= i < planned_for(Some(total), true).len() ==> (#[trigger] planned_for(
                Some(total),
                true,
            )[i]).end - planned_for(Some(total), true)[i].start < total,
{
    let t = total as int;
    let plan = planned(t);
    lemma_planned(t);
    lemma_ceil_div(t, SEGMENT_TARGET as int);
    let n = connections(t);
    let per = segment_len(t);
    assert(n >= 2) by {
        assert(ceil_div(t, SEGMENT_TARGET as int) >= 2) by (nonlinear_arith)
            requires
                t <= ceil_div(t, SEGMENT_TARGET as int) * SEGMENT_TARGET,
                t > SEGMENT_TARGET,
        ;
    }
    lemma_ceil_div(t, n);
    assert(per < t) by (nonlinear_arith)
        requires
            (per - 1) * n < t,
            n >= 2,
            t > 2,
            per >= 1,
    ;
    law_plan_covers_the_blob(t);
    assert forall|i: int| 0 <= i < plan.len() implies (#[trigger] plan[i]).end - plan[i].start
        < total by {
        assert(0 <= i * per && (i + 1) * per == i * per + per) by (nonlinear_arith)
            requires
                0 <= i,
                per >= 1,
        ;
        assert(i * per <= (n - 1) * per) by (nonlinear_arith)
            requires
                i <= n - 1,
                per >= 1,
        ;
    }
}

/// A blob over the threshold whose upstream honours ranges is cut evenly. It is given a connection
/// for every 32 MiB or part of that, up to eight. All segments but the last are of one length, the
/// least with which so many cover the blob, and the last is no longer.
pub proof fn law_split_is_even(total: u64, i: int)
    requires
        total > 32 * 1024 * 1024,
        0 <= i < planned_for(Some(total), true).len(),
    ensures
        ({
            let plan = planned_for(Some(total), true);
            let n = plan.len() as int;
            let per = plan[0].end as int;
            &&& 2 <= n <= 8
            &&& n < 8 ==> total <= n * (32 * 1024 * 1024)
            &&& (n - 1) * (32 * 1024 * 1024) < total
            &&& (per - 1) * n < total <= per * n
            &&& plan[0].start == 0
            &&& plan[n - 1].end == total
            &&& i > 0 ==> plan[i].start == plan[i - 1].end
            &&& i < n - 1 ==> plan[i].end - plan[i].start == per
            &&& 0 < plan[i].end - plan[i].start <= per
        }),
{
    let t = total as int;
    let plan = planned_for(Some(total), true);
    lemma_planned(t);
    law_large_blob_is_split(total);
    law_plan_covers_the_blob(t);
    let n = connections(t);
    let per = segment_len(t);
    let wanted = ceil_div(t, SEGMENT_TARGET as int);
    lemma_ceil_div(t, SEGMENT_TARGET as int);
    lemma_ceil_div(t, n);
    assert(plan.len() == n);
    assert(1 * per == per && 0 * per == 0) by (nonlinear_arith);
    assert(per < t) by (nonlinear_arith)
        requires
            (n - 1) * per < t,
            n >= 2,
            per >= 1,
    ;
    assert(plan[0].end == per);
    assert((n - 1) * (32 * 1024 * 1024) <= (wanted - 1) * (32 * 1024 * 1024)) by (nonlinear_arith)
        requires
            n <= wanted,
    ;
    if i > 0 {
        assert(joined(plan, i));
    }
    assert(0 <= i * per && (i + 1) * per == i * per + per && i * per <= (n - 1) * per)
        by (nonlinear_arith)
        requires
            0 <= i <= n - 1,
            per >= 1,
    ;
    if i < n - 1 {
        assert((i + 1) * per <= (n - 1) * per) by (nonlinear_arith)
            requires
                i + 1 <= n - 1,
                per >= 1,
        ;
    }
}

/// Where a blob is not split, the one segment is all of it, or has no end if its size is not known.
pub proof fn law_one_segment_is_the_blob(total: Option<u64>, ranges: bool)
    requires
        !ranges || (total matches Some(t) ==> t <= 32 * 1024 * 1024),
    ensures
        planned_for(total, ranges).len() == 1,
        planned_for(total, ranges)[0].start == 0,
        planned_for(total, ranges)[0].end == (match total {
            Some(t) => t,
            None => u64::MAX,
        }),
{
}

/// An upstream is asked whether it honours ranges exactly when the answer makes a difference to the
/// number of connections.
pub proof fn law_probe_makes_a_difference(total: Option<u64>, probe: bool)
    requires
        call_ensures(needs_probe, (total,), probe),
    ensures
        probe <==> planned_for(total, true).len() != planned_for(total, false).len(),
{
    match total {
        Some(t) => {
            if t > PARALLEL_MIN_SIZE {
                law_large_blob_is_split(t);
            }
        },
        None => {},
    }
}

/// The plan that a download is given covers the blob from its first byte to its end, or without end
/// if its size is not known, in one piece unless the upstream honours ranges.
pub proof fn law_plan_of_a_download_covers_it(total: Option<u64>, ranges: bool, plan: Vec<Segment>)
    requires
        call_ensures(plan_download, (total, ranges), plan),
        total matches Some(t) ==> (ranges ==> t <= u64::MAX - 7),
    ensures
        1 <= plan@.len() <= 8,
        plan@[0].start == 0,
        plan@[plan@.len() - 1].end == (match total {
            Some(t) => t,
            None => u64::MAX,
        }),
        forall|i: int|
            0 < i < plan@.len() ==> (#[trigger] plan@[i]).start == plan@[i - 1].end,
        !ranges ==> plan@.len() == 1,
        total matches Some(t) ==> (plan@.len() > 1 <==> ranges && t > 32 * 1024 * 1024),
{
    assert forall|i: int| 0 < i < plan@.len() implies (#[trigger] plan@[i]).start == plan@[i
        - 1].end by {
        assert(joined(plan@, i));
    }
    match total {
        Some(t) => {
            if t > PARALLEL_MIN_SIZE {
                law_large_blob_is_split(t);
            }
        },
        None => {},
    }
}

} // verus!
