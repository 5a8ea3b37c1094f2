//! What has been written of a blob whose segments arrive out of order.

use vstd::prelude::*;
use crate::segment::{joined, tiles, Segment};

verus! {

/// The segments of a blob and how far each of them has come.
#[derive(Debug)]
pub struct DownloadState {
    pub plan: Vec<Segment>,
    /// Bytes written by each segment, indexed alongside `plan`.
    pub written: Vec<u64>,
}

impl DownloadState {
    /// The offset at which segment `i` writes next.
    pub open spec fn reached(self, i: int) -> int {
        self.plan@[i].start + self.written@[i]
    }

    /// All of segment `i` has been written.
    pub open spec fn complete(self, i: int) -> bool {
        self.reached(i) >= self.plan@[i].end
    }

    /// How many bytes segment `i` still takes.
    pub open spec fn left(self, i: int) -> int {
        if self.complete(i) {
            0
        } else {
            self.plan@[i].end - self.reached(i)
        }
    }

    /// There is one count per segment, and every offset reached is a number of bytes.
    pub open spec fn countable(self) -> bool {
        &&& self.plan@.len() == self.written@.len()
        &&& forall|i: int| 0 <= i < self.plan@.len() ==> #[trigger] self.reached(i) <= u64::MAX
    }

    /// There is one count per segment, and no segment has been written past its end.
    pub open spec fn wf(self) -> bool {
        &&& self.plan@.len() == self.written@.len()
        &&& forall|i: int|
            0 <= i < self.plan@.len() ==> #[trigger] self.reached(i) <= self.plan@[i].end
    }

    /// In `after`, segment `idx` has written `n` bytes more, and nothing else is different.
    pub open spec fn advanced(self, idx: int, n: int, after: DownloadState) -> bool {
        &&& after.plan@ == self.plan@
        &&& after.written@ == self.written@.update(idx, (self.written@[idx] + n) as u64)
        &&& after.reached(idx) == self.reached(idx) + n
        &&& forall|i: int|
            0 <= i < self.plan@.len() && i != idx ==> #[trigger] after.reached(i) == self.reached(i)
    }

    /// Where reading on from segment `i` stops: inside the first segment that is not complete,
    /// or at the end of the last one.
    pub open spec fn readable_from(self, i: int) -> int
        decreases self.plan@.len() - i,
    {
        if i + 1 >= self.plan@.len() || !self.complete(i) {
            self.reached(i)
        } else {
            self.readable_from(i + 1)
        }
    }

    /// The number of bytes that can be read from byte 0 on.
    pub open spec fn readable(self) -> int {
        if self.plan@.len() == 0 {
            0
        } else {
            self.readable_from(0)
        }
    }

    /// Byte `o` of the blob has been written by the segment that owns it.
    pub open spec fn landed(self, o: int) -> bool {
        exists|i: int|
            0 <= i < self.plan@.len() && (#[trigger] self.plan@[i]).start <= o < self.reached(i)
    }

    /// Every byte that has been written is the blob's own byte at that offset.
    pub open spec fn holds(self, file: Map<int, u8>, blob: Seq<u8>) -> bool {
        forall|o: int| #[trigger]
            self.landed(o) ==> 0 <= o < blob.len() && file.contains_key(o) && file[o] == blob[o]
    }

    /// Starts with nothing written.
    pub fn new(plan: Vec<Segment>) -> (state: DownloadState)
        ensures
            state.plan@ == plan@,
            state.written@ == Seq::new(plan@.len(), |i: int| 0u64),
            state.countable(),
            (forall|i: int| 0 <= i < plan@.len() ==> (#[trigger] plan@[i]).start <= plan@[i].end)
                ==> state.wf(),
    {
        let mut written: Vec<u64> = Vec::new();
        let n: usize = plan.len();
        let mut i: usize = 0;
        while i < n
            invariant
                n == plan@.len(),
                i <= n,
                written@ == Seq::new(i as nat, |j: int| 0u64),
            decreases n - i,
        {
            written.push(0);
            i = i + 1;
            assert(written@ =~= Seq::new(i as nat, |j: int| 0u64));
        }
        DownloadState { plan, written }
    }

    /// Bytes readable from byte 0 without hitting a hole.
    ///
    /// NOT the sum of all segments: segments complete out of order, so a finished tail
    /// contributes nothing until everything before it has landed. Readers tail the file against
    /// this number, so publishing the sum would hand them sparse zeroes.
    pub fn contiguous(&self) -> (prefix: u64)
        requires
            self.countable(),
        ensures
            prefix == self.readable(),
    {
        let n: usize = self.plan.len();
        if n == 0 {
            return 0;
        }
        let mut i: usize = 0;
        loop
            invariant
                n == self.plan@.len(),
                i < n,
                self.countable(),
                self.readable() == self.readable_from(i as int),
            decreases n - i,
        {
            assert(self.reached(i as int) <= u64::MAX);
            let prefix: u64 = self.plan[i].start + self.written[i];
            if prefix < self.plan[i].end || i == n - 1 {
                return prefix;
            }
            i = i + 1;
        }
    }

    /// The offset at which segment `idx` writes next.
    pub fn position(&self, idx: usize) -> (pos: u64)
        requires
            self.countable(),
            idx < self.plan@.len(),
        ensures
            pos == self.reached(idx as int),
    {
        assert(self.reached(idx as int) <= u64::MAX);
        self.plan[idx].start + self.written[idx]
    }

    /// How many bytes segment `idx` still takes.
    pub fn room(&self, idx: usize) -> (room: u64)
        requires
            self.countable(),
            idx < self.plan@.len(),
        ensures
            room == self.left(idx as int),
    {
        let pos: u64 = self.position(idx);
        self.plan[idx].end.saturating_sub(pos)
    }

    /// Counts `n` more bytes of segment `idx` as written.
    pub fn advance(&mut self, idx: usize, n: u64)
        requires
            old(self).wf(),
            idx < old(self).plan@.len(),
            n <= old(self).left(idx as int),
        ensures
            final(self).wf(),
            old(self).advanced(idx as int, n as int, *final(self)),
    {
        let ghost before = *self;
        assert(before.reached(idx as int) <= before.plan@[idx as int].end);
        let done: u64 = self.written[idx];
        self.written.set(idx, done + n);
        assert forall|i: int| 0 <= i < self.plan@.len() implies #[trigger] self.reached(i)
            <= self.plan@[i].end && (i != idx ==> self.reached(i) == before.reached(i)) by {
            assert(before.reached(i) <= before.plan@[i].end);
        }
    }
}

/// A file after `data` has been written into it at offset `at`.
pub open spec fn overwritten(file: Map<int, u8>, at: int, data: Seq<u8>) -> Map<int, u8> {
    Map::new(
        |o: int| file.contains_key(o) || at <= o < at + data.len(),
        |o: int|
            if at <= o < at + data.len() {
                data[o - at]
            } else {
                file[o]
            },
    )
}

/// The first `n` bytes of a file.
pub open spec fn file_content(file: Map<int, u8>, n: int) -> Seq<u8> {
    Seq::new(n as nat, |o: int| file[o])
}

/// Segments of a tiling lie one behind the other.
pub(crate) proof fn lemma_ordered(plan: Seq<Segment>, total: int, i: int, j: int)
    requires
        tiles(plan, total),
        0 <= i < j < plan.len(),
    ensures
        plan[i].end <= plan[j].start,
    decreases j - i,
{
    assert(joined(plan, j));
    if i < j - 1 {
        lemma_ordered(plan, total, i, j - 1);
        assert(plan[j - 1].start <= plan[j - 1].end);
    }
}

/// Every offset before segment `k` of a tiling lies in an earlier segment.
proof fn lemma_owner(plan: Seq<Segment>, total: int, k: int, o: int) -> (i: int)
    requires
        tiles(plan, total),
        0 <= k < plan.len(),
        0 <= o < plan[k].start,
    ensures
        0 <= i < k,
        plan[i].start <= o < plan[i].end,
    decreases k,
{
    assert(k > 0);
    assert(joined(plan, k));
    if plan[k - 1].start <= o {
        k - 1
    } else {
        lemma_owner(plan, total, k - 1, o)
    }
}

/// Reading on from segment `i` stops at segment `k`, with everything between them complete.
pub(crate) proof fn lemma_stop(state: DownloadState, i: int) -> (k: int)
    requires
        0 <= i < state.plan@.len(),
    ensures
        i <= k < state.plan@.len(),
        state.readable_from(i) == state.reached(k),
        forall|j: int| i <= j < k ==> #[trigger] state.complete(j),
        !state.complete(k) || k == state.plan@.len() - 1,
    decreases state.plan@.len() - i,
{
    if i + 1 >= state.plan@.len() || !state.complete(i) {
        i
    } else {
        lemma_stop(state, i + 1)
    }
}

/// The readable prefix has no hole: every byte before it has been written.
pub proof fn law_readable_has_no_hole(state: DownloadState, total: int, o: int)
    requires
        state.wf(),
        tiles(state.plan@, total),
        0 <= o < state.readable(),
    ensures
        state.landed(o),
{
    let k = lemma_stop(state, 0);
    if o < state.plan@[k].start {
        let i = lemma_owner(state.plan@, total, k, o);
        assert(state.complete(i));
        assert(state.plan@[i].start <= o < state.reached(i));
    } else {
        assert(state.plan@[k].start <= o < state.reached(k));
    }
}

/// The readable prefix is as long as it can be: unless it is the whole blob, the byte behind it
/// has not been written.
pub proof fn law_readable_ends_at_a_hole(state: DownloadState, total: int)
    requires
        state.wf(),
        tiles(state.plan@, total),
    ensures
        0 <= state.readable() <= total,
        state.readable() < total ==> !state.landed(state.readable()),
{
    if state.plan@.len() > 0 {
        let k = lemma_stop(state, 0);
        let last = state.plan@.len() - 1;
        assert(state.reached(k) <= state.plan@[k].end);
        assert(state.plan@[k].start <= state.plan@[k].end);
        if k < last {
            lemma_ordered(state.plan@, total, k, last);
            assert(state.plan@[last].start <= state.plan@[last].end);
        }
        if state.readable() < total {
            assert(!state.complete(k));
            let o = state.reached(k);
            assert forall|i: int| 0 <= i < state.plan@.len() implies !((
            #[trigger] state.plan@[i]).start <= o < state.reached(i)) by {
                assert(state.reached(i) <= state.plan@[i].end);
                if i < k {
                    lemma_ordered(state.plan@, total, i, k);
                } else if i > k {
                    lemma_ordered(state.plan@, total, k, i);
                }
            }
        }
    }
}

/// The whole blob is readable exactly when every segment is complete.
pub proof fn law_readable_is_total_when_complete(state: DownloadState, total: int)
    requires
        state.wf(),
        tiles(state.plan@, total),
    ensures
        state.readable() == total <==> (forall|i: int|
            0 <= i < state.plan@.len() ==> #[trigger] state.complete(i)),
{
    if state.plan@.len() > 0 {
        let k = lemma_stop(state, 0);
        let last = state.plan@.len() - 1;
        assert(state.reached(k) <= state.plan@[k].end);
        if k < last {
            lemma_ordered(state.plan@, total, k, last);
            assert(state.plan@[last].start <= state.plan@[last].end);
            assert(!state.complete(k));
        } else if state.readable() == total {
            assert(state.complete(last));
        } else if state.complete(last) {
            assert(state.reached(last) == state.plan@[last].end);
        }
    }
}

/// Writing more never shortens what is readable: progress only moves forward.
pub proof fn law_readable_never_shrinks(before: DownloadState, after: DownloadState, total: int)
    requires
        before.wf(),
        after.wf(),
        before.plan@ == after.plan@,
        tiles(before.plan@, total),
        forall|i: int|
            0 <= i < before.plan@.len() ==> #[trigger] before.written@[i] <= after.written@[i],
    ensures
        before.readable() <= after.readable(),
{
    law_readable_ends_at_a_hole(before, total);
    law_readable_ends_at_a_hole(after, total);
    if after.readable() < before.readable() {
        let o = after.readable();
        law_readable_has_no_hole(before, total, o);
        let i = choose|i: int|
            0 <= i < before.plan@.len() && (#[trigger] before.plan@[i]).start <= o
                < before.reached(i);
        assert(before.written@[i] <= after.written@[i]);
        assert(after.plan@[i].start <= o < after.reached(i));
        assert(after.landed(o));
    }
}

/// A finished segment behind an unfinished one adds nothing: what is readable does not depend on
/// the segments behind the first one that is not complete.
pub proof fn law_tail_adds_nothing_behind_a_hole(a: DownloadState, b: DownloadState, k: int)
    requires
        a.plan@ == b.plan@,
        a.written@.len() == a.plan@.len(),
        b.written@.len() == b.plan@.len(),
        0 <= k < a.plan@.len(),
        !a.complete(k),
        forall|i: int| 0 <= i <= k ==> #[trigger] a.written@[i] == b.written@[i],
    ensures
        a.readable() == b.readable(),
{
    lemma_same_up_to(a, b, k, 0);
}

proof fn lemma_same_up_to(a: DownloadState, b: DownloadState, k: int, i: int)
    requires
        a.plan@ == b.plan@,
        0 <= i <= k < a.plan@.len(),
        !a.complete(k),
        forall|j: int| 0 <= j <= k ==> #[trigger] a.written@[j] == b.written@[j],
    ensures
        a.readable_from(i) == b.readable_from(i),
    decreases k - i,
{
    assert(a.written@[i] == b.written@[i]);
    assert(a.written@[k] == b.written@[k]);
    if i < k {
        lemma_same_up_to(a, b, k, i + 1);
    }
}

/// A segment that writes the blob's own bytes where it stopped keeps the file true to the blob.
pub proof fn law_write_keeps_the_blob(
    before: DownloadState,
    after: DownloadState,
    idx: int,
    file: Map<int, u8>,
    blob: Seq<u8>,
    data: Seq<u8>,
)
    requires
        before.wf(),
        after.wf(),
        before.plan@ == after.plan@,
        0 <= idx < before.plan@.len(),
        before.holds(file, blob),
        before.reached(idx) + data.len() <= blob.len(),
        data == blob.subrange(before.reached(idx), before.reached(idx) + data.len()),
        after.reached(idx) == before.reached(idx) + data.len(),
        forall|i: int|
            0 <= i < before.plan@.len() && i != idx ==> #[trigger] after.reached(i)
                == before.reached(i),
    ensures
        after.holds(overwritten(file, before.reached(idx), data), blob),
{
    let at = before.reached(idx);
    let file2 = overwritten(file, at, data);
    assert forall|o: int| #[trigger] after.landed(o) implies 0 <= o < blob.len()
        && file2.contains_key(o) && file2[o] == blob[o] by {
        if at <= o < at + data.len() {
            assert(data[o - at] == blob[o]);
        } else {
            let i = choose|i: int|
                0 <= i < after.plan@.len() && (#[trigger] after.plan@[i]).start <= o
                    < after.reached(i);
            assert(before.plan@[i].start <= o < before.reached(i));
            assert(before.landed(o));
        }
    }
}

/// As long as every byte written is the blob's own, what a reader is offered is a prefix of the
/// blob, byte for byte.
pub proof fn law_readable_prefix_is_the_blob(
    state: DownloadState,
    total: int,
    file: Map<int, u8>,
    blob: Seq<u8>,
)
    requires
        state.wf(),
        tiles(state.plan@, total),
        state.holds(file, blob),
    ensures
        state.readable() <= blob.len(),
        forall|o: int|
            0 <= o < state.readable() ==> (#[trigger] file.contains_key(o)) && file[o] == blob[o],
{
    assert forall|o: int| 0 <= o < state.readable() implies (#[trigger] file.contains_key(o))
        && file[o] == blob[o] by {
        law_readable_has_no_hole(state, total, o);
    }
    if state.readable() > blob.len() {
        law_readable_has_no_hole(state, total, blob.len() as int);
    }
}

/// The number that is published is that of the bytes that can be read without a hole, and a write
/// counts for the segment that made it and for no other.
pub proof fn law_counts_are_kept_by_segment()
    ensures
        forall|state: &DownloadState, n: u64|
            #[trigger] call_ensures(DownloadState::contiguous, (state,), n) && state.countable()
                ==> n == state.readable(),
        forall|state: &mut DownloadState, idx: usize, n: u64|
            #[trigger] call_ensures(DownloadState::advance, (state, idx, n), ()) && state.wf() && idx
                < state.plan@.len() && n <= state.left(idx as int) ==> final(state).plan@
                == state.plan@ && final(state).written@.len() == state.written@.len() && final(state).written@[idx as int] == state.written@[idx as int] + n && (forall|i: int|
                0 <= i < state.written@.len() && i != idx ==> #[trigger] final(state).written@[i]
                    == state.written@[i]),
{
}

} // verus!
