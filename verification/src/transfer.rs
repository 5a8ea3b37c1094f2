//! All the segments of a blob together: what ends up in the file, and what readers get of it.
//!
//! The segments take their steps in any order. Each has a connection of its own and a file handle
//! of its own, and all of them write into the same file.
//!
//! Bytes count as written, and are in [`Transfer::file`], from the moment the write is reported. To
//! those who read through another handle they are there for certain once the segment that wrote
//! them has flushed its handle ([`Transfer::settled`]). A segment flushes its own bytes before it
//! publishes, not those of the other segments.

use vstd::prelude::*;
use crate::chunk::held;
use crate::digest::{blob_digest, digest_accepted};
use crate::download::OpenDownload;
use crate::fetch::{
    law_segments_do_not_interfere, redialled, stepped, SegmentAction, SegmentEvent, SegmentFetch,
    SegmentPhase, SegmentRun,
};
use crate::progress::DownloadProgress;
use crate::segment::{law_plan_covers_the_blob, planned_for, tiles, OPEN_END};
use crate::state::{
    file_content, law_readable_ends_at_a_hole, law_readable_has_no_hole,
    law_readable_is_total_when_complete, law_readable_never_shrinks,
    law_readable_prefix_is_the_blob, law_write_keeps_the_blob, lemma_ordered, overwritten,
    DownloadState,
};
use crate::stream::{Answer, StreamRun};
use crate::tail::{
    end_of_rounds, follows, handed_out, law_eof_means_the_whole_blob,
    law_reader_hands_out_the_file, offered, read_limit,
};

verus! {

/// A transfer at one moment. Its sequences are indexed alongside the plan.
pub struct Transfer {
    pub state: DownloadState,
    pub fetches: Seq<SegmentFetch>,
    /// What each segment wants done.
    pub actions: Seq<SegmentAction>,
    /// Where the file handle of each segment stands.
    pub cursors: Seq<int>,
    /// Which byte of the blob comes next on the connection of each segment.
    pub bodies: Seq<int>,
    /// The bytes of the file that have been written.
    pub file: Map<int, u8>,
    /// Up to which offset each segment has flushed what it wrote.
    pub flushed: Seq<int>,
    /// What those who wait for the download have been told last.
    pub progress: DownloadProgress,
}

/// The offset that an action positions the file at.
pub open spec fn target(action: SegmentAction) -> int {
    match action {
        SegmentAction::ReadSeed { pos } => pos as int,
        SegmentAction::Request { pos, .. } => pos as int,
        _ => 0,
    }
}

/// The bytes that an action writes.
pub open spec fn payload(action: SegmentAction) -> Seq<u8> {
    match action {
        SegmentAction::Write(data) => held(data),
        _ => Seq::empty(),
    }
}

/// The next byte of the body is byte `at` of the blob, and the reading is on its way to the offset
/// that the segment has reached, unless the segment takes no more.
pub open spec fn on_track(stream: StreamRun, state: DownloadState, at: int) -> bool {
    ||| at + stream.skip == state.reached(stream.idx as int)
    ||| stream.skip == 0 && state.left(stream.idx as int) == 0
}

impl Transfer {
    /// Where the file handle of segment `i` stands after the event: a connection begins with a
    /// seek, and a write moves the handle on.
    pub open spec fn cursor_after(self, i: int, event: SegmentEvent) -> int {
        match event {
            SegmentEvent::Positioned => target(self.actions[i]),
            SegmentEvent::Opened(_) => target(self.actions[i]),
            SegmentEvent::Refused(_) => target(self.actions[i]),
            SegmentEvent::Written => self.cursors[i] + payload(self.actions[i]).len(),
            _ => self.cursors[i],
        }
    }

    /// Which byte of the blob comes next for segment `i` after the event. The stream that is open
    /// from the start begins at byte 0, and so does the answer of an upstream that ignores the
    /// range.
    pub open spec fn body_after(self, i: int, event: SegmentEvent) -> int {
        match event {
            SegmentEvent::Positioned => 0,
            SegmentEvent::Opened(Answer::Full) => 0,
            SegmentEvent::Opened(Answer::Partial) => target(self.actions[i]),
            SegmentEvent::Chunk(chunk) => self.bodies[i] + held(chunk).len(),
            _ => self.bodies[i],
        }
    }

    /// The file after the event.
    pub open spec fn file_after(self, i: int, event: SegmentEvent) -> Map<int, u8> {
        if event is Written {
            overwritten(self.file, self.cursors[i], payload(self.actions[i]))
        } else {
            self.file
        }
    }

    /// Up to where segment `i` has flushed after the event.
    pub open spec fn flushed_after(self, i: int, event: SegmentEvent) -> int {
        if event is Flushed {
            self.cursors[i]
        } else {
            self.flushed[i]
        }
    }

    /// What those who wait have been told when `action` has been asked for. What is to be published
    /// is published at once, and nothing else of the progress changes.
    pub open spec fn progress_after(self, action: SegmentAction) -> DownloadProgress {
        match action {
            SegmentAction::Publish(n) => DownloadProgress { written: n, ..self.progress },
            _ => self.progress,
        }
    }

    /// Byte `o` has been written and flushed by the segment that owns it.
    pub open spec fn settled(self, o: int) -> bool {
        exists|i: int|
            0 <= i < self.flushed.len() && (#[trigger] self.state.plan@[i]).start <= o
                < self.flushed[i]
    }

    /// Where the plan ends.
    pub open spec fn extent(self) -> int {
        if self.state.plan@.len() == 0 {
            0
        } else {
            self.state.plan@[self.state.plan@.len() - 1].end as int
        }
    }

    /// The upstream is honest: what it sends is the blob. It may refuse, stall, or break off
    /// whenever it likes, but if the size is not known the end of a body is the end of the blob.
    pub open spec fn honest(self, i: int, event: SegmentEvent, blob: Seq<u8>) -> bool {
        match event {
            SegmentEvent::Chunk(chunk) => {
                let at = self.bodies[i];
                &&& at + held(chunk).len() <= blob.len()
                &&& held(chunk) == blob.subrange(at, at + held(chunk).len())
            },
            SegmentEvent::Ended => self.state.plan@[i].end == OPEN_END ==> self.bodies[i]
                == blob.len(),
            _ => true,
        }
    }

    /// Every sequence has its place for every segment.
    pub open spec fn aligned(self) -> bool {
        &&& self.fetches.len() == self.state.plan@.len()
        &&& self.actions.len() == self.state.plan@.len()
        &&& self.cursors.len() == self.state.plan@.len()
        &&& self.bodies.len() == self.state.plan@.len()
        &&& self.flushed.len() == self.state.plan@.len()
    }

    /// Segment `i` has begun. Only the first is given the stream that is already open.
    pub open spec fn begun(self, i: int, digest: Seq<char>) -> bool {
        &&& self.state.written@[i] == 0
        &&& self.flushed[i] == self.state.plan@[i].start
        &&& self.fetches[i].inv(self.state)
        &&& redialled(
            SegmentRun { idx: i as usize, attempt: 0, seeded: i == 0, last_err: None },
            self.state,
            digest,
            self.fetches[i],
            self.actions[i],
        )
    }

    /// Every segment has begun, nothing has been written, and the size has been announced if it is
    /// known.
    pub open spec fn starts(self, total: Option<u64>, digest: Seq<char>) -> bool {
        &&& self.aligned()
        &&& self.state.wf()
        &&& self.state.plan@.len() <= usize::MAX
        &&& self.progress == (DownloadProgress { written: 0, expected: total, terminal: None })
        &&& forall|i: int| 0 <= i < self.fetches.len() ==> #[trigger] self.begun(i, digest)
    }

    /// Segment `i` takes a step, and the others do not.
    pub open spec fn leads_to(
        self,
        i: int,
        event: SegmentEvent,
        digest: Seq<char>,
        blob: Seq<u8>,
        after: Transfer,
    ) -> bool {
        &&& 0 <= i < self.fetches.len()
        &&& self.honest(i, event, blob)
        &&& stepped(
            self.fetches[i],
            self.state,
            event,
            digest,
            after.fetches[i],
            after.state,
            after.actions[i],
        )
        &&& after.state.wf()
        &&& after.fetches[i].inv(after.state)
        &&& after.fetches == self.fetches.update(i, after.fetches[i])
        &&& after.actions == self.actions.update(i, after.actions[i])
        &&& after.cursors == self.cursors.update(i, self.cursor_after(i, event))
        &&& after.bodies == self.bodies.update(i, self.body_after(i, event))
        &&& after.file == self.file_after(i, event)
        &&& after.flushed == self.flushed.update(i, self.flushed_after(i, event))
        &&& after.progress == self.progress_after(after.actions[i])
    }

    /// The body that segment `i` reads comes where the segment has stopped, and so does the file
    /// handle.
    pub open spec fn reads_on(self, i: int, stream: StreamRun) -> bool {
        &&& self.cursors[i] == self.state.reached(i)
        &&& 0 <= self.bodies[i]
        &&& on_track(stream, self.state, self.bodies[i])
    }

    /// Segment `i` of unknown extent has come to the end of the blob.
    pub open spec fn at_end(self, i: int, blob: Seq<u8>) -> bool {
        self.state.plan@[i].end == OPEN_END ==> self.state.reached(i) == blob.len()
    }

    /// Segment `i` is where it should be.
    pub open spec fn in_order(self, i: int, blob: Seq<u8>) -> bool {
        let fetch = self.fetches[i];
        let pos = self.state.reached(i);
        &&& fetch.run.idx == i
        &&& fetch.inv(self.state)
        &&& self.state.plan@[i].start <= blob.len()
        &&& self.state.plan@[i].start <= self.flushed[i] <= pos
        &&& match fetch.phase {
            SegmentPhase::Seeding => {
                &&& self.actions[i] is ReadSeed
                &&& target(self.actions[i]) == pos
                &&& pos == 0
                &&& self.flushed[i] == pos
            },
            SegmentPhase::Dialing { pos: asked } => {
                &&& self.actions[i] is Request
                &&& target(self.actions[i]) == asked
                &&& self.flushed[i] == pos
            },
            SegmentPhase::Reading(stream) => self.reads_on(i, stream),
            SegmentPhase::Writing(stream, n) => {
                &&& self.cursors[i] == pos
                &&& 0 <= self.bodies[i]
                &&& payload(self.actions[i]).len() == n
                &&& pos + n <= blob.len()
                &&& payload(self.actions[i]) == blob.subrange(pos, pos + n)
                &&& self.bodies[i] + stream.skip == pos + n || (stream.skip == 0 && n
                    == self.state.left(i))
            },
            SegmentPhase::Flushing(stream) => self.reads_on(i, stream),
            SegmentPhase::Publishing(stream) => self.reads_on(i, stream) && self.flushed[i] == pos,
            SegmentPhase::Timing(stream) => self.reads_on(i, stream),
            SegmentPhase::Closing(end) => {
                &&& self.cursors[i] == pos
                &&& end is Finished || end is Boundary ==> self.at_end(i, blob)
            },
            SegmentPhase::Reporting(end) => {
                &&& self.flushed[i] == pos
                &&& end is Finished || end is Boundary ==> self.at_end(i, blob)
            },
            SegmentPhase::Syncing => self.flushed[i] == pos && self.at_end(i, blob),
            SegmentPhase::Over => {
                &&& self.flushed[i] == pos
                &&& self.actions[i] is Finish ==> self.state.complete(i) || (
                self.state.plan@[i].end == OPEN_END && self.at_end(i, blob))
            },
        }
    }

    /// What has been told of the download so far is right: no more of the file has been promised
    /// than is readable, the size is that of the blob, and the download is not over.
    pub open spec fn told_right(self, blob: Seq<u8>) -> bool {
        &&& self.progress.written <= self.state.readable()
        &&& self.progress.expected matches Some(size) ==> size == blob.len()
        &&& self.progress.terminal is None
    }

    /// The plan has no gap, the file is true to the blob, every segment is where it should be, and
    /// what has been told of the download is right.
    pub open spec fn sound(self, blob: Seq<u8>) -> bool {
        &&& self.aligned()
        &&& self.state.wf()
        &&& tiles(self.state.plan@, self.extent())
        &&& self.state.holds(self.file, blob)
        &&& forall|i: int| 0 <= i < self.fetches.len() ==> #[trigger] self.in_order(i, blob)
        &&& self.told_right(blob)
    }

    /// Every segment has reported success.
    pub open spec fn finished(self) -> bool {
        forall|i: int|
            0 <= i < self.fetches.len() ==> (#[trigger] self.fetches[i]).phase is Over
                && self.actions[i] is Finish
    }

    /// The progress once the download has ended well: its result is what is readable.
    pub open spec fn concluded(self) -> DownloadProgress {
        DownloadProgress {
            terminal: Some(Ok::<u64, String>(self.state.readable() as u64)),
            ..self.progress
        }
    }
}

/// No segment starts behind the end of the blob that the plan was made for.
proof fn lemma_starts_in_blob(total: Option<u64>, ranges: bool, blob: Seq<u8>, i: int)
    requires
        total matches Some(t) ==> t == blob.len(),
        0 <= i < planned_for(total, ranges).len(),
    ensures
        planned_for(total, ranges)[i].start <= blob.len(),
        total is Some ==> planned_for(total, ranges)[i].end <= blob.len(),
        tiles(
            planned_for(total, ranges),
            planned_for(total, ranges)[planned_for(total, ranges).len() - 1].end as int,
        ),
{
    let plan = planned_for(total, ranges);
    match total {
        Some(t) => {
            law_plan_covers_the_blob(t as int);
            assert(tiles(plan, t as int));
            assert(plan[i].start <= plan[i].end);
            if i < plan.len() - 1 {
                lemma_ordered(plan, t as int, i, plan.len() - 1);
                assert(plan[plan.len() - 1].start <= plan[plan.len() - 1].end);
            }
        },
        None => {},
    }
}

/// A transfer is sound when it starts.
pub proof fn law_transfer_starts_sound(
    transfer: Transfer,
    digest: Seq<char>,
    total: Option<u64>,
    ranges: bool,
    blob: Seq<u8>,
)
    requires
        transfer.starts(total, digest),
        transfer.state.plan@ == planned_for(total, ranges),
        total matches Some(t) ==> t == blob.len(),
    ensures
        transfer.sound(blob),
{
    let state = transfer.state;
    assert forall|o: int| !#[trigger] state.landed(o) by {
        assert forall|i: int| 0 <= i < state.plan@.len() implies !((
        #[trigger] state.plan@[i]).start <= o < state.reached(i)) by {
            assert(transfer.begun(i, digest));
        }
    }
    assert forall|i: int| 0 <= i < transfer.fetches.len() implies #[trigger] transfer.in_order(
        i,
        blob,
    ) by {
        assert(transfer.begun(i, digest));
        lemma_starts_in_blob(total, ranges, blob, i);
    }
    assert(state.plan@.len() > 0) by {
        if total is Some {
            law_plan_covers_the_blob(total->0 as int);
        }
    }
    lemma_starts_in_blob(total, ranges, blob, 0);
    assert(tiles(state.plan@, transfer.extent()));
    law_readable_ends_at_a_hole(state, transfer.extent());
}

/// What is reached lies within the blob.
proof fn lemma_within(transfer: Transfer, blob: Seq<u8>, i: int)
    requires
        transfer.sound(blob),
        0 <= i < transfer.fetches.len(),
    ensures
        transfer.state.reached(i) <= blob.len(),
{
    let state = transfer.state;
    assert(transfer.in_order(i, blob));
    if state.written@[i] > 0 {
        let o = state.reached(i) - 1;
        assert(state.plan@[i].start <= o < state.reached(i));
        assert(state.landed(o));
    }
}

/// The segment that takes a step is where it should be afterwards.
proof fn lemma_own_step(
    before: Transfer,
    i: int,
    event: SegmentEvent,
    digest: Seq<char>,
    blob: Seq<u8>,
    after: Transfer,
)
    requires
        before.sound(blob),
        before.leads_to(i, event, digest, blob, after),
        blob.len() <= u64::MAX,
    ensures
        after.in_order(i, blob),
{
    assert(before.in_order(i, blob));
    lemma_within(before, blob, i);
    let pos = before.state.reached(i);
    assert(pos <= before.state.plan@[i].end);
    match (before.fetches[i].phase, event) {
        (SegmentPhase::Reading(stream), SegmentEvent::Chunk(chunk)) => {
            if after.actions[i] is Write {
                let data = payload(after.actions[i]);
                assert(before.bodies[i] + stream.skip == pos);
                assert(data =~= blob.subrange(pos, pos + data.len()));
            }
        },
        _ => {},
    }
}

/// What is readable is a number of bytes.
proof fn lemma_readable_fits(transfer: Transfer)
    requires
        transfer.state.wf(),
        tiles(transfer.state.plan@, transfer.extent()),
    ensures
        0 <= transfer.state.readable() <= transfer.extent() <= u64::MAX,
{
    law_readable_ends_at_a_hole(transfer.state, transfer.extent());
}

/// A step keeps the plan, and what is readable does not shrink.
proof fn lemma_step_moves_forward(
    before: Transfer,
    i: int,
    event: SegmentEvent,
    digest: Seq<char>,
    blob: Seq<u8>,
    after: Transfer,
)
    requires
        before.sound(blob),
        before.leads_to(i, event, digest, blob, after),
    ensures
        after.state.plan@ == before.state.plan@,
        before.state.readable() <= after.state.readable(),
{
    assert(before.in_order(i, blob));
    assert forall|j: int| 0 <= j < before.state.plan@.len() implies #[trigger] before.state.written@[j]
        <= after.state.written@[j] by {
        if event is Written && j == i {
            assert(after.state.reached(i) >= before.state.reached(i));
        }
    }
    law_readable_never_shrinks(before.state, after.state, before.extent());
}

/// A step of one segment leaves the transfer sound, whatever the upstream does.
pub proof fn law_step_keeps_transfer_sound(
    before: Transfer,
    i: int,
    event: SegmentEvent,
    digest: Seq<char>,
    blob: Seq<u8>,
    after: Transfer,
)
    requires
        before.sound(blob),
        before.leads_to(i, event, digest, blob, after),
        blob.len() <= u64::MAX,
    ensures
        after.sound(blob),
{
    assert(before.in_order(i, blob));
    lemma_own_step(before, i, event, digest, blob, after);
    if event is Written {
        law_write_keeps_the_blob(
            before.state,
            after.state,
            i,
            before.file,
            blob,
            payload(before.actions[i]),
        );
    }
    assert forall|j: int| 0 <= j < after.fetches.len() implies #[trigger] after.in_order(
        j,
        blob,
    ) by {
        if j != i {
            assert(before.in_order(j, blob));
            law_segments_do_not_interfere(before.fetches[j], before.state, after.state);
        }
    }
    assert(tiles(after.state.plan@, after.extent()));
    law_readable_ends_at_a_hole(after.state, after.extent());
    lemma_step_moves_forward(before, i, event, digest, blob, after);
    if after.actions[i] is Publish {
        lemma_readable_fits(after);
    }
}

/// Moment `k` of a transfer follows from the one before it.
pub open spec fn follows_on(
    moments: Seq<Transfer>,
    steps: Seq<(int, SegmentEvent)>,
    digest: Seq<char>,
    blob: Seq<u8>,
    k: int,
) -> bool {
    moments[k - 1].leads_to(steps[k - 1].0, steps[k - 1].1, digest, blob, moments[k])
}

/// Some moments of a transfer, one step after the other.
pub open spec fn runs(
    moments: Seq<Transfer>,
    steps: Seq<(int, SegmentEvent)>,
    digest: Seq<char>,
    blob: Seq<u8>,
) -> bool {
    &&& moments.len() == steps.len() + 1
    &&& forall|k: int| 1 <= k < moments.len() ==> #[trigger] follows_on(moments, steps, digest, blob, k)
}

/// In whatever order the segments take their steps, and however often the upstream refuses, stalls
/// or breaks off, the transfer is sound at every moment.
pub proof fn law_transfer_stays_sound(
    moments: Seq<Transfer>,
    steps: Seq<(int, SegmentEvent)>,
    digest: Seq<char>,
    blob: Seq<u8>,
    k: int,
)
    requires
        runs(moments, steps, digest, blob),
        moments[0].sound(blob),
        blob.len() <= u64::MAX,
        0 <= k < moments.len(),
    ensures
        moments[k].sound(blob),
    decreases k,
{
    if k > 0 {
        law_transfer_stays_sound(moments, steps, digest, blob, k - 1);
        assert(follows_on(moments, steps, digest, blob, k));
        law_step_keeps_transfer_sound(
            moments[k - 1],
            steps[k - 1].0,
            steps[k - 1].1,
            digest,
            blob,
            moments[k],
        );
    }
}

/// At every moment of a sound transfer the readable prefix of the file is a prefix of the blob,
/// byte for byte.
pub proof fn law_readable_file_is_the_blob(transfer: Transfer, blob: Seq<u8>)
    requires
        transfer.sound(blob),
    ensures
        0 <= transfer.state.readable() <= blob.len(),
        file_content(transfer.file, transfer.state.readable()) == blob.take(
            transfer.state.readable(),
        ),
{
    let n = transfer.state.readable();
    law_readable_prefix_is_the_blob(transfer.state, transfer.extent(), transfer.file, blob);
    lemma_readable_fits(transfer);
    assert forall|o: int| 0 <= o < n implies transfer.file[o] == blob[o] by {
        assert(transfer.file.contains_key(o));
    }
    assert(file_content(transfer.file, n) =~= blob.take(n));
}

/// Progress only moves forward: what is readable never shrinks, nor does what has been published,
/// and the segments change nothing else of what is told.
pub proof fn law_progress_never_shrinks(
    moments: Seq<Transfer>,
    steps: Seq<(int, SegmentEvent)>,
    digest: Seq<char>,
    blob: Seq<u8>,
    earlier: int,
    later: int,
)
    requires
        runs(moments, steps, digest, blob),
        moments[0].sound(blob),
        blob.len() <= u64::MAX,
        0 <= earlier <= later < moments.len(),
    ensures
        moments[earlier].state.readable() <= moments[later].state.readable(),
        moments[earlier].progress.written <= moments[later].progress.written,
        moments[earlier].progress.expected == moments[later].progress.expected,
        moments[earlier].progress.terminal == moments[later].progress.terminal,
    decreases later - earlier,
{
    if earlier < later {
        law_progress_never_shrinks(moments, steps, digest, blob, earlier, later - 1);
        law_transfer_stays_sound(moments, steps, digest, blob, later - 1);
        law_transfer_stays_sound(moments, steps, digest, blob, later);
        assert(follows_on(moments, steps, digest, blob, later));
        let (i, event) = steps[later - 1];
        let before = moments[later - 1];
        let after = moments[later];
        lemma_step_moves_forward(before, i, event, digest, blob, after);
        if after.actions[i] is Publish {
            lemma_readable_fits(after);
            assert(after.progress.written == after.state.readable());
        }
    }
}

/// A reader who acts on published progress reads the blob. `progress` promises no more than was
/// readable at the moment `published`, the read happens at the moment `now`, which is no earlier, and
/// it takes some of what the reader at `pos` is offered. However many segments have moved on in
/// between, the bytes that have been written there are the blob's own. That the read gives what has
/// been written is certain of settled bytes only.
pub proof fn law_reader_reads_the_blob(
    moments: Seq<Transfer>,
    steps: Seq<(int, SegmentEvent)>,
    digest: Seq<char>,
    blob: Seq<u8>,
    published: int,
    now: int,
    progress: DownloadProgress,
    pos: int,
    n: int,
)
    requires
        runs(moments, steps, digest, blob),
        moments[0].sound(blob),
        blob.len() <= u64::MAX,
        0 <= published <= now < moments.len(),
        progress.terminal is None,
        progress.written <= moments[published].state.readable(),
        0 <= pos,
        0 < n <= offered(pos, progress),
    ensures
        pos + n <= blob.len(),
        file_content(moments[now].file, pos + n).subrange(pos, pos + n) == blob.subrange(
            pos,
            pos + n,
        ),
{
    law_transfer_stays_sound(moments, steps, digest, blob, now);
    law_progress_never_shrinks(moments, steps, digest, blob, published, now);
    law_readable_file_is_the_blob(moments[now], blob);
    lemma_prefix_read(moments[now], blob, pos, n);
}

/// What lies within the readable prefix is read as the blob has it.
proof fn lemma_prefix_read(transfer: Transfer, blob: Seq<u8>, pos: int, n: int)
    requires
        transfer.sound(blob),
        0 <= pos,
        0 <= n,
        n > 0 ==> pos + n <= transfer.state.readable(),
        pos + n <= blob.len(),
    ensures
        file_content(transfer.file, pos + n).subrange(pos, pos + n) == blob.subrange(pos, pos + n),
{
    law_readable_file_is_the_blob(transfer, blob);
    let whole = file_content(transfer.file, transfer.state.readable());
    let part = file_content(transfer.file, pos + n).subrange(pos, pos + n);
    assert forall|j: int| 0 <= j < n implies part[j] == blob[pos + j] by {
        assert(whole[pos + j] == transfer.file[pos + j]);
        assert(blob.take(transfer.state.readable())[pos + j] == blob[pos + j]);
    }
    assert(part =~= blob.subrange(pos, pos + n));
}

/// One round of a reader: the progress that it saw and the moment at which that was the latest, the
/// moment at which it read the file, and the bytes that it got.
pub struct Round {
    pub seen: DownloadProgress,
    pub published: int,
    pub at: int,
    pub data: Seq<u8>,
}

impl Round {
    /// The reader at `pos` got some of what it was offered. It acted on what was told before it
    /// read, or on the good end of the download.
    pub open spec fn fits(self, moments: Seq<Transfer>, pos: int) -> bool {
        &&& 0 <= self.published <= self.at < moments.len()
        &&& self.seen == moments[self.published].progress || (self.at == moments.len() - 1
            && self.seen == moments[self.at].concluded())
        &&& self.data.len() <= offered(pos, self.seen)
    }

    /// The reader at `pos` got what the segments have written there.
    pub open spec fn true_at(self, moments: Seq<Transfer>, pos: int) -> bool {
        let n = self.data.len();
        &&& self.fits(moments, pos)
        &&& self.data == file_content(moments[self.at].file, pos + n).subrange(pos, pos + n)
    }

    /// The reader at `pos` got what was written as far as it was settled. Of a byte that was not
    /// settled this says nothing.
    pub open spec fn true_if_settled(self, moments: Seq<Transfer>, pos: int) -> bool {
        &&& self.fits(moments, pos)
        &&& forall|o: int|
            pos <= o < pos + self.data.len() && #[trigger] moments[self.at].settled(o)
                ==> self.data[o - pos] == moments[self.at].file[o]
    }

    /// Every byte that the reader at `pos` got was settled.
    pub open spec fn all_settled(self, moments: Seq<Transfer>, pos: int) -> bool {
        forall|o: int|
            pos <= o < pos + self.data.len() ==> #[trigger] moments[self.at].settled(o)
    }
}

/// The rounds of a reader who starts at `pos`.
pub open spec fn true_rounds(moments: Seq<Transfer>, pos: int, rounds: Seq<Round>) -> bool
    decreases rounds.len(),
{
    rounds.len() > 0 ==> {
        &&& rounds[0].true_at(moments, pos)
        &&& true_rounds(moments, pos + rounds[0].data.len(), rounds.drop_first())
    }
}

/// All that a reader got in some rounds.
pub open spec fn gathered(rounds: Seq<Round>) -> Seq<u8>
    decreases rounds.len(),
{
    if rounds.len() == 0 {
        Seq::empty()
    } else {
        rounds[0].data + gathered(rounds.drop_first())
    }
}

/// The rounds as far as they concern the reader itself: the progress, and how much was read.
pub open spec fn offers(rounds: Seq<Round>) -> Seq<(DownloadProgress, int)> {
    Seq::new(rounds.len(), |i: int| (rounds[i].seen, rounds[i].data.len() as int))
}

/// The bytes of a round are the blob's own.
proof fn lemma_round(
    moments: Seq<Transfer>,
    steps: Seq<(int, SegmentEvent)>,
    digest: Seq<char>,
    blob: Seq<u8>,
    pos: int,
    round: Round,
)
    requires
        runs(moments, steps, digest, blob),
        moments[0].sound(blob),
        blob.len() <= u64::MAX,
        0 <= pos <= blob.len(),
        round.true_at(moments, pos),
    ensures
        read_limit(round.seen) <= blob.len(),
        pos + round.data.len() <= blob.len(),
        round.data == blob.subrange(pos, pos + round.data.len()),
{
    let n = round.data.len() as int;
    let now = moments[round.at];
    law_transfer_stays_sound(moments, steps, digest, blob, round.at);
    law_transfer_stays_sound(moments, steps, digest, blob, round.published);
    law_progress_never_shrinks(moments, steps, digest, blob, round.published, round.at);
    law_readable_file_is_the_blob(now, blob);
    lemma_readable_fits(now);
    assert(read_limit(round.seen) <= now.state.readable());
    lemma_prefix_read(now, blob, pos, n);
}

/// The rounds of a reader of the transfer are rounds of a reader who follows the blob, and give the
/// same bytes.
proof fn lemma_rounds(
    moments: Seq<Transfer>,
    steps: Seq<(int, SegmentEvent)>,
    digest: Seq<char>,
    blob: Seq<u8>,
    pos: int,
    rounds: Seq<Round>,
)
    requires
        runs(moments, steps, digest, blob),
        moments[0].sound(blob),
        blob.len() <= u64::MAX,
        0 <= pos <= blob.len(),
        true_rounds(moments, pos, rounds),
    ensures
        follows(blob, pos, offers(rounds)),
        handed_out(blob, pos, offers(rounds)) == gathered(rounds),
    decreases rounds.len(),
{
    if rounds.len() > 0 {
        let rest = rounds.drop_first();
        let next = pos + rounds[0].data.len();
        lemma_round(moments, steps, digest, blob, pos, rounds[0]);
        lemma_rounds(moments, steps, digest, blob, next, rest);
        assert(offers(rounds).drop_first() =~= offers(rest));
        assert(offers(rounds)[0] == (rounds[0].seen, rounds[0].data.len() as int));
    }
}

/// However many readers follow one download, and whenever each of them looks at its progress and
/// reads the file, each has got the blob's own bytes from the first on, in order, each once.
///
/// The premise is that every read gives what the segments have written, also where one of them has
/// not flushed it yet. It holds of every read of settled bytes ([`law_settled_read_is_true`]), and
/// of every read of a download over one connection ([`law_one_stream_read_is_true`]).
pub proof fn law_every_reader_follows_the_blob(
    moments: Seq<Transfer>,
    steps: Seq<(int, SegmentEvent)>,
    digest: Seq<char>,
    blob: Seq<u8>,
    readers: Seq<Seq<Round>>,
    r: int,
)
    requires
        runs(moments, steps, digest, blob),
        moments[0].sound(blob),
        blob.len() <= u64::MAX,
        0 <= r < readers.len(),
        true_rounds(moments, 0, readers[r]),
    ensures
        0 <= end_of_rounds(0, offers(readers[r])) <= blob.len(),
        gathered(readers[r]) == blob.take(end_of_rounds(0, offers(readers[r]))),
{
    lemma_rounds(moments, steps, digest, blob, 0, readers[r]);
    law_reader_hands_out_the_file(blob, 0, offers(readers[r]));
    let end = end_of_rounds(0, offers(readers[r]));
    assert(blob.subrange(0, end) =~= blob.take(end));
}

/// However many readers follow one download that ends well, each that comes to the end of its
/// stream has got the whole blob.
///
/// The premise is that every read gives what the segments have written, also where one of them has
/// not flushed it yet. It holds of every read of settled bytes ([`law_settled_read_is_true`]), and
/// of every read of a download over one connection ([`law_one_stream_read_is_true`]).
pub proof fn law_every_reader_gets_the_whole_blob(
    moments: Seq<Transfer>,
    steps: Seq<(int, SegmentEvent)>,
    digest: Seq<char>,
    total: Option<u64>,
    ranges: bool,
    blob: Seq<u8>,
    readers: Seq<Seq<Round>>,
)
    requires
        runs(moments, steps, digest, blob),
        moments[0].starts(total, digest),
        moments[0].state.plan@ == planned_for(total, ranges),
        total matches Some(t) ==> t == blob.len(),
        blob.len() <= u64::MAX,
        moments.last().finished(),
        forall|r: int|
            0 <= r < readers.len() ==> true_rounds(moments, 0, #[trigger] readers[r]) && offered(
                end_of_rounds(0, offers(readers[r])),
                moments.last().concluded(),
            ) == 0,
    ensures
        forall|r: int| 0 <= r < readers.len() ==> gathered(#[trigger] readers[r]) == blob,
{
    let last = moments.len() - 1;
    law_transfer_starts_sound(moments[0], digest, total, ranges, blob);
    law_transfer_stays_sound(moments, steps, digest, blob, last);
    lemma_plan_stays(moments, steps, digest, blob, last);
    law_finished_transfer_is_the_blob(moments.last(), total, ranges, blob);
    assert forall|r: int| 0 <= r < readers.len() implies gathered(#[trigger] readers[r]) == blob by {
        lemma_rounds(moments, steps, digest, blob, 0, readers[r]);
        law_eof_means_the_whole_blob(blob, offers(readers[r]), moments.last().concluded());
    }
}

/// A read of settled bytes gives what the segments have written.
pub proof fn law_settled_read_is_true(moments: Seq<Transfer>, pos: int, round: Round)
    requires
        0 <= pos,
        round.true_if_settled(moments, pos),
        round.all_settled(moments, pos),
    ensures
        round.true_at(moments, pos),
{
    let n = round.data.len();
    let now = moments[round.at];
    let part = file_content(now.file, pos + n).subrange(pos, pos + n);
    assert forall|j: int| 0 <= j < n implies round.data[j] == part[j] by {
        assert(now.settled(pos + j));
    }
    assert(round.data =~= part);
}

/// With one segment, what has been published was flushed before, and stays so.
proof fn lemma_one_stream_is_flushed(
    moments: Seq<Transfer>,
    steps: Seq<(int, SegmentEvent)>,
    digest: Seq<char>,
    blob: Seq<u8>,
    k: int,
)
    requires
        runs(moments, steps, digest, blob),
        moments[0].sound(blob),
        moments[0].progress.written == 0,
        blob.len() <= u64::MAX,
        moments[0].state.plan@.len() == 1,
        0 <= k < moments.len(),
    ensures
        moments[k].flushed.len() == 1,
        moments[k].progress.written <= moments[k].flushed[0],
        moments[k].state.plan@ == moments[0].state.plan@,
        moments[0].state.plan@[0].start == 0,
    decreases k,
{
    assert(moments[0].in_order(0, blob));
    if k > 0 {
        lemma_one_stream_is_flushed(moments, steps, digest, blob, k - 1);
        lemma_plan_stays(moments, steps, digest, blob, k);
        law_transfer_stays_sound(moments, steps, digest, blob, k - 1);
        law_transfer_stays_sound(moments, steps, digest, blob, k);
        assert(follows_on(moments, steps, digest, blob, k));
        assert(moments[k - 1].in_order(0, blob));
        assert(moments[k].in_order(0, blob));
        lemma_readable_fits(moments[k]);
    }
}

/// A reader of a download over one connection gets what has been written, without further ado: all
/// that it is offered is settled.
pub proof fn law_one_stream_read_is_true(
    moments: Seq<Transfer>,
    steps: Seq<(int, SegmentEvent)>,
    digest: Seq<char>,
    total: Option<u64>,
    ranges: bool,
    blob: Seq<u8>,
    pos: int,
    round: Round,
)
    requires
        runs(moments, steps, digest, blob),
        moments[0].starts(total, digest),
        moments[0].state.plan@ == planned_for(total, ranges),
        planned_for(total, ranges).len() == 1,
        total matches Some(t) ==> t == blob.len(),
        blob.len() <= u64::MAX,
        round.seen.terminal is Some ==> moments.last().finished(),
        0 <= pos,
        round.true_if_settled(moments, pos),
    ensures
        round.true_at(moments, pos),
{
    let now = moments[round.at];
    law_transfer_starts_sound(moments[0], digest, total, ranges, blob);
    law_transfer_stays_sound(moments, steps, digest, blob, round.at);
    law_transfer_stays_sound(moments, steps, digest, blob, round.published);
    law_progress_never_shrinks(moments, steps, digest, blob, round.published, round.at);
    lemma_one_stream_is_flushed(moments, steps, digest, blob, round.at);
    lemma_readable_fits(now);
    assert forall|o: int| pos <= o < pos + round.data.len() implies #[trigger] now.settled(o) by {
        if round.seen.terminal is Some {
            law_finished_transfer_is_settled(now, blob, o);
        } else {
            assert(now.state.plan@[0].start <= o < now.flushed[0]);
        }
    }
    law_settled_read_is_true(moments, pos, round);
}

/// The plan does not change.
proof fn lemma_plan_stays(
    moments: Seq<Transfer>,
    steps: Seq<(int, SegmentEvent)>,
    digest: Seq<char>,
    blob: Seq<u8>,
    k: int,
)
    requires
        runs(moments, steps, digest, blob),
        moments[0].sound(blob),
        blob.len() <= u64::MAX,
        0 <= k < moments.len(),
    ensures
        moments[k].state.plan@ == moments[0].state.plan@,
    decreases k,
{
    if k > 0 {
        lemma_plan_stays(moments, steps, digest, blob, k - 1);
        law_transfer_stays_sound(moments, steps, digest, blob, k - 1);
        assert(follows_on(moments, steps, digest, blob, k));
        lemma_step_moves_forward(
            moments[k - 1],
            steps[k - 1].0,
            steps[k - 1].1,
            digest,
            blob,
            moments[k],
        );
    }
}

/// Whoever asks for the size of the blob, while it is downloaded or after that has ended well, is
/// told the same one, if any: that of the blob.
pub proof fn law_every_request_learns_the_same_size(
    transfer: Transfer,
    blob: Seq<u8>,
    progress: DownloadProgress,
)
    requires
        transfer.sound(blob),
        progress == transfer.progress || (transfer.state.readable() == blob.len() && progress
            == transfer.concluded()),
        blob.len() <= u64::MAX,
    ensures
        progress.size_told() matches Some(size) ==> size == blob.len(),
        progress.terminal is Some ==> progress.size_told() is Some,
{
}

/// When a segment publishes, all the bytes that it has written itself are settled.
pub proof fn law_own_bytes_are_settled_when_published(
    before: Transfer,
    i: int,
    event: SegmentEvent,
    digest: Seq<char>,
    blob: Seq<u8>,
    after: Transfer,
    o: int,
)
    requires
        before.sound(blob),
        before.leads_to(i, event, digest, blob, after),
        blob.len() <= u64::MAX,
        after.actions[i] is Publish,
        after.state.plan@[i].start <= o < after.state.reached(i),
    ensures
        after.settled(o),
{
    lemma_own_step(before, i, event, digest, blob, after);
    assert(after.state.plan@[i].start <= o < after.flushed[i]);
}

/// With one segment everything that is published is settled.
pub proof fn law_one_stream_publishes_what_is_settled(
    before: Transfer,
    event: SegmentEvent,
    digest: Seq<char>,
    blob: Seq<u8>,
    after: Transfer,
    o: int,
)
    requires
        before.sound(blob),
        before.leads_to(0, event, digest, blob, after),
        blob.len() <= u64::MAX,
        before.state.plan@.len() == 1,
        after.actions[0] is Publish,
        0 <= o < after.progress.written,
    ensures
        after.settled(o),
{
    law_step_keeps_transfer_sound(before, 0, event, digest, blob, after);
    lemma_step_moves_forward(before, 0, event, digest, blob, after);
    law_own_bytes_are_settled_when_published(before, 0, event, digest, blob, after, o);
}

/// When every segment has reported success everything that is readable is settled.
pub proof fn law_finished_transfer_is_settled(transfer: Transfer, blob: Seq<u8>, o: int)
    requires
        transfer.sound(blob),
        transfer.finished(),
        0 <= o < transfer.state.readable(),
    ensures
        transfer.settled(o),
{
    law_readable_has_no_hole(transfer.state, transfer.extent(), o);
    let i = choose|i: int|
        0 <= i < transfer.state.plan@.len() && (#[trigger] transfer.state.plan@[i]).start <= o
            < transfer.state.reached(i);
    assert(transfer.in_order(i, blob));
    assert(transfer.fetches[i].phase is Over);
    assert(transfer.state.plan@[i].start <= o < transfer.flushed[i]);
}

/// When every segment reports success the file is the blob, whether the size was known or not, and
/// whether the blob was split or not.
pub proof fn law_finished_transfer_is_the_blob(
    transfer: Transfer,
    total: Option<u64>,
    ranges: bool,
    blob: Seq<u8>,
)
    requires
        transfer.sound(blob),
        transfer.state.plan@ == planned_for(total, ranges),
        total matches Some(t) ==> t == blob.len(),
        blob.len() <= u64::MAX,
        transfer.finished(),
    ensures
        transfer.state.readable() == blob.len(),
        file_content(transfer.file, transfer.state.readable()) == blob,
{
    let state = transfer.state;
    law_readable_file_is_the_blob(transfer, blob);
    if total is Some {
        law_plan_covers_the_blob(total->0 as int);
        assert(tiles(state.plan@, blob.len() as int));
        assert forall|i: int| 0 <= i < state.plan@.len() implies #[trigger] state.complete(i) by {
            assert(transfer.in_order(i, blob));
            assert(transfer.fetches[i].phase is Over);
            lemma_starts_in_blob(total, ranges, blob, i);
        }
        law_readable_is_total_when_complete(state, blob.len() as int);
    } else {
        assert(transfer.in_order(0, blob));
        assert(transfer.fetches[0].phase is Over);
        lemma_within(transfer, blob, 0);
    }
    assert(blob.take(blob.len() as int) =~= blob);
}

/// The download of a blob from an honest upstream is accepted: when every segment reports success,
/// the file has the size that was announced, and it has the digest of the blob.
pub proof fn law_honest_download_is_accepted(
    download: OpenDownload,
    transfer: Transfer,
    ranges: bool,
    blob: Seq<u8>,
)
    requires
        transfer.sound(blob),
        transfer.state.plan@ == planned_for(download.total, ranges),
        download.total matches Some(t) ==> t == blob.len(),
        blob.len() <= u64::MAX,
        download.request.digest@ == blob_digest(blob),
        transfer.finished(),
    ensures
        download.whole(transfer.state.readable()),
        digest_accepted(
            download.request.digest@,
            blob_digest(file_content(transfer.file, transfer.state.readable())),
        ),
{
    law_finished_transfer_is_the_blob(transfer, download.total, ranges, blob);
}

} // verus!
