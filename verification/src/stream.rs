//! The reading of one response body: what is kept of it, and when it counts as stuck.

use vstd::prelude::*;
use crate::chunk::{chunk_len, chunk_slice, held};
use crate::state::DownloadState;

verus! {

/// A segment that moves fewer than `STALL_MIN_BYTES` within this many milliseconds, or delivers
/// no chunk at all in them, is treated as stuck.
pub const STALL_WINDOW_MILLIS: u64 = 8000;

/// 1 MiB/s over the stall window. Set below any plausible healthy rate and well above zero: the
/// point is to catch a collapsed route, not to police a merely slow one.
pub const STALL_MIN_BYTES: u64 = 8 * 1024 * 1024;

/// Bytes a segment buffers before it flushes and republishes progress.
pub const PUBLISH_INTERVAL: u64 = 1024 * 1024;

/// How an upstream answers a request for part of a blob.
#[derive(Clone, Copy, Debug, PartialEq, Eq, Structural)]
pub enum Answer {
    /// With the part that was asked for.
    Partial,
    /// With the whole blob from byte 0: the range was ignored.
    Full,
}

/// The reading of one response body.
#[derive(Debug)]
pub struct StreamRun {
    /// Which segment of the plan is being read for.
    pub idx: usize,
    /// Bytes still to be dropped because the body starts before the offset that was asked for.
    pub skip: u64,
    /// Bytes written in the current stall window.
    pub window_bytes: u64,
    /// Bytes written since progress was last published.
    pub unflushed: u64,
}

/// What becomes of a chunk.
#[derive(Debug)]
pub enum Intake {
    /// All of it lies before the segment's next byte.
    Discarded,
    /// The segment takes no more.
    Boundary,
    /// These bytes go into the file where the segment stopped.
    Write(bytes::Bytes),
}

/// The verdict on a stall window.
#[derive(Clone, Copy, Debug, PartialEq, Eq, Structural)]
pub enum Window {
    /// It is still running.
    Running,
    /// It is over, enough bytes came, and the next one begins now.
    Renewed,
    /// It is over and too little came.
    Stalled,
}

/// The smaller of two numbers.
pub open spec fn least(a: int, b: int) -> int {
    if a <= b {
        a
    } else {
        b
    }
}

/// What is left to be dropped after `bytes` have come.
pub open spec fn skip_after(skip: int, bytes: Seq<u8>) -> int {
    skip - least(skip, bytes.len() as int)
}

/// What is kept of `bytes`: not the first `skip` of them, and of the rest at most `room`.
pub open spec fn kept(skip: int, room: int, bytes: Seq<u8>) -> Seq<u8> {
    let rest = bytes.skip(least(skip, bytes.len() as int));
    rest.take(least(room, rest.len() as int))
}

/// All that is kept of a body that comes in chunks.
pub open spec fn kept_of_body(skip: int, room: int, chunks: Seq<Seq<u8>>) -> Seq<u8>
    decreases chunks.len(),
{
    if chunks.len() == 0 {
        Seq::empty()
    } else {
        let first = kept(skip, room, chunks[0]);
        first + kept_of_body(
            skip_after(skip, chunks[0]),
            room - first.len(),
            chunks.drop_first(),
        )
    }
}

impl StreamRun {
    /// The reading of a body that starts `skip` bytes before the offset it is read for.
    pub fn new(idx: usize, skip: u64) -> (s: StreamRun)
        ensures
            s == (StreamRun { idx, skip, window_bytes: 0, unflushed: 0 }),
    {
        StreamRun { idx, skip, window_bytes: 0, unflushed: 0 }
    }

    /// All of a chunk lies before the segment's next byte.
    pub open spec fn discards(self, bytes: Seq<u8>) -> bool {
        self.skip > 0 && bytes.len() <= self.skip
    }

    /// The reading after a chunk has been taken.
    pub open spec fn after_chunk(self, bytes: Seq<u8>) -> StreamRun {
        StreamRun { skip: skip_after(self.skip as int, bytes) as u64, ..self }
    }

    /// The counts of this reading are part of what the segment has written.
    pub open spec fn tracks(self, state: DownloadState) -> bool {
        &&& self.idx < state.plan@.len()
        &&& self.window_bytes <= state.written@[self.idx as int]
        &&& self.unflushed <= state.written@[self.idx as int]
    }

    /// Takes the next chunk of the body and cuts out of it what the segment still needs. A body
    /// may start before the segment's next byte, and may run on past its end.
    pub fn accept(&mut self, state: &DownloadState, chunk: bytes::Bytes) -> (r: Intake)
        requires
            state.countable(),
            old(self).idx < state.plan@.len(),
        ensures
            *final(self) == old(self).after_chunk(held(chunk)),
            ({
                let room = state.left(old(self).idx as int);
                let before = old(self).discards(held(chunk));
                match r {
                    Intake::Discarded => before,
                    Intake::Boundary => !before && room == 0,
                    Intake::Write(data) => !before && room > 0 && held(data) == kept(
                        old(self).skip as int,
                        room,
                        held(chunk),
                    ),
                }
            }),
    {
        let ghost whole = held(chunk);
        let ghost skip0 = self.skip as int;
        let len: usize = chunk_len(&chunk);
        let mut rest = chunk;
        if self.skip > 0 {
            let n: u64 = if self.skip < len as u64 {
                self.skip
            } else {
                len as u64
            };
            rest = chunk_slice(&rest, n as usize, len);
            self.skip = self.skip - n;
            if chunk_len(&rest) == 0 {
                return Intake::Discarded;
            }
        }
        assert(held(rest) =~= whole.skip(least(skip0, whole.len() as int)));
        let room: u64 = state.room(self.idx);
        if room == 0 {
            return Intake::Boundary;
        }
        if chunk_len(&rest) as u64 > room {
            rest = chunk_slice(&rest, 0, room as usize);
        }
        assert(held(rest) =~= kept(skip0, room as int, whole));
        Intake::Write(rest)
    }

    /// The reading after `n` more bytes have been written.
    pub open spec fn after_write(self, n: int) -> StreamRun {
        StreamRun {
            window_bytes: (self.window_bytes + n) as u64,
            unflushed: if self.flush_due(n) {
                0
            } else {
                (self.unflushed + n) as u64
            },
            ..self
        }
    }

    /// With `n` more bytes written, it is time to flush the file and publish progress.
    pub open spec fn flush_due(self, n: int) -> bool {
        self.unflushed + n >= PUBLISH_INTERVAL
    }

    /// Counts `n` bytes that have been written into the file. Tells whether the file is to be
    /// flushed and progress published: in batches rather than per chunk, so that socket reads do
    /// not wait for a disk round-trip each.
    pub fn wrote(&mut self, state: &mut DownloadState, n: u64) -> (flush: bool)
        requires
            old(state).wf(),
            old(self).tracks(*old(state)),
            n <= old(state).left(old(self).idx as int),
        ensures
            final(state).wf(),
            old(state).advanced(old(self).idx as int, n as int, *final(state)),
            final(self).tracks(*final(state)),
            flush == old(self).flush_due(n as int),
            *final(self) == old(self).after_write(n as int),
    {
        let ghost idx = self.idx as int;
        assert(state.reached(idx) <= state.plan@[idx].end);
        state.advance(self.idx, n);
        assert(state.reached(idx) <= state.plan@[idx].end);
        self.unflushed = self.unflushed + n;
        self.window_bytes = self.window_bytes + n;
        if self.unflushed >= PUBLISH_INTERVAL {
            self.unflushed = 0;
            true
        } else {
            false
        }
    }

    /// The verdict on a stall window that has run for so many milliseconds.
    pub open spec fn verdict(self, elapsed_millis: u64) -> Window {
        if elapsed_millis < STALL_WINDOW_MILLIS {
            Window::Running
        } else if self.window_bytes < STALL_MIN_BYTES {
            Window::Stalled
        } else {
            Window::Renewed
        }
    }

    /// Judges the stall window after a chunk: this is what notices a connection that delivers a
    /// trickle. `elapsed_millis` is how long the window has run.
    pub fn check_window(&mut self, elapsed_millis: u64) -> (r: Window)
        ensures
            r == old(self).verdict(elapsed_millis),
            *final(self) == (StreamRun {
                window_bytes: if r is Renewed {
                    0
                } else {
                    old(self).window_bytes
                },
                ..*old(self)
            }),
    {
        if elapsed_millis < STALL_WINDOW_MILLIS {
            Window::Running
        } else if self.window_bytes < STALL_MIN_BYTES {
            Window::Stalled
        } else {
            self.window_bytes = 0;
            Window::Renewed
        }
    }
}

/// What an upstream is asked for to find out whether it honours ranges: one byte at offset 0.
pub fn probe_range() -> (r: (u64, Option<u64>))
    ensures
        r == (0u64, Some(1u64)),
{
    (0, Some(1))
}

/// Whether an upstream honours ranges, told from its answer to the request for [`probe_range`]. One that
/// cannot be asked is taken not to.
///
/// Asked before planning rather than discovered mid-download: a registry that ignores ranges
/// answers every segment with the whole blob from byte 0.
pub fn range_supported(probe: Result<Answer, String>) -> (r: bool)
    ensures
        r == (probe matches Ok(Answer::Partial)),
{
    match probe {
        Ok(Answer::Partial) => true,
        Ok(Answer::Full) => false,
        Err(_) => false,
    }
}

/// Cutting a body in two and keeping what is wanted of each part keeps what is wanted of it all.
proof fn lemma_kept_split(skip: int, room: int, a: Seq<u8>, b: Seq<u8>)
    requires
        0 <= skip,
        0 <= room,
    ensures
        kept(skip, room, a).len() <= room,
        0 <= skip_after(skip, a),
        kept(skip, room, a + b) == kept(skip, room, a) + kept(
            skip_after(skip, a),
            room - kept(skip, room, a).len(),
            b,
        ),
{
    let whole = kept(skip, room, a + b);
    let parts = kept(skip, room, a) + kept(
        skip_after(skip, a),
        room - kept(skip, room, a).len(),
        b,
    );
    assert(whole.len() == parts.len());
    assert(whole =~= parts);
}

/// However a body is cut into chunks, what is kept of it is the same: the bytes behind the first
/// `skip`, up to `room` of them.
pub proof fn law_chunking_does_not_matter(skip: int, room: int, chunks: Seq<Seq<u8>>)
    requires
        0 <= skip,
        0 <= room,
    ensures
        kept_of_body(skip, room, chunks) == kept(skip, room, chunks.flatten()),
    decreases chunks.len(),
{
    if chunks.len() == 0 {
        assert(chunks.flatten() =~= Seq::<u8>::empty());
        assert(kept(skip, room, chunks.flatten()) =~= Seq::<u8>::empty());
    } else {
        let first = kept(skip, room, chunks[0]);
        let rest = chunks.drop_first();
        lemma_kept_split(skip, room, chunks[0], rest.flatten());
        law_chunking_does_not_matter(skip_after(skip, chunks[0]), room - first.len(), rest);
        assert(chunks.flatten() == chunks[0] + rest.flatten());
    }
}

/// Whether the upstream honours the range or sends the blob from byte 0, and wherever its body
/// breaks off, the bytes kept of it are the blob's own bytes from the offset that was asked for,
/// and never more than the segment takes.
pub proof fn law_answer_lands_in_place(
    answer: Answer,
    blob: Seq<u8>,
    pos: int,
    room: int,
    sent: int,
    chunks: Seq<Seq<u8>>,
)
    requires
        0 <= pos <= blob.len(),
        0 <= room,
        0 <= sent,
        answer is Partial ==> pos + sent <= blob.len() && chunks.flatten() == blob.subrange(
            pos,
            pos + sent,
        ),
        answer is Full ==> sent <= blob.len() && chunks.flatten() == blob.take(sent),
    ensures
        ({
            let skip = if answer is Full {
                pos
            } else {
                0
            };
            let data = kept_of_body(skip, room, chunks);
            &&& data.len() <= room
            &&& pos + data.len() <= blob.len()
            &&& data == blob.subrange(pos, pos + data.len())
            &&& data.len() == least(
                room,
                if answer is Partial {
                    sent
                } else if sent > pos {
                    sent - pos
                } else {
                    0
                },
            )
        }),
{
    let skip = if answer is Full {
        pos
    } else {
        0
    };
    law_chunking_does_not_matter(skip, room, chunks);
    let data = kept(skip, room, chunks.flatten());
    assert(data =~= blob.subrange(pos, pos + data.len()));
}

/// An upstream is believed to honour ranges exactly when it answers the smallest request there is,
/// one byte from the start, with that part.
pub proof fn law_ranges_are_believed_when_kept(
    asked: (u64, Option<u64>),
    answer: Result<Answer, String>,
    r: bool,
)
    requires
        call_ensures(probe_range, (), asked),
        call_ensures(range_supported, (answer,), r),
    ensures
        asked.0 == 0 && asked.1 == Some(1u64),
        answer matches Ok(a) ==> (r <==> a is Partial),
        answer is Err ==> !r,
{
}

} // verus!
