//! The fetch of one segment: when to dial, what to keep of what arrives, when to give up on a
//! connection.
//!
//! A blob body arrives over one connection, and a connection that lands on a degraded route stays
//! degraded for the whole transfer. So a segment that stops making progress is redialled from the
//! offset it has reached, a limited number of times.

use vstd::prelude::*;
use vstd::string::*;
use crate::chunk::{chunk_len, held};
use crate::error::StreamCacheError;
use crate::segment::OPEN_END;
use crate::state::{lemma_stop, DownloadState};
use crate::stream::{kept, Answer, Intake, StreamRun, Window};
use crate::text::{decimal, decimal_text};

verus! {

/// Attempts per segment, initial connection included.
pub const MAX_SEGMENT_ATTEMPTS: usize = 4;

/// What is remembered of a segment from one attempt to the next.
#[derive(Debug)]
pub struct SegmentRun {
    /// Which segment of the plan this is.
    pub idx: usize,
    /// Attempts used up.
    pub attempt: usize,
    /// A stream that is already open at byte 0 waits to be read.
    pub seeded: bool,
    /// The last thing that went wrong.
    pub last_err: Option<String>,
}

/// What a segment does at the start of an attempt.
#[derive(Debug)]
pub enum Dial {
    /// Nothing is left to fetch.
    Settled,
    /// Read the stream that is already open, writing from `pos` on.
    Seed { pos: u64 },
    /// Ask the upstream for the bytes from `pos` on, `len` of them if the end is known.
    Request { pos: u64, len: Option<u64> },
    /// No attempt is left.
    Exhausted(StreamCacheError),
}

/// How the reading of a response body came to an end.
#[derive(Debug)]
pub enum StreamEnd {
    /// The upstream ended the body.
    Finished,
    /// The segment took no more.
    Boundary,
    /// Nothing came for a whole stall window, or too little did.
    Stalled,
    /// The connection failed.
    Broken(String),
}

/// What a segment is waiting for.
#[derive(Debug)]
pub enum SegmentPhase {
    /// The file to be positioned for the stream that is already open.
    Seeding,
    /// The answer to a request for the bytes from `pos` on.
    Dialing { pos: u64 },
    /// The next chunk.
    Reading(StreamRun),
    /// The write of so many bytes.
    Writing(StreamRun, u64),
    /// The file to be flushed in the middle of a body.
    Flushing(StreamRun),
    /// Progress to be published in the middle of a body.
    Publishing(StreamRun),
    /// The age of the stall window.
    Timing(StreamRun),
    /// The file to be flushed at the end of a body.
    Closing(StreamEnd),
    /// Progress to be published at the end of a body.
    Reporting(StreamEnd),
    /// The file to be synced.
    Syncing,
    /// Nothing more.
    Over,
}

/// One segment on its way to completion.
#[derive(Debug)]
pub struct SegmentFetch {
    pub run: SegmentRun,
    pub phase: SegmentPhase,
}

/// What a segment wants done.
#[derive(Debug)]
pub enum SegmentAction {
    /// Position the file at `pos`, to read the stream that is already open.
    ReadSeed { pos: u64 },
    /// Position the file at `pos`, and ask the upstream for the bytes from there on.
    Request { pos: u64, len: Option<u64> },
    /// Wait for the next chunk, for one stall window at most. With `new_window` a stall window
    /// begins now.
    Receive { new_window: bool },
    /// Write these bytes into the file.
    Write(bytes::Bytes),
    /// Flush the file.
    Flush,
    /// Publish at once that so many bytes are readable from the start of the file.
    Publish(u64),
    /// Tell how long the stall window has run.
    ReadClock,
    /// Sync the file.
    Sync,
    /// The segment is done.
    Finish,
    /// The segment has failed.
    Fail(StreamCacheError),
}

/// What a segment is told.
#[derive(Debug)]
pub enum SegmentEvent {
    /// The file is positioned.
    Positioned,
    /// The upstream has answered.
    Opened(Answer),
    /// The upstream has refused.
    Refused(String),
    /// A chunk has come.
    Chunk(bytes::Bytes),
    /// The body has ended.
    Ended,
    /// Nothing has come for a stall window.
    TimedOut,
    /// The connection has failed.
    Broken(String),
    /// The bytes are in the file.
    Written,
    /// The file is flushed.
    Flushed,
    /// Progress is published.
    Published,
    /// The stall window has run for so many milliseconds.
    Age(u64),
    /// The file is synced.
    Synced,
}

/// The text of a failed segment.
pub open spec fn exhausted_text(idx: nat, digest: Seq<char>, last_err: Option<String>) -> Seq<char> {
    "segment "@ + decimal(idx) + " of "@ + digest + " did not complete in "@ + decimal(
        MAX_SEGMENT_ATTEMPTS as nat,
    ) + " attempts"@ + (match last_err {
        Some(e) => ": "@ + e@,
        None => Seq::<char>::empty(),
    })
}

impl SegmentRun {
    /// How the next attempt begins, and what is remembered from then on. An attempt continues at
    /// the offset that the segment has reached.
    pub open spec fn dials(
        self,
        state: DownloadState,
        digest: Seq<char>,
        dial: Dial,
        after: SegmentRun,
    ) -> bool {
        let pos = state.reached(self.idx as int);
        let end = state.plan@[self.idx as int].end;
        if self.attempt >= MAX_SEGMENT_ATTEMPTS {
            &&& dial matches Dial::Exhausted(StreamCacheError::Download(t))
            &&& t@ == exhausted_text(self.idx as nat, digest, self.last_err)
            &&& after == self
        } else if state.complete(self.idx as int) {
            &&& dial is Settled
            &&& after == self
        } else if self.seeded {
            &&& dial == (Dial::Seed { pos: pos as u64 })
            &&& after == (SegmentRun { seeded: false, ..self })
        } else {
            &&& dial == (Dial::Request {
                pos: pos as u64,
                len: if end == OPEN_END {
                    None
                } else {
                    Some((end - pos) as u64)
                },
            })
            &&& after == self
        }
    }

    /// What is remembered after the upstream has refused: the attempt is used up.
    pub open spec fn after_refusal(self, err: String) -> SegmentRun {
        SegmentRun { attempt: (self.attempt + 1) as usize, last_err: Some(err), ..self }
    }

    /// The last thing that went wrong, after a body has ended.
    pub open spec fn err_after(self, end: StreamEnd) -> Option<String> {
        match end {
            StreamEnd::Broken(e) => Some(e),
            _ => self.last_err,
        }
    }

    /// The segment is complete when a body has ended like this. One whose end is known is complete
    /// when it has been written to its end. One whose end is not known is complete when its body
    /// ended of itself and nothing has gone wrong in any attempt.
    pub open spec fn completes(self, state: DownloadState, end: StreamEnd) -> bool {
        if state.plan@[self.idx as int].end == OPEN_END {
            (end is Finished || end is Boundary) && self.last_err is None
        } else {
            state.complete(self.idx as int)
        }
    }

    /// What is remembered after a body has ended.
    pub open spec fn after_body(self, state: DownloadState, end: StreamEnd) -> SegmentRun {
        SegmentRun {
            attempt: if self.completes(state, end) {
                self.attempt
            } else {
                (self.attempt + 1) as usize
            },
            last_err: self.err_after(end),
            ..self
        }
    }

    /// Begins an attempt.
    pub fn dial(&mut self, state: &DownloadState, digest: &str) -> (r: Dial)
        requires
            state.countable(),
            old(self).idx < state.plan@.len(),
        ensures
            old(self).dials(*state, digest@, r, *final(self)),
    {
        if self.attempt >= MAX_SEGMENT_ATTEMPTS {
            let mut t = "segment ".to_owned();
            t.append(decimal_text(self.idx as u64).as_str());
            t.append(" of ");
            t.append(digest);
            t.append(" did not complete in ");
            t.append(decimal_text(MAX_SEGMENT_ATTEMPTS as u64).as_str());
            t.append(" attempts");
            match &self.last_err {
                Some(e) => {
                    t.append(": ");
                    t.append(e.as_str());
                },
                None => {},
            }
            assert(t@ =~= exhausted_text(self.idx as nat, digest@, self.last_err));
            return Dial::Exhausted(StreamCacheError::Download(t));
        }
        let pos: u64 = state.position(self.idx);
        let end: u64 = state.plan[self.idx].end;
        if pos >= end {
            return Dial::Settled;
        }
        if self.seeded {
            self.seeded = false;
            return Dial::Seed { pos };
        }
        let len: Option<u64> = if end == OPEN_END {
            None
        } else {
            Some(end - pos)
        };
        Dial::Request { pos, len }
    }

    /// Notes that the upstream has refused.
    pub fn refused(&mut self, err: String)
        requires
            old(self).attempt < MAX_SEGMENT_ATTEMPTS,
        ensures
            *final(self) == old(self).after_refusal(err),
    {
        self.last_err = Some(err);
        self.attempt = self.attempt + 1;
    }

    /// Notes that a body has ended, and tells whether the segment is complete.
    pub fn over(&mut self, state: &DownloadState, end: StreamEnd) -> (complete: bool)
        requires
            state.countable(),
            old(self).idx < state.plan@.len(),
            old(self).attempt < MAX_SEGMENT_ATTEMPTS,
        ensures
            complete == old(self).completes(*state, end),
            *final(self) == old(self).after_body(*state, end),
    {
        let stalled = match end {
            StreamEnd::Finished => false,
            StreamEnd::Boundary => false,
            StreamEnd::Stalled => true,
            StreamEnd::Broken(e) => {
                self.last_err = Some(e);
                true
            },
        };
        let complete = if state.plan[self.idx].end == OPEN_END {
            !stalled && self.last_err.is_none()
        } else {
            state.position(self.idx) >= state.plan[self.idx].end
        };
        if !complete {
            self.attempt = self.attempt + 1;
        }
        complete
    }
}

/// A segment turns to its next attempt, if it has one.
pub open spec fn redialled(
    run: SegmentRun,
    state: DownloadState,
    digest: Seq<char>,
    after: SegmentFetch,
    action: SegmentAction,
) -> bool {
    match action {
        SegmentAction::Finish => after.phase is Over && run.dials(
            state,
            digest,
            Dial::Settled,
            after.run,
        ),
        SegmentAction::ReadSeed { pos } => after.phase is Seeding && run.dials(
            state,
            digest,
            Dial::Seed { pos },
            after.run,
        ),
        SegmentAction::Request { pos, len } => after.phase == (SegmentPhase::Dialing { pos })
            && run.dials(state, digest, Dial::Request { pos, len }, after.run),
        SegmentAction::Fail(e) => after.phase is Over && run.dials(
            state,
            digest,
            Dial::Exhausted(e),
            after.run,
        ),
        _ => false,
    }
}

/// The event is one that a segment in this phase waits for.
pub open spec fn awaits(phase: SegmentPhase, event: SegmentEvent) -> bool {
    match phase {
        SegmentPhase::Seeding => event is Positioned,
        SegmentPhase::Dialing { .. } => event is Opened || event is Refused,
        SegmentPhase::Reading(_) => event is Chunk || event is Ended || event is TimedOut
            || event is Broken,
        SegmentPhase::Writing(_, _) => event is Written,
        SegmentPhase::Flushing(_) => event is Flushed,
        SegmentPhase::Publishing(_) => event is Published,
        SegmentPhase::Timing(_) => event is Age,
        SegmentPhase::Closing(_) => event is Flushed,
        SegmentPhase::Reporting(_) => event is Published,
        SegmentPhase::Syncing => event is Synced,
        SegmentPhase::Over => false,
    }
}

/// One step of a segment: from what it is waiting for and what it is told, to what it waits for
/// next and what it wants done. Only the completion of a write changes the state of the download.
/// What is published is what is readable from byte 0 on at that moment, and only when the segment
/// has flushed its own bytes.
pub open spec fn stepped(
    before: SegmentFetch,
    state: DownloadState,
    event: SegmentEvent,
    digest: Seq<char>,
    after: SegmentFetch,
    state_after: DownloadState,
    action: SegmentAction,
) -> bool {
    let idx = before.run.idx as int;
    &&& event is Written || state_after == state
    &&& match (before.phase, event) {
        (SegmentPhase::Seeding, SegmentEvent::Positioned) => {
            &&& after.run == before.run
            &&& after.phase == SegmentPhase::Reading(
                StreamRun { idx: before.run.idx, skip: 0, window_bytes: 0, unflushed: 0 },
            )
            &&& action == (SegmentAction::Receive { new_window: true })
        },
        (SegmentPhase::Dialing { pos }, SegmentEvent::Opened(answer)) => {
            &&& after.run == before.run
            &&& after.phase == SegmentPhase::Reading(
                StreamRun {
                    idx: before.run.idx,
                    skip: if answer is Full {
                        pos
                    } else {
                        0
                    },
                    window_bytes: 0,
                    unflushed: 0,
                },
            )
            &&& action == (SegmentAction::Receive { new_window: true })
        },
        (SegmentPhase::Dialing { pos }, SegmentEvent::Refused(e)) => redialled(
            before.run.after_refusal(e),
            state,
            digest,
            after,
            action,
        ),
        (SegmentPhase::Reading(stream), SegmentEvent::Chunk(chunk)) => {
            let rest = stream.after_chunk(held(chunk));
            &&& after.run == before.run
            &&& if stream.discards(held(chunk)) {
                &&& after.phase == SegmentPhase::Reading(rest)
                &&& action == (SegmentAction::Receive { new_window: false })
            } else if state.left(idx) == 0 {
                &&& after.phase == SegmentPhase::Closing(StreamEnd::Boundary)
                &&& action is Flush
            } else {
                &&& action matches SegmentAction::Write(data)
                &&& held(data) == kept(stream.skip as int, state.left(idx), held(chunk))
                &&& after.phase == SegmentPhase::Writing(rest, held(data).len() as u64)
            }
        },
        (SegmentPhase::Reading(_), SegmentEvent::Ended) => {
            &&& after.run == before.run
            &&& after.phase == SegmentPhase::Closing(StreamEnd::Finished)
            &&& action is Flush
        },
        (SegmentPhase::Reading(_), SegmentEvent::TimedOut) => {
            &&& after.run == before.run
            &&& after.phase == SegmentPhase::Closing(StreamEnd::Stalled)
            &&& action is Flush
        },
        (SegmentPhase::Reading(_), SegmentEvent::Broken(e)) => {
            &&& after.run == before.run
            &&& after.phase == SegmentPhase::Closing(StreamEnd::Broken(e))
            &&& action is Flush
        },
        (SegmentPhase::Writing(stream, n), SegmentEvent::Written) => {
            let counted = stream.after_write(n as int);
            &&& state.advanced(idx, n as int, state_after)
            &&& after.run == before.run
            &&& if stream.flush_due(n as int) {
                &&& after.phase == SegmentPhase::Flushing(counted)
                &&& action is Flush
            } else {
                &&& after.phase == SegmentPhase::Timing(counted)
                &&& action is ReadClock
            }
        },
        (SegmentPhase::Flushing(stream), SegmentEvent::Flushed) => {
            &&& after.run == before.run
            &&& after.phase == SegmentPhase::Publishing(stream)
            &&& action == SegmentAction::Publish(state_after.readable() as u64)
        },
        (SegmentPhase::Publishing(stream), SegmentEvent::Published) => {
            &&& after.run == before.run
            &&& after.phase == SegmentPhase::Timing(stream)
            &&& action is ReadClock
        },
        (SegmentPhase::Timing(stream), SegmentEvent::Age(millis)) => {
            &&& after.run == before.run
            &&& match stream.verdict(millis) {
                Window::Running => {
                    &&& after.phase == SegmentPhase::Reading(stream)
                    &&& action == (SegmentAction::Receive { new_window: false })
                },
                Window::Renewed => {
                    &&& after.phase == SegmentPhase::Reading(StreamRun { window_bytes: 0, ..stream })
                    &&& action == (SegmentAction::Receive { new_window: true })
                },
                Window::Stalled => {
                    &&& after.phase == SegmentPhase::Closing(StreamEnd::Stalled)
                    &&& action is Flush
                },
            }
        },
        (SegmentPhase::Closing(end), SegmentEvent::Flushed) => {
            &&& after.run == before.run
            &&& after.phase == SegmentPhase::Reporting(end)
            &&& action == SegmentAction::Publish(state_after.readable() as u64)
        },
        (SegmentPhase::Reporting(end), SegmentEvent::Published) => {
            let run = before.run.after_body(state, end);
            if before.run.completes(state, end) {
                &&& after.run == run
                &&& after.phase is Syncing
                &&& action is Sync
            } else {
                redialled(run, state, digest, after, action)
            }
        },
        (SegmentPhase::Syncing, SegmentEvent::Synced) => {
            &&& after.run == before.run
            &&& after.phase is Over
            &&& action is Finish
        },
        _ => false,
    }
}

impl SegmentFetch {
    /// The segment is one of the plan. As long as it is not over it has an attempt to its name, and
    /// the stream that was open from the start is no longer waiting. It dials only while bytes are
    /// missing and asks for what comes next, counts what it has written, never holds more than it
    /// has room for, and is synced only when it is complete.
    pub open spec fn inv(self, state: DownloadState) -> bool {
        &&& self.run.idx < state.plan@.len()
        &&& self.phase is Over || self.run.attempt < MAX_SEGMENT_ATTEMPTS
        &&& self.run.attempt <= MAX_SEGMENT_ATTEMPTS
        &&& self.phase is Over || !self.run.seeded
        &&& match self.phase {
            SegmentPhase::Seeding => !state.complete(self.run.idx as int),
            SegmentPhase::Dialing { pos } => pos == state.reached(self.run.idx as int)
                && !state.complete(self.run.idx as int),
            SegmentPhase::Reading(s) => s.idx == self.run.idx && s.tracks(state),
            SegmentPhase::Writing(s, n) => s.idx == self.run.idx && s.tracks(state) && n
                <= state.left(self.run.idx as int),
            SegmentPhase::Flushing(s) => s.idx == self.run.idx && s.tracks(state),
            SegmentPhase::Publishing(s) => s.idx == self.run.idx && s.tracks(state),
            SegmentPhase::Timing(s) => s.idx == self.run.idx && s.tracks(state),
            SegmentPhase::Syncing => state.plan@[self.run.idx as int].end == OPEN_END
                || state.complete(self.run.idx as int),
            _ => true,
        }
    }

    /// Whether the segment waits for an event of this kind.
    pub fn expects(&self, event: &SegmentEvent) -> (r: bool)
        ensures
            r == awaits(self.phase, *event),
    {
        match (&self.phase, event) {
            (SegmentPhase::Seeding, SegmentEvent::Positioned) => true,
            (SegmentPhase::Dialing { .. }, SegmentEvent::Opened(_)) => true,
            (SegmentPhase::Dialing { .. }, SegmentEvent::Refused(_)) => true,
            (SegmentPhase::Reading(_), SegmentEvent::Chunk(_)) => true,
            (SegmentPhase::Reading(_), SegmentEvent::Ended) => true,
            (SegmentPhase::Reading(_), SegmentEvent::TimedOut) => true,
            (SegmentPhase::Reading(_), SegmentEvent::Broken(_)) => true,
            (SegmentPhase::Writing(_, _), SegmentEvent::Written) => true,
            (SegmentPhase::Flushing(_), SegmentEvent::Flushed) => true,
            (SegmentPhase::Publishing(_), SegmentEvent::Published) => true,
            (SegmentPhase::Timing(_), SegmentEvent::Age(_)) => true,
            (SegmentPhase::Closing(_), SegmentEvent::Flushed) => true,
            (SegmentPhase::Reporting(_), SegmentEvent::Published) => true,
            (SegmentPhase::Syncing, SegmentEvent::Synced) => true,
            _ => false,
        }
    }

    /// Turns to the next attempt, if there is one.
    fn redial(run: SegmentRun, state: &DownloadState, digest: &str) -> (r: (
        SegmentFetch,
        SegmentAction,
    ))
        requires
            state.wf(),
            run.idx < state.plan@.len(),
            run.attempt <= MAX_SEGMENT_ATTEMPTS,
        ensures
            redialled(run, *state, digest@, r.0, r.1),
            r.0.inv(*state),
    {
        let mut run = run;
        assert(state.reached(run.idx as int) <= state.plan@[run.idx as int].end);
        match run.dial(state, digest) {
            Dial::Settled => (SegmentFetch { run, phase: SegmentPhase::Over }, SegmentAction::Finish),
            Dial::Seed { pos } => (
                SegmentFetch { run, phase: SegmentPhase::Seeding },
                SegmentAction::ReadSeed { pos },
            ),
            Dial::Request { pos, len } => (
                SegmentFetch { run, phase: SegmentPhase::Dialing { pos } },
                SegmentAction::Request { pos, len },
            ),
            Dial::Exhausted(e) => (
                SegmentFetch { run, phase: SegmentPhase::Over },
                SegmentAction::Fail(e),
            ),
        }
    }

    /// Takes the next step. `state` is shared with the other segments of the blob.
    pub fn step(self, state: &mut DownloadState, event: SegmentEvent, digest: &str) -> (r: (
        SegmentFetch,
        SegmentAction,
    ))
        requires
            old(state).wf(),
            self.inv(*old(state)),
            awaits(self.phase, event),
        ensures
            stepped(self, *old(state), event, digest@, r.0, *final(state), r.1),
            final(state).wf(),
            r.0.inv(*final(state)),
    {
        let mut run = self.run;
        let idx: usize = run.idx;
        assert(state.reached(idx as int) <= state.plan@[idx as int].end);
        assert(state.countable()) by {
            assert forall|i: int| 0 <= i < state.plan@.len() implies #[trigger] state.reached(i)
                <= u64::MAX by {
                assert(state.reached(i) <= state.plan@[i].end);
            }
        }
        match (self.phase, event) {
            (SegmentPhase::Seeding, SegmentEvent::Positioned) => (
                SegmentFetch { run, phase: SegmentPhase::Reading(StreamRun::new(idx, 0)) },
                SegmentAction::Receive { new_window: true },
            ),
            (SegmentPhase::Dialing { pos }, SegmentEvent::Opened(answer)) => {
                let skip: u64 = match answer {
                    Answer::Partial => 0,
                    Answer::Full => pos,
                };
                (
                    SegmentFetch { run, phase: SegmentPhase::Reading(StreamRun::new(idx, skip)) },
                    SegmentAction::Receive { new_window: true },
                )
            },
            (SegmentPhase::Dialing { pos: _ }, SegmentEvent::Refused(e)) => {
                run.refused(e);
                Self::redial(run, state, digest)
            },
            (SegmentPhase::Reading(stream), SegmentEvent::Chunk(chunk)) => {
                let mut stream = stream;
                match stream.accept(state, chunk) {
                    Intake::Discarded => (
                        SegmentFetch { run, phase: SegmentPhase::Reading(stream) },
                        SegmentAction::Receive { new_window: false },
                    ),
                    Intake::Boundary => (
                        SegmentFetch { run, phase: SegmentPhase::Closing(StreamEnd::Boundary) },
                        SegmentAction::Flush,
                    ),
                    Intake::Write(data) => {
                        let n: u64 = chunk_len(&data) as u64;
                        (
                            SegmentFetch { run, phase: SegmentPhase::Writing(stream, n) },
                            SegmentAction::Write(data),
                        )
                    },
                }
            },
            (SegmentPhase::Reading(_), SegmentEvent::Ended) => (
                SegmentFetch { run, phase: SegmentPhase::Closing(StreamEnd::Finished) },
                SegmentAction::Flush,
            ),
            (SegmentPhase::Reading(_), SegmentEvent::TimedOut) => (
                SegmentFetch { run, phase: SegmentPhase::Closing(StreamEnd::Stalled) },
                SegmentAction::Flush,
            ),
            (SegmentPhase::Reading(_), SegmentEvent::Broken(e)) => (
                SegmentFetch { run, phase: SegmentPhase::Closing(StreamEnd::Broken(e)) },
                SegmentAction::Flush,
            ),
            (SegmentPhase::Writing(stream, n), SegmentEvent::Written) => {
                let mut stream = stream;
                if stream.wrote(state, n) {
                    (
                        SegmentFetch { run, phase: SegmentPhase::Flushing(stream) },
                        SegmentAction::Flush,
                    )
                } else {
                    (
                        SegmentFetch { run, phase: SegmentPhase::Timing(stream) },
                        SegmentAction::ReadClock,
                    )
                }
            },
            (SegmentPhase::Flushing(stream), SegmentEvent::Flushed) => (
                SegmentFetch { run, phase: SegmentPhase::Publishing(stream) },
                SegmentAction::Publish(state.contiguous()),
            ),
            (SegmentPhase::Publishing(stream), SegmentEvent::Published) => (
                SegmentFetch { run, phase: SegmentPhase::Timing(stream) },
                SegmentAction::ReadClock,
            ),
            (SegmentPhase::Timing(stream), SegmentEvent::Age(millis)) => {
                let mut stream = stream;
                match stream.check_window(millis) {
                    Window::Running => (
                        SegmentFetch { run, phase: SegmentPhase::Reading(stream) },
                        SegmentAction::Receive { new_window: false },
                    ),
                    Window::Renewed => (
                        SegmentFetch { run, phase: SegmentPhase::Reading(stream) },
                        SegmentAction::Receive { new_window: true },
                    ),
                    Window::Stalled => (
                        SegmentFetch { run, phase: SegmentPhase::Closing(StreamEnd::Stalled) },
                        SegmentAction::Flush,
                    ),
                }
            },
            (SegmentPhase::Closing(end), SegmentEvent::Flushed) => (
                SegmentFetch { run, phase: SegmentPhase::Reporting(end) },
                SegmentAction::Publish(state.contiguous()),
            ),
            (SegmentPhase::Reporting(end), SegmentEvent::Published) => {
                if run.over(state, end) {
                    (SegmentFetch { run, phase: SegmentPhase::Syncing }, SegmentAction::Sync)
                } else {
                    Self::redial(run, state, digest)
                }
            },
            (SegmentPhase::Syncing, _) => (
                SegmentFetch { run, phase: SegmentPhase::Over },
                SegmentAction::Finish,
            ),
            _ => {
                assert(false);
                (SegmentFetch { run, phase: SegmentPhase::Over }, SegmentAction::Finish)
            },
        }
    }
}

/// Begins the fetch of segment `idx`. `seeded` tells that a stream positioned at byte 0 is already
/// open for it.
pub fn run_segment(idx: usize, seeded: bool, state: &DownloadState, digest: &str) -> (r: (
    SegmentFetch,
    SegmentAction,
))
    requires
        state.wf(),
        idx < state.plan@.len(),
    ensures
        redialled(
            SegmentRun { idx, attempt: 0, seeded, last_err: None },
            *state,
            digest@,
            r.0,
            r.1,
        ),
        r.0.inv(*state),
{
    SegmentFetch::redial(
        SegmentRun { idx, attempt: 0, seeded, last_err: None },
        state,
        digest,
    )
}

/// One step of a segment, with the state of the download before and after it.
pub struct SegmentStep {
    pub before: SegmentFetch,
    pub state: DownloadState,
    pub event: SegmentEvent,
    pub after: SegmentFetch,
    pub state_after: DownloadState,
    pub action: SegmentAction,
}

impl SegmentStep {
    /// The step is one that a segment takes.
    pub open spec fn valid(self, digest: Seq<char>) -> bool {
        &&& self.before.inv(self.state)
        &&& stepped(
            self.before,
            self.state,
            self.event,
            digest,
            self.after,
            self.state_after,
            self.action,
        )
    }

    /// The step opens a connection, or turns to the one that is open already.
    pub open spec fn connects(self) -> bool {
        self.action is ReadSeed || self.action is Request
    }
}

/// Step `i` goes on where step `i - 1` has led.
pub open spec fn continues(trace: Seq<SegmentStep>, i: int) -> bool {
    trace[i].before == trace[i - 1].after
}

/// The steps of one segment, in order. Between them other segments may take theirs.
pub open spec fn is_trace(trace: Seq<SegmentStep>, digest: Seq<char>) -> bool {
    &&& forall|i: int| 0 <= i < trace.len() ==> (#[trigger] trace[i]).valid(digest)
    &&& forall|i: int| 1 <= i < trace.len() ==> #[trigger] continues(trace, i)
}

/// How many steps of a trace open a connection.
pub open spec fn connections_opened(trace: Seq<SegmentStep>) -> int
    decreases trace.len(),
{
    if trace.len() == 0 {
        0
    } else {
        connections_opened(trace.drop_last()) + (if trace.last().connects() {
            1int
        } else {
            0
        })
    }
}

proof fn lemma_connections(trace: Seq<SegmentStep>, digest: Seq<char>)
    requires
        is_trace(trace, digest),
        trace.len() > 0,
    ensures
        connections_opened(trace) <= trace.last().after.run.attempt - trace[0].before.run.attempt,
        connections_opened(trace) + trace[0].before.run.attempt < MAX_SEGMENT_ATTEMPTS,
    decreases trace.len(),
{
    let last = trace.last();
    assert(last.valid(digest));
    if trace.len() == 1 {
        assert(connections_opened(trace.drop_last()) == 0);
        assert(!(last.before.phase is Over));
    } else {
        let front = trace.drop_last();
        assert forall|i: int| 0 <= i < front.len() implies (#[trigger] front[i]).valid(digest) by {
            assert(trace[i].valid(digest));
        }
        assert forall|i: int| 1 <= i < front.len() implies #[trigger] continues(front, i) by {
            assert(continues(trace, i));
        }
        lemma_connections(front, digest);
        assert(continues(trace, trace.len() - 1));
        assert(last.before == front.last().after);
    }
}

/// A segment opens no more connections than it has attempts, the initial one included: whatever
/// happens to it, all its later steps together open fewer.
pub proof fn law_attempts_are_limited(trace: Seq<SegmentStep>, digest: Seq<char>)
    requires
        is_trace(trace, digest),
        trace.len() > 0,
        trace[0].before.run.attempt == 0,
    ensures
        1 + connections_opened(trace) <= MAX_SEGMENT_ATTEMPTS,
{
    lemma_connections(trace, digest);
}

/// A segment fails only when all its attempts are used up.
pub proof fn law_failure_takes_all_attempts(step: SegmentStep, digest: Seq<char>)
    requires
        step.valid(digest),
        step.action is Fail,
    ensures
        step.after.run.attempt == MAX_SEGMENT_ATTEMPTS,
{
}

/// A segment whose end is known fails only when bytes of it are missing.
pub proof fn law_failed_segment_is_short(step: SegmentStep, digest: Seq<char>)
    requires
        step.valid(digest),
        step.action is Fail,
        step.state.plan@[step.before.run.idx as int].end != OPEN_END,
    ensures
        !step.state_after.complete(step.before.run.idx as int),
{
}

/// What a segment publishes is what is readable from byte 0 on at that moment, never the sum of
/// the segments, and it publishes only when its own bytes have been flushed.
pub proof fn law_published_is_the_readable_prefix(step: SegmentStep, digest: Seq<char>, n: u64)
    requires
        step.valid(digest),
        step.state.wf(),
        step.action == SegmentAction::Publish(n),
    ensures
        n == step.state_after.readable(),
        step.event is Flushed,
{
    let state = step.state;
    if state.plan@.len() > 0 {
        let k = lemma_stop(state, 0);
        assert(state.reached(k) <= state.plan@[k].end);
    }
}

/// A segment whose end is known reports success only when it has been written to its end.
pub proof fn law_finished_segment_is_complete(step: SegmentStep, digest: Seq<char>)
    requires
        step.valid(digest),
        step.action is Finish,
        step.state.plan@[step.before.run.idx as int].end != OPEN_END,
    ensures
        step.state_after.complete(step.before.run.idx as int),
{
}

/// A redialled segment continues where it stopped, rather than from its start: it asks for exactly
/// the bytes that are missing.
pub proof fn law_redial_resumes(step: SegmentStep, digest: Seq<char>, pos: u64, len: Option<u64>)
    requires
        step.valid(digest),
        step.state.wf(),
        step.action == (SegmentAction::Request { pos, len }),
    ensures
        pos == step.state_after.reached(step.before.run.idx as int),
        len matches Some(n) ==> n == step.state_after.left(step.before.run.idx as int),
        len is None <==> step.state.plan@[step.before.run.idx as int].end == OPEN_END,
{
    assert(step.state.reached(step.before.run.idx as int)
        <= step.state.plan@[step.before.run.idx as int].end);
}

/// A segment is not disturbed by what the other segments write.
pub proof fn law_segments_do_not_interfere(
    fetch: SegmentFetch,
    state: DownloadState,
    later: DownloadState,
)
    requires
        fetch.inv(state),
        later.plan@ == state.plan@,
        later.written@[fetch.run.idx as int] == state.written@[fetch.run.idx as int],
    ensures
        fetch.inv(later),
{
}

impl SegmentStep {
    /// How far the step has moved the segment on.
    pub open spec fn wrote(self) -> int {
        self.state_after.reached(self.before.run.idx as int) - self.state.reached(
            self.before.run.idx as int,
        )
    }

    /// A stall window, and with it its clock, begins with this step.
    pub open spec fn begins_window(self) -> bool {
        self.action == (SegmentAction::Receive { new_window: true })
    }

    /// A body begins with this step.
    pub open spec fn begins_body(self) -> bool {
        self.event is Positioned || self.event is Opened
    }
}

/// How many bytes a segment has moved since its clock was started last.
pub open spec fn moved_on_clock(trace: Seq<SegmentStep>) -> int
    decreases trace.len(),
{
    if trace.len() == 0 || trace.last().begins_window() {
        0
    } else {
        moved_on_clock(trace.drop_last()) + trace.last().wrote()
    }
}

/// How many bytes a segment has moved since it asked for a flush last.
pub open spec fn moved_since_flush(trace: Seq<SegmentStep>) -> int
    decreases trace.len(),
{
    if trace.len() == 0 || trace.last().action is Flush {
        0
    } else {
        moved_since_flush(trace.drop_last()) + trace.last().wrote()
    }
}

/// The last refusal or broken connection that a segment was told of.
pub open spec fn last_trouble(trace: Seq<SegmentStep>) -> Option<String>
    decreases trace.len(),
{
    if trace.len() == 0 {
        None
    } else {
        match trace.last().event {
            SegmentEvent::Refused(e) => Some(e),
            SegmentEvent::Broken(e) => Some(e),
            _ => last_trouble(trace.drop_last()),
        }
    }
}

/// The reading of the body that a segment is in the middle of.
spec fn current(phase: SegmentPhase) -> Option<StreamRun> {
    match phase {
        SegmentPhase::Reading(s) => Some(s),
        SegmentPhase::Writing(s, _) => Some(s),
        SegmentPhase::Flushing(s) => Some(s),
        SegmentPhase::Publishing(s) => Some(s),
        SegmentPhase::Timing(s) => Some(s),
        _ => None,
    }
}

/// All steps of a trace but the last are a trace, and the last one goes on from there.
proof fn lemma_front(trace: Seq<SegmentStep>, digest: Seq<char>)
    requires
        is_trace(trace, digest),
        trace.len() > 1,
    ensures
        is_trace(trace.drop_last(), digest),
        trace.drop_last()[0] == trace[0],
        trace.last().valid(digest),
        trace.last().before == trace.drop_last().last().after,
{
    let front = trace.drop_last();
    assert(trace[trace.len() - 1].valid(digest));
    assert forall|i: int| 0 <= i < front.len() implies (#[trigger] front[i]).valid(digest) by {
        assert(trace[i].valid(digest));
    }
    assert forall|i: int| 1 <= i < front.len() implies #[trigger] continues(front, i) by {
        assert(continues(trace, i));
    }
    assert(continues(trace, trace.len() - 1));
}

proof fn lemma_counts(trace: Seq<SegmentStep>, digest: Seq<char>)
    requires
        is_trace(trace, digest),
        trace.len() > 0,
        trace[0].begins_body(),
    ensures
        match current(trace.last().after.phase) {
            Some(s) => s.window_bytes == moved_on_clock(trace) && s.unflushed == moved_since_flush(
                trace,
            ),
            None => moved_since_flush(trace) == 0,
        },
    decreases trace.len(),
{
    let last = trace.last();
    assert(trace[trace.len() - 1].valid(digest));
    let front = trace.drop_last();
    if trace.len() == 1 {
        assert(moved_on_clock(front) == 0);
        assert(moved_since_flush(front) == 0);
    } else {
        lemma_front(trace, digest);
        lemma_counts(front, digest);
    }
}

/// The bytes that a stall window is judged by and the clock that it is judged by begin together.
/// A clock is started exactly when a body begins, and when a window is over in which enough was
/// moved. A segment is told to be stalled by its clock exactly when eight seconds have run and less
/// than 8 MiB, one for each of them, have been moved since the clock was started. So a connection
/// that moves that much in every window is never given up for its clock.
pub proof fn law_count_and_clock_begin_together(
    trace: Seq<SegmentStep>,
    digest: Seq<char>,
    millis: u64,
)
    requires
        is_trace(trace, digest),
        trace.len() > 1,
        trace[0].begins_body(),
        trace.last().event == SegmentEvent::Age(millis),
    ensures
        ({
            let last = trace.last();
            let moved = moved_on_clock(trace.drop_last());
            &&& last.begins_window() <==> millis >= 8000 && moved >= 8 * 1024 * 1024
            &&& last.after.phase is Closing <==> millis >= 8000 && moved < 8 * 1024 * 1024
            &&& last.after.phase is Closing ==> last.after.phase == SegmentPhase::Closing(
                StreamEnd::Stalled,
            )
            &&& last.action == (SegmentAction::Receive { new_window: false }) <==> millis < 8000
            &&& last.after.run == last.before.run
        }),
{
    lemma_front(trace, digest);
    lemma_counts(trace.drop_last(), digest);
}

/// The clock of a stall window is started when a body begins, and by nothing else but the clock
/// itself.
pub proof fn law_clock_starts_with_the_body(step: SegmentStep, digest: Seq<char>)
    requires
        step.valid(digest),
        !(step.event is Age),
    ensures
        step.begins_window() <==> step.begins_body(),
{
}

/// The clock is looked at after every write, and progress is published in between if and only if a
/// megabyte or more has been written since the last flush.
pub proof fn law_progress_is_published_in_time(trace: Seq<SegmentStep>, digest: Seq<char>)
    requires
        is_trace(trace, digest),
        trace.len() > 1,
        trace[0].begins_body(),
        trace.last().event is Written,
    ensures
        ({
            let moved = moved_since_flush(trace.drop_last()) + trace.last().wrote();
            &&& trace.last().action is Flush <==> moved >= 1024 * 1024
            &&& trace.last().action is ReadClock <==> moved < 1024 * 1024
        }),
{
    lemma_front(trace, digest);
    lemma_counts(trace.drop_last(), digest);
    lemma_counts(trace, digest);
}

/// A flush is followed by a publication, and that by a look at the clock if the body goes on.
pub proof fn law_flush_is_published(step: SegmentStep, digest: Seq<char>)
    requires
        step.valid(digest),
    ensures
        step.action is Publish <==> step.event is Flushed,
        step.event is Published && current_body(step.before) ==> step.action is ReadClock,
{
}

/// The segment is in the middle of a body.
pub open spec fn current_body(fetch: SegmentFetch) -> bool {
    ||| fetch.phase is Reading
    ||| fetch.phase is Writing
    ||| fetch.phase is Flushing
    ||| fetch.phase is Publishing
    ||| fetch.phase is Timing
}

/// A connection is given up only for a reason: its body has ended, nothing came for a whole stall
/// window, it broke, the segment takes no more, or the clock ran out. Each is told apart from the
/// others, and each flushes what was written.
pub proof fn law_connection_is_given_up_for_a_reason(step: SegmentStep, digest: Seq<char>)
    requires
        step.valid(digest),
        current_body(step.before),
    ensures
        ({
            let state = step.state;
            let idx = step.before.run.idx as int;
            let missing = state.plan@[idx].start + state.written@[idx] < state.plan@[idx].end;
            &&& match step.event {
                SegmentEvent::Ended => step.after.phase == SegmentPhase::Closing(
                    StreamEnd::Finished,
                ),
                SegmentEvent::TimedOut => step.after.phase == SegmentPhase::Closing(
                    StreamEnd::Stalled,
                ),
                SegmentEvent::Broken(e) => step.after.phase == SegmentPhase::Closing(
                    StreamEnd::Broken(e),
                ),
                SegmentEvent::Chunk(_) => step.after.phase is Closing ==> !missing
                    && step.after.phase == SegmentPhase::Closing(StreamEnd::Boundary),
                SegmentEvent::Age(_) => true,
                _ => current_body(step.after),
            }
            &&& step.after.phase is Closing || current_body(step.after)
            &&& step.after.phase is Closing ==> step.action is Flush
            &&& step.after.run == step.before.run
        }),
{
}

/// What a chunk holds behind the bytes to be skipped is written, up to the end of the segment and
/// not a byte less. A chunk that lies in front of them is passed over, and the skip goes down by
/// its length.
pub proof fn law_chunk_is_written(
    step: SegmentStep,
    digest: Seq<char>,
    stream: StreamRun,
    chunk: bytes::Bytes,
)
    requires
        step.valid(digest),
        step.before.phase == SegmentPhase::Reading(stream),
        step.event == SegmentEvent::Chunk(chunk),
    ensures
        ({
            let state = step.state;
            let idx = step.before.run.idx as int;
            let room = state.plan@[idx].end - (state.plan@[idx].start + state.written@[idx]);
            let skip = stream.skip as int;
            let len = held(chunk).len() as int;
            if skip > 0 && len <= skip {
                &&& step.action == (SegmentAction::Receive { new_window: false })
                &&& step.after.phase matches SegmentPhase::Reading(s)
                &&& s.skip == skip - len
            } else if room > 0 {
                let n = if room < len - skip {
                    room
                } else {
                    len - skip
                };
                &&& step.action matches SegmentAction::Write(data)
                &&& held(data) == held(chunk).subrange(skip, skip + n)
                &&& step.after.phase matches SegmentPhase::Writing(s, written)
                &&& written == n && s.skip == 0
            } else {
                step.after.phase == SegmentPhase::Closing(StreamEnd::Boundary)
            }
        }),
{
    let state = step.state;
    let idx = step.before.run.idx as int;
    let skip = stream.skip as int;
    let len = held(chunk).len() as int;
    if !(skip > 0 && len <= skip) {
        match step.action {
            SegmentAction::Write(data) => {
                let n = held(data).len() as int;
                assert(held(data) =~= held(chunk).subrange(skip, skip + n));
            },
            _ => {},
        }
    }
}

/// The end of a body is judged by what the segment has reached, if its end is known: it is synced
/// if and only if no byte is missing. If its end is not known it is synced if and only if the body
/// ended of itself and nothing has ever gone wrong.
pub proof fn law_body_end_is_judged(step: SegmentStep, digest: Seq<char>, end: StreamEnd)
    requires
        step.valid(digest),
        step.before.phase == SegmentPhase::Reporting(end),
    ensures
        ({
            let state = step.state;
            let idx = step.before.run.idx as int;
            if state.plan@[idx].end == u64::MAX {
                step.action is Sync <==> (end is Finished || end is Boundary)
                    && step.before.run.last_err is None
            } else {
                step.action is Sync <==> state.plan@[idx].start + state.written@[idx]
                    >= state.plan@[idx].end
            }
        }),
{
}

/// A synced segment reports success.
pub proof fn law_synced_segment_finishes(step: SegmentStep, digest: Seq<char>)
    requires
        step.valid(digest),
        step.event is Synced,
    ensures
        step.action is Finish,
{
}

/// An attempt that came to nothing is followed by the next one, from the offset that the segment has
/// reached, as long as there is one: a segment with bytes missing dials four times.
pub proof fn law_attempts_are_used(step: SegmentStep, digest: Seq<char>)
    requires
        step.valid(digest),
        step.event is Refused || (step.before.phase is Reporting && !(step.action is Sync)),
    ensures
        ({
            let state = step.state;
            let idx = step.before.run.idx as int;
            let pos = state.plan@[idx].start + state.written@[idx];
            &&& step.after.run.attempt == step.before.run.attempt + 1
            &&& step.before.run.attempt + 1 == 4 ==> step.action is Fail
            &&& step.before.run.attempt + 1 < 4 && pos < state.plan@[idx].end ==> (
            step.action matches SegmentAction::Request { pos: asked, len: _ } && asked == pos)
        }),
{
}

/// A segment begins with the stream that is already open, if it is given that, and with a request
/// for all that it is to fetch if not. A segment of nothing is done at once.
pub proof fn law_segment_begins(
    state: DownloadState,
    digest: Seq<char>,
    idx: usize,
    seeded: bool,
    fetch: SegmentFetch,
    action: SegmentAction,
)
    requires
        state.wf(),
        idx < state.plan@.len(),
        redialled(
            SegmentRun { idx, attempt: 0, seeded, last_err: None },
            state,
            digest,
            fetch,
            action,
        ),
    ensures
        ({
            let pos = state.plan@[idx as int].start + state.written@[idx as int];
            let end = state.plan@[idx as int].end;
            &&& fetch.run.attempt == 0 && fetch.run.idx == idx && fetch.run.last_err is None
            &&& pos >= end ==> action is Finish
            &&& pos < end && seeded ==> (action matches SegmentAction::ReadSeed { pos: p } && p
                == pos)
            &&& pos < end && !seeded ==> (action matches SegmentAction::Request { pos: p, len }
                && p == pos && (if end == u64::MAX {
                len is None
            } else {
                len matches Some(n) && pos + n == end
            }))
        }),
{
    assert(state.reached(idx as int) <= state.plan@[idx as int].end);
}

proof fn lemma_attempts(trace: Seq<SegmentStep>, digest: Seq<char>)
    requires
        is_trace(trace, digest),
        trace.len() > 0,
    ensures
        trace.last().action is Fail ==> connections_opened(trace) + 1
            == trace.last().after.run.attempt - trace[0].before.run.attempt,
        !(trace.last().after.phase is Over) ==> connections_opened(trace)
            == trace.last().after.run.attempt - trace[0].before.run.attempt,
        trace[0].before.run.last_err is None ==> trace.last().after.run.last_err == told_of(trace),
    decreases trace.len(),
{
    let last = trace.last();
    assert(trace[trace.len() - 1].valid(digest));
    let front = trace.drop_last();
    if trace.len() == 1 {
        assert(connections_opened(front) == 0);
        assert(last_trouble(front) is None);
    } else {
        lemma_front(trace, digest);
        lemma_attempts(front, digest);
    }
}

/// The last trouble as far as it has been noted: that of a broken connection is noted when its body
/// has been closed.
spec fn told_of(trace: Seq<SegmentStep>) -> Option<String>
    decreases trace.len(),
{
    if trace.len() == 0 {
        None
    } else {
        let last = trace.last();
        match (last.before.phase, last.event) {
            (SegmentPhase::Dialing { .. }, SegmentEvent::Refused(e)) => Some(e),
            (
                SegmentPhase::Reporting(StreamEnd::Broken(e)),
                SegmentEvent::Published,
            ) => Some(e),
            _ => told_of(trace.drop_last()),
        }
    }
}

/// A broken connection whose body is being closed is the last trouble; otherwise what has been noted
/// is.
proof fn lemma_trouble(trace: Seq<SegmentStep>, digest: Seq<char>)
    requires
        is_trace(trace, digest),
        trace.len() > 0,
        trace[0].begins_body() || trace[0].before.phase is Seeding || trace[0].before.phase is Dialing,
    ensures
        match trace.last().after.phase {
            SegmentPhase::Closing(StreamEnd::Broken(e)) => last_trouble(trace) == Some(e),
            SegmentPhase::Reporting(StreamEnd::Broken(e)) => last_trouble(trace) == Some(e),
            _ => last_trouble(trace) == told_of(trace),
        },
    decreases trace.len(),
{
    let last = trace.last();
    assert(trace[trace.len() - 1].valid(digest));
    let front = trace.drop_last();
    if trace.len() == 1 {
        assert(last_trouble(front) is None);
        assert(told_of(front) is None);
    } else {
        lemma_front(trace, digest);
        lemma_trouble(front, digest);
    }
}

/// A segment that fails has opened four connections, no fewer and no more, and says so together
/// with the last thing that went wrong with them, if anything did.
pub proof fn law_failure_tells_the_last_trouble(trace: Seq<SegmentStep>, digest: Seq<char>)
    requires
        is_trace(trace, digest),
        trace.len() > 0,
        trace[0].before.run.attempt == 0,
        trace[0].before.run.last_err is None,
        trace[0].before.phase is Seeding || trace[0].before.phase is Dialing,
        trace.last().action is Fail,
    ensures
        1 + connections_opened(trace) == 4,
        trace.last().action matches SegmentAction::Fail(StreamCacheError::Download(t)) && t@
            == "segment "@ + decimal(trace.last().before.run.idx as nat) + " of "@ + digest
            + " did not complete in "@ + decimal(4) + " attempts"@ + (match last_trouble(trace) {
            Some(e) => ": "@ + e@,
            None => Seq::<char>::empty(),
        }),
{
    assert(trace[trace.len() - 1].valid(digest));
    lemma_attempts(trace, digest);
    lemma_trouble(trace, digest);
}

/// The events that can come of an action.
pub open spec fn comes_of(action: SegmentAction, event: SegmentEvent) -> bool {
    match event {
        SegmentEvent::Positioned => action is ReadSeed,
        SegmentEvent::Opened(_) => action is Request,
        SegmentEvent::Refused(_) => action is Request,
        SegmentEvent::Chunk(_) => action is Receive,
        SegmentEvent::Ended => action is Receive,
        SegmentEvent::TimedOut => action is Receive,
        SegmentEvent::Broken(_) => action is Receive,
        SegmentEvent::Written => action is Write,
        SegmentEvent::Flushed => action is Flush,
        SegmentEvent::Published => action is Publish,
        SegmentEvent::Age(_) => action is ReadClock,
        SegmentEvent::Synced => action is Sync,
    }
}

/// A segment takes whatever can come of what it wants done, and nothing else.
pub proof fn law_segment_takes_what_comes_of_its_action(
    step: SegmentStep,
    digest: Seq<char>,
    event: SegmentEvent,
)
    requires
        step.valid(digest),
    ensures
        awaits(step.after.phase, event) <==> comes_of(step.action, event),
{
}

/// So does a segment that begins.
pub proof fn law_new_segment_takes_what_comes_of_its_action(
    run: SegmentRun,
    state: DownloadState,
    digest: Seq<char>,
    fetch: SegmentFetch,
    action: SegmentAction,
    event: SegmentEvent,
)
    requires
        redialled(run, state, digest, fetch, action),
    ensures
        awaits(fetch.phase, event) <==> comes_of(action, event),
{
}

/// Every step that a segment takes is one of the steps that make up its trace.
pub proof fn law_steps_make_up_the_trace()
    ensures
        forall|
            fetch: SegmentFetch,
            state: &mut DownloadState,
            event: SegmentEvent,
            digest: &str,
            r: (SegmentFetch, SegmentAction),
        |
            #[trigger] call_ensures(SegmentFetch::step, (fetch, state, event, digest), r)
                && state.wf() && fetch.inv(*state) && awaits(fetch.phase, event) ==> {
                &&& (SegmentStep {
                    before: fetch,
                    state: *state,
                    event,
                    after: r.0,
                    state_after: *final(state),
                    action: r.1,
                }).valid(digest@)
                &&& final(state).wf()
                &&& r.0.inv(*final(state))
            },
{
}

} // verus!
