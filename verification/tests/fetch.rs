use std::collections::VecDeque;

use blobstream::error::StreamCacheError;
use blobstream::fetch::{
    run_segment, SegmentAction, SegmentEvent, SegmentFetch, SegmentPhase, MAX_SEGMENT_ATTEMPTS,
};
use blobstream::segment::{Segment, OPEN_END};
use blobstream::state::DownloadState;
use blobstream::stream::{
    probe_range, range_supported, Answer, Intake, StreamRun, Window, PUBLISH_INTERVAL, STALL_MIN_BYTES,
    STALL_WINDOW_MILLIS,
};
use bytes::Bytes;

/// One response body, as a list of things that come.
enum Body {
    Chunk(Vec<u8>),
    Timeout,
    Error(&'static str),
}

/// How the upstream reacts to the next request, given the offset that was asked for.
type Reaction = Box<dyn FnOnce(u64, Option<u64>) -> Result<(Answer, Vec<Body>), String>>;

/// An upstream, a file and the state of the download, all in memory.
struct World {
    state: DownloadState,
    file: Vec<u8>,
    published: Vec<u64>,
    requests: Vec<(u64, Option<u64>)>,
    age: u64,
}

impl World {
    fn new(plan: &[(u64, u64)], size: usize) -> World {
        World {
            state: DownloadState::new(
                plan.iter()
                    .map(|&(start, end)| Segment { start, end })
                    .collect(),
            ),
            file: vec![0u8; size],
            published: Vec::new(),
            requests: Vec::new(),
            age: 0,
        }
    }

    fn run(
        &mut self,
        idx: usize,
        seed: Option<Vec<Body>>,
        reactions: Vec<Reaction>,
    ) -> Result<(), String> {
        let mut reactions: VecDeque<Reaction> = reactions.into();
        let mut body: VecDeque<Body> = VecDeque::new();
        let mut seed = seed;
        let mut cursor: usize = 0;
        let (mut fetch, mut action): (SegmentFetch, SegmentAction) =
            run_segment(idx, seed.is_some(), &self.state, "sha256:feed");
        loop {
            let event = match action {
                SegmentAction::ReadSeed { pos } => {
                    cursor = pos as usize;
                    body = seed.take().unwrap().into();
                    SegmentEvent::Positioned
                }
                SegmentAction::Request { pos, len } => {
                    cursor = pos as usize;
                    self.requests.push((pos, len));
                    match reactions.pop_front().unwrap()(pos, len) {
                        Ok((answer, chunks)) => {
                            body = chunks.into();
                            SegmentEvent::Opened(answer)
                        }
                        Err(e) => SegmentEvent::Refused(e),
                    }
                }
                SegmentAction::Receive { .. } => match body.pop_front() {
                    Some(Body::Chunk(c)) => SegmentEvent::Chunk(Bytes::from(c)),
                    Some(Body::Timeout) => SegmentEvent::TimedOut,
                    Some(Body::Error(e)) => SegmentEvent::Broken(e.to_string()),
                    None => SegmentEvent::Ended,
                },
                SegmentAction::Write(data) => {
                    let end = cursor + data.len();
                    self.file[cursor..end].copy_from_slice(&data);
                    cursor = end;
                    SegmentEvent::Written
                }
                SegmentAction::Flush => SegmentEvent::Flushed,
                SegmentAction::Publish(n) => {
                    assert_eq!(n, self.state.contiguous());
                    self.published.push(n);
                    SegmentEvent::Published
                }
                SegmentAction::ReadClock => SegmentEvent::Age(self.age),
                SegmentAction::Sync => SegmentEvent::Synced,
                SegmentAction::Finish => return Ok(()),
                SegmentAction::Fail(StreamCacheError::Download(t)) => return Err(t),
                SegmentAction::Fail(e) => panic!("{e:?}"),
            };
            assert!(fetch.expects(&event));
            let (next, wanted) = fetch.step(&mut self.state, event, "sha256:feed");
            fetch = next;
            action = wanted;
        }
    }
}

fn chunks(parts: &[&[u8]]) -> Vec<Body> {
    parts.iter().map(|p| Body::Chunk(p.to_vec())).collect()
}

fn partial(parts: &'static [&'static [u8]]) -> Reaction {
    Box::new(move |_, _| Ok((Answer::Partial, chunks(parts))))
}

fn full(parts: &'static [&'static [u8]]) -> Reaction {
    Box::new(move |_, _| Ok((Answer::Full, chunks(parts))))
}

fn refuse(e: &'static str) -> Reaction {
    Box::new(move |_, _| Err(e.to_string()))
}

#[test]
fn a_seeded_segment_needs_no_request() {
    let mut w = World::new(&[(0, 11)], 11);
    w.run(0, Some(chunks(&[b"hello ", b"world"])), vec![]).unwrap();
    assert_eq!(w.file, b"hello world");
    assert_eq!(w.state.written, vec![11]);
    assert!(w.requests.is_empty());
    assert_eq!(w.published.last(), Some(&11));
}

#[test]
fn a_short_body_is_resumed_where_it_stopped() {
    let mut w = World::new(&[(0, 11)], 11);
    w.run(0, Some(chunks(&[b"hell"])), vec![partial(&[b"o wo", b"rld"])])
        .unwrap();
    assert_eq!(w.file, b"hello world");
    assert_eq!(w.requests, vec![(4, Some(7))]);
}

#[test]
fn a_body_from_byte_zero_is_skipped_into() {
    let mut w = World::new(&[(0, 11)], 11);
    w.run(
        0,
        Some(chunks(&[b"hell"])),
        vec![full(&[b"he", b"l", b"lo w", b"orld"])],
    )
    .unwrap();
    assert_eq!(w.file, b"hello world");
}

#[test]
fn a_body_that_runs_on_is_cut_at_the_boundary() {
    let mut w = World::new(&[(0, 5), (5, 11)], 11);
    // The seed runs to the end of the blob, segment 0 takes its own part only.
    w.run(0, Some(chunks(&[b"hel", b"lo wor", b"ld"])), vec![]).unwrap();
    assert_eq!(w.file, b"hello\0\0\0\0\0\0");
    assert_eq!(w.published.last(), Some(&5));
    w.run(1, None, vec![partial(&[b" wor", b"ld"])]).unwrap();
    assert_eq!(w.file, b"hello world");
    assert_eq!(w.requests, vec![(5, Some(6))]);
    assert_eq!(w.published.last(), Some(&11));
}

#[test]
fn a_tail_segment_first_publishes_nothing() {
    let mut w = World::new(&[(0, 5), (5, 11)], 11);
    w.run(1, None, vec![partial(&[b" world"])]).unwrap();
    assert_eq!(w.published, vec![0]);
    w.run(0, Some(chunks(&[b"hello world"])), vec![]).unwrap();
    assert_eq!(w.published.last(), Some(&11));
    assert_eq!(w.file, b"hello world");
}

#[test]
fn a_full_answer_to_a_tail_segment_lands_in_place() {
    let mut w = World::new(&[(0, 5), (5, 11)], 11);
    w.run(1, None, vec![full(&[b"hello wo", b"rld"])]).unwrap();
    assert_eq!(w.file, b"\0\0\0\0\0 world");
    assert_eq!(w.state.written, vec![0, 6]);
}

#[test]
fn timeouts_and_errors_are_redialled() {
    let mut w = World::new(&[(0, 11)], 11);
    w.run(
        0,
        Some(vec![Body::Chunk(b"he".to_vec()), Body::Timeout]),
        vec![
            Box::new(|_, _| {
                Ok((
                    Answer::Partial,
                    vec![Body::Chunk(b"llo".to_vec()), Body::Error("reset")],
                ))
            }),
            refuse("503"),
            partial(&[b" world"]),
        ],
    )
    .unwrap();
    assert_eq!(w.requests, vec![(2, Some(9)), (5, Some(6)), (5, Some(6))]);
    assert_eq!(w.file, b"hello world");
}

#[test]
fn a_segment_gives_up_after_its_attempts() {
    let mut w = World::new(&[(0, 3), (3, 11)], 11);
    let e = w
        .run(1, None, vec![refuse("a"), refuse("b"), refuse("c"), refuse("d")])
        .unwrap_err();
    assert_eq!(w.requests.len(), MAX_SEGMENT_ATTEMPTS);
    assert_eq!(e, "segment 1 of sha256:feed did not complete in 4 attempts: d");
}

#[test]
fn a_segment_that_only_stalls_fails_without_a_cause() {
    let stall = || -> Reaction { Box::new(|_, _| Ok((Answer::Partial, vec![Body::Timeout]))) };
    let mut w = World::new(&[(0, 11)], 11);
    let e = w
        .run(0, Some(vec![Body::Timeout]), vec![stall(), stall(), stall()])
        .unwrap_err();
    assert_eq!(w.requests.len(), 3);
    assert_eq!(e, "segment 0 of sha256:feed did not complete in 4 attempts");
}

#[test]
fn a_segment_that_is_complete_asks_for_nothing() {
    let mut w = World::new(&[(0, 3)], 3);
    w.state.advance(0, 3);
    w.run(0, None, vec![]).unwrap();
    assert!(w.requests.is_empty());
    assert!(w.published.is_empty());
    let mut w = World::new(&[(0, 0)], 0);
    w.run(0, Some(vec![]), vec![]).unwrap();
}

#[test]
fn an_open_end_is_complete_when_its_body_ends() {
    let mut w = World::new(&[(0, OPEN_END)], 11);
    w.run(0, Some(chunks(&[b"hello ", b"world"])), vec![]).unwrap();
    assert_eq!(w.state.written, vec![11]);
}

#[test]
fn an_open_end_is_asked_for_without_a_length() {
    let mut w = World::new(&[(0, OPEN_END)], 11);
    w.run(
        0,
        Some(vec![Body::Chunk(b"hello ".to_vec()), Body::Timeout]),
        vec![partial(&[b"world"])],
    )
    .unwrap();
    assert_eq!(w.requests, vec![(6, None)]);
    assert_eq!(w.file, b"hello world");
}

#[test]
fn an_open_end_never_completes_after_an_error() {
    let mut w = World::new(&[(0, OPEN_END)], 11);
    let e = w
        .run(
            0,
            Some(vec![Body::Chunk(b"hello ".to_vec()), Body::Error("reset")]),
            vec![partial(&[b"world"]), partial(&[]), partial(&[])],
        )
        .unwrap_err();
    assert_eq!(e, "segment 0 of sha256:feed did not complete in 4 attempts: reset");
}

#[test]
fn a_trickle_is_a_stall() {
    let mut w = World::new(&[(0, 11)], 11);
    w.age = STALL_WINDOW_MILLIS;
    // Every chunk is too little for a window that is over, so each attempt takes one chunk.
    w.run(
        0,
        Some(chunks(&[b"hello", b" lost"])),
        vec![partial(&[b" wor", b"lost"]), partial(&[b"ld"])],
    )
    .unwrap();
    assert_eq!(w.file, b"hello world");
    assert_eq!(w.requests, vec![(5, Some(6)), (9, Some(2))]);
}

#[test]
fn progress_is_published_in_batches() {
    let half = (PUBLISH_INTERVAL / 2) as usize;
    let size = half * 4;
    let mut w = World::new(&[(0, size as u64)], size);
    let seed = vec![
        Body::Chunk(vec![1u8; half]),
        Body::Chunk(vec![2u8; half]),
        Body::Chunk(vec![3u8; half]),
        Body::Chunk(vec![4u8; half]),
    ];
    w.run(0, Some(seed), vec![]).unwrap();
    assert_eq!(
        w.published,
        vec![PUBLISH_INTERVAL, PUBLISH_INTERVAL * 2, PUBLISH_INTERVAL * 2]
    );
}

#[test]
fn a_stall_window_is_judged_when_it_is_over() {
    let mut s = StreamRun::new(0, 0);
    assert_eq!(s.check_window(STALL_WINDOW_MILLIS - 1), Window::Running);
    assert_eq!(s.check_window(STALL_WINDOW_MILLIS), Window::Stalled);
    s.window_bytes = STALL_MIN_BYTES - 1;
    assert_eq!(s.check_window(STALL_WINDOW_MILLIS), Window::Stalled);
    s.window_bytes = STALL_MIN_BYTES;
    assert_eq!(s.check_window(STALL_WINDOW_MILLIS - 1), Window::Running);
    assert_eq!(s.window_bytes, STALL_MIN_BYTES);
    assert_eq!(s.check_window(STALL_WINDOW_MILLIS), Window::Renewed);
    assert_eq!(s.window_bytes, 0);
}

#[test]
fn chunks_are_cut_to_what_is_wanted() {
    let state = DownloadState::new(vec![Segment { start: 0, end: 4 }]);
    let mut s = StreamRun::new(0, 3);
    assert!(matches!(s.accept(&state, Bytes::from_static(b"ab")), Intake::Discarded));
    assert_eq!(s.skip, 1);
    assert!(matches!(s.accept(&state, Bytes::from_static(b"c")), Intake::Discarded));
    assert_eq!(s.skip, 0);
    match s.accept(&state, Bytes::from_static(b"defgh")) {
        Intake::Write(data) => assert_eq!(&data[..], b"defg"),
        r => panic!("{r:?}"),
    }
    let mut s = StreamRun::new(0, 3);
    match s.accept(&state, Bytes::from_static(b"abcde")) {
        Intake::Write(data) => assert_eq!(&data[..], b"de"),
        r => panic!("{r:?}"),
    }
    // An empty chunk is written like any other when nothing is to be skipped.
    match s.accept(&state, Bytes::new()) {
        Intake::Write(data) => assert!(data.is_empty()),
        r => panic!("{r:?}"),
    }
    let mut done = DownloadState::new(vec![Segment { start: 0, end: 4 }]);
    done.advance(0, 4);
    assert!(matches!(s.accept(&done, Bytes::from_static(b"x")), Intake::Boundary));
}

#[test]
fn chunking_does_not_change_what_is_kept() {
    let body: Vec<u8> = (0..40).collect();
    for size in 1..41usize {
        let mut w = World::new(&[(0, 7), (7, 30)], 40);
        let parts: Vec<Body> = body.chunks(size).map(|c| Body::Chunk(c.to_vec())).collect();
        w.run(1, None, vec![Box::new(move |_, _| Ok((Answer::Full, parts)))])
            .unwrap();
        assert_eq!(&w.file[7..30], &body[7..30]);
        assert!(w.file[..7].iter().all(|b| *b == 0));
        assert!(w.file[30..].iter().all(|b| *b == 0));
    }
}

#[test]
fn only_a_partial_answer_shows_range_support() {
    assert_eq!(probe_range(), (0, Some(1)));
    assert!(range_supported(Ok(Answer::Partial)));
    assert!(!range_supported(Ok(Answer::Full)));
    assert!(!range_supported(Err("405".to_string())));
}

#[test]
fn unexpected_events_are_told_apart() {
    let state = DownloadState::new(vec![Segment { start: 0, end: 4 }]);
    let (fetch, action) = run_segment(0, false, &state, "sha256:feed");
    assert!(matches!(action, SegmentAction::Request { pos: 0, len: Some(4) }));
    assert!(matches!(fetch.phase, SegmentPhase::Dialing { pos: 0 }));
    assert!(fetch.expects(&SegmentEvent::Opened(Answer::Full)));
    assert!(!fetch.expects(&SegmentEvent::Written));
}

#[test]
fn nothing_is_published_before_the_flush() {
    let mut state = DownloadState::new(vec![Segment { start: 0, end: 3 }]);
    let (fetch, _) = run_segment(0, true, &state, "sha256:feed");
    let (fetch, _) = fetch.step(&mut state, SegmentEvent::Positioned, "sha256:feed");
    let (fetch, action) =
        fetch.step(&mut state, SegmentEvent::Chunk(Bytes::from_static(b"ab")), "sha256:feed");
    assert!(matches!(action, SegmentAction::Write(_)));
    let (fetch, action) = fetch.step(&mut state, SegmentEvent::Written, "sha256:feed");
    assert!(matches!(action, SegmentAction::ReadClock));
    let (fetch, _) = fetch.step(&mut state, SegmentEvent::Age(0), "sha256:feed");
    let (fetch, action) = fetch.step(&mut state, SegmentEvent::Ended, "sha256:feed");
    assert!(matches!(action, SegmentAction::Flush));
    assert!(matches!(fetch.phase, SegmentPhase::Closing(_)));
    let (fetch, action) = fetch.step(&mut state, SegmentEvent::Flushed, "sha256:feed");
    assert!(matches!(action, SegmentAction::Publish(2)));
    let (_, action) = fetch.step(&mut state, SegmentEvent::Published, "sha256:feed");
    assert!(matches!(action, SegmentAction::Request { pos: 2, len: Some(1) }));
}
