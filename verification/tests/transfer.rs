use blobstream::digest::Sha256File;
use blobstream::download::{run_download, DownloadRequest};
use blobstream::fetch::{run_segment, SegmentAction, SegmentEvent, SegmentFetch};
use blobstream::progress::DownloadProgress;
use blobstream::segment::needs_probe;
use blobstream::state::DownloadState;
use blobstream::stream::{range_supported, Answer};
use blobstream::tail::{tailing_reader, TailStep, TailingReader};
use bytes::Bytes;

const CHUNK: usize = 96 * 1024;

/// Non-uniform content, so that a file put together wrongly cannot pass by accident.
fn layer(n: usize) -> Vec<u8> {
    let mut v = Vec::with_capacity(n + 4);
    let mut x: u32 = 0x9e37_79b9;
    while v.len() < n {
        x ^= x << 13;
        x ^= x >> 17;
        x ^= x << 5;
        v.extend_from_slice(&x.to_le_bytes());
    }
    v.truncate(n);
    v
}

fn digest_of(content: &[u8]) -> String {
    let mut file = Sha256File::new();
    assert!(file.absorb(content, content.len()));
    file.finish()
}

/// One segment with its connection and its file handle.
struct Segment {
    fetch: Option<SegmentFetch>,
    action: Option<SegmentAction>,
    cursor: usize,
    /// What is still to come on the connection.
    body: (usize, usize),
    done: bool,
}

impl Segment {
    fn new(idx: usize, seeded: bool, state: &DownloadState, digest: &str) -> Segment {
        let (fetch, action) = run_segment(idx, seeded, state, digest);
        Segment {
            fetch: Some(fetch),
            action: Some(action),
            cursor: 0,
            body: (0, 0),
            done: false,
        }
    }

    /// Takes one step. Bodies break off `cut` bytes after their start.
    fn step(
        &mut self,
        state: &mut DownloadState,
        blob: &[u8],
        file: &mut [u8],
        ranges: &mut Vec<(u64, Option<u64>)>,
        progress: &mut DownloadProgress,
        honours_range: bool,
        cut: usize,
        digest: &str,
    ) {
        let event = match self.action.take().unwrap() {
            SegmentAction::ReadSeed { pos } => {
                self.cursor = pos as usize;
                self.body = (0, blob.len().min(cut));
                SegmentEvent::Positioned
            }
            SegmentAction::Request { pos, len } => {
                self.cursor = pos as usize;
                ranges.push((pos, len));
                let start = if honours_range { pos as usize } else { 0 };
                let end = match len {
                    Some(len) if honours_range => start + len as usize,
                    _ => blob.len(),
                };
                self.body = (start, end.min(start + cut));
                SegmentEvent::Opened(if honours_range {
                    Answer::Partial
                } else {
                    Answer::Full
                })
            }
            SegmentAction::Receive { .. } => {
                let (at, end) = self.body;
                if at == end {
                    SegmentEvent::Ended
                } else {
                    let next = end.min(at + CHUNK);
                    self.body = (next, end);
                    SegmentEvent::Chunk(Bytes::copy_from_slice(&blob[at..next]))
                }
            }
            SegmentAction::Write(data) => {
                let end = self.cursor + data.len();
                file[self.cursor..end].copy_from_slice(&data);
                self.cursor = end;
                SegmentEvent::Written
            }
            SegmentAction::Flush => SegmentEvent::Flushed,
            SegmentAction::Publish(n) => {
                assert_eq!(n, state.contiguous());
                progress.publish(n);
                SegmentEvent::Published
            }
            SegmentAction::ReadClock => SegmentEvent::Age(0),
            SegmentAction::Sync => SegmentEvent::Synced,
            SegmentAction::Finish => {
                self.done = true;
                return;
            }
            SegmentAction::Fail(e) => panic!("{e:?}"),
        };
        let fetch = self.fetch.take().unwrap();
        assert!(fetch.expects(&event));
        let (fetch, action) = fetch.step(state, event, digest);
        self.fetch = Some(fetch);
        self.action = Some(action);
    }
}

/// Lets a reader look at the progress once. Tells whether it got something.
fn read_once(
    reader: &mut TailingReader,
    progress: &DownloadProgress,
    file: &[u8],
    out: &mut Vec<u8>,
) -> bool {
    match reader.step(progress) {
        TailStep::Read { offset, len } => {
            let at = offset as usize;
            let buf = file[at..at + len].to_vec();
            out.extend_from_slice(&reader.read(buf, len).unwrap());
            true
        }
        TailStep::Wait => false,
        TailStep::Eof => false,
        TailStep::Fail(t) => panic!("{t}"),
    }
}

/// Downloads a blob with its segments in turn, and gives the ranges that were asked for.
fn download(blob: &[u8], length: Option<u64>, honours_range: bool, cut: usize) -> Vec<(u64, Option<u64>)> {
    let digest = digest_of(blob);
    let request = DownloadRequest {
        digest: digest.clone(),
        repo: "f/docker.io/library/alpine".to_string(),
        size: None,
    };
    let open = run_download(request, Ok(length)).unwrap();
    let answer = if honours_range {
        Answer::Partial
    } else {
        Answer::Full
    };
    let ranges = needs_probe(open.total) && range_supported(Ok(answer));
    let mut state = open.plan(ranges);
    let mut file = vec![0u8; blob.len()];
    let mut asked = Vec::new();
    let mut segments: Vec<Segment> = (0..state.plan.len())
        .map(|idx| Segment::new(idx, open.seeds(idx), &state, &digest))
        .collect();
    let mut progress = DownloadProgress::default();
    open.announce(&mut progress);
    // Some readers, one of which looks at every step and the others less often.
    let mut readers: Vec<(usize, TailingReader, Vec<u8>)> = [1, 7, 1000]
        .into_iter()
        .map(|every| (every, tailing_reader(), Vec::new()))
        .collect();
    let mut round: usize = 0;
    while segments.iter().any(|s| !s.done) {
        for s in segments.iter_mut().filter(|s| !s.done) {
            s.step(
                &mut state,
                blob,
                &mut file,
                &mut asked,
                &mut progress,
                honours_range,
                cut,
                &digest,
            );
        }
        round += 1;
        for (every, reader, out) in readers.iter_mut() {
            if round % *every == 0 {
                read_once(reader, &progress, &file, out);
            }
        }
    }
    let fetched = open.fetched(Ok(()), &state).unwrap();
    progress.finish(Ok(fetched.written));
    for (_, reader, out) in readers.iter_mut() {
        while read_once(reader, &progress, &file, out) {}
        assert!(out == blob);
    }
    assert_eq!(fetched.written, blob.len() as u64);
    assert!(file == blob);
    let mut hash = Sha256File::new();
    assert!(hash.absorb(&file, file.len()));
    assert_eq!(fetched.verify(hash).unwrap().computed, digest);
    asked
}

#[test]
fn a_large_blob_is_assembled_from_its_segments() {
    let blob = layer(40 * 1024 * 1024);
    let half = 20 * 1024 * 1024;
    // The first segment rides the stream that is open already, the other asks for the tail.
    let asked = download(&blob, Some(blob.len() as u64), true, usize::MAX - blob.len());
    assert_eq!(asked, vec![(half, Some(half))]);
}

#[test]
fn a_large_blob_comes_over_one_stream_without_ranges() {
    let blob = layer(40 * 1024 * 1024);
    let asked = download(&blob, Some(blob.len() as u64), false, usize::MAX - blob.len());
    assert!(asked.is_empty());
}

#[test]
fn a_blob_is_resumed_after_a_short_body() {
    let blob = layer(1024 * 1024);
    let asked = download(&blob, Some(1024 * 1024), true, 400 * 1024);
    assert_eq!(
        asked,
        vec![(409_600, Some(638_976)), (819_200, Some(229_376))]
    );
}

#[test]
fn a_blob_of_unknown_size_is_taken_to_its_end() {
    let blob = layer(300_000);
    let asked = download(&blob, None, true, usize::MAX - blob.len());
    assert!(asked.is_empty());
}
