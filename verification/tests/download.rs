use blobstream::digest::{check_digest, Sha256File};
use blobstream::download::{run_download, DownloadRequest, FetchedBlob, OpenDownload};
use blobstream::error::StreamCacheError;
use blobstream::progress::DownloadProgress;
use blobstream::segment::{Segment, OPEN_END, PARALLEL_MIN_SIZE};

const ABC: &str = "sha256:ba7816bf8f01cfea414140de5dae2223b00361a396177a9cb410ff61f20015ad";
const EMPTY: &str = "sha256:e3b0c44298fc1c149afbf4c8996fb92427ae41e4649b934ca495991b7852b855";

fn request(digest: &str, size: Option<u64>) -> DownloadRequest {
    DownloadRequest {
        digest: digest.to_string(),
        repo: "f/docker.io/library/alpine".to_string(),
        size,
    }
}

fn hashed(parts: &[&[u8]]) -> Sha256File {
    let mut file = Sha256File::new();
    for part in parts {
        let mut buf = part.to_vec();
        buf.extend_from_slice(b"left over from an earlier read");
        assert!(file.absorb(&buf, part.len()));
    }
    assert!(!file.absorb(b"left over", 0));
    file
}

fn download_text(e: StreamCacheError) -> String {
    match e {
        StreamCacheError::Download(t) => t,
        other => panic!("unexpected {other:?}"),
    }
}

#[test]
fn digest_of_a_file_read_in_parts() {
    assert_eq!(hashed(&[]).finish(), EMPTY);
    assert_eq!(hashed(&[b"abc"]).finish(), ABC);
    assert_eq!(
        hashed(&[b"{}"]).finish(),
        "sha256:44136fa355b3678a1146ad16f7e8649e94fb4fc21fe77e8310c060f61caaff8a"
    );
    assert_eq!(hashed(&[b"{}"]).finish().len(), 71);
    assert_eq!(hashed(&[b"a", b"bc"]).finish(), ABC);
    assert_eq!(
        hashed(&[b"streaming-", b"layer-contents"]).finish(),
        hashed(&[b"streaming-layer-contents"]).finish()
    );
}

#[test]
fn matching_digest_is_accepted() {
    assert!(check_digest(ABC, ABC).is_ok());
}

#[test]
fn mismatch_is_refused_with_both_digests() {
    let e = check_digest(ABC, EMPTY).unwrap_err();
    assert_eq!(
        download_text(e),
        format!("digest mismatch: expected {ABC}, got {EMPTY}")
    );
}

#[test]
fn digests_of_another_kind_are_not_checked() {
    assert!(check_digest("sha512:00", ABC).is_ok());
}

#[test]
fn the_upstream_refuses() {
    let e = run_download(request(ABC, None), Err("503".to_string())).unwrap_err();
    assert_eq!(e.message(), "Upstream blob request failed: 503");
}

#[test]
fn the_response_length_counts_before_the_descriptor() {
    let open = run_download(request(ABC, Some(7)), Ok(Some(3))).unwrap();
    assert_eq!(open.total, Some(3));
    let open = run_download(request(ABC, Some(7)), Ok(None)).unwrap();
    assert_eq!(open.total, Some(7));
    let open = run_download(request(ABC, None), Ok(None)).unwrap();
    assert_eq!(open.total, None);
}

#[test]
fn a_known_size_is_announced() {
    let mut p = DownloadProgress::default();
    let open = OpenDownload { request: request(ABC, None), total: None };
    open.announce(&mut p);
    assert_eq!(p.expected, None);
    let open = OpenDownload { request: request(ABC, None), total: Some(3) };
    open.announce(&mut p);
    assert_eq!(p.expected, Some(3));
    assert_eq!(p.written, 0);
    assert!(p.terminal.is_none());
}

#[test]
fn only_the_first_segment_gets_the_open_stream() {
    let open = run_download(request(ABC, None), Ok(Some(3))).unwrap();
    assert!(open.seeds(0));
    assert!(!open.seeds(1) && !open.seeds(7));
}

#[test]
fn plans_start_empty() {
    let open = OpenDownload { request: request(ABC, None), total: None };
    let state = open.plan(true);
    assert_eq!(state.plan, vec![Segment { start: 0, end: OPEN_END }]);
    assert_eq!(state.written, vec![0]);
    let open = OpenDownload { request: request(ABC, None), total: Some(PARALLEL_MIN_SIZE * 2) };
    assert_eq!(open.plan(true).written, vec![0, 0]);
    assert_eq!(open.plan(false).written, vec![0]);
}

#[test]
fn a_short_download_is_refused() {
    let open = OpenDownload { request: request(ABC, None), total: Some(30) };
    let mut state = open.plan(false);
    state.advance(0, 12);
    let e = open.fetched(Ok(()), &state).unwrap_err();
    assert_eq!(download_text(e), "short download: expected 30 bytes, got 12");
}

#[test]
fn a_failed_segment_ends_the_download() {
    let open = OpenDownload { request: request(ABC, None), total: Some(3) };
    let mut state = open.plan(false);
    state.advance(0, 3);
    let cause = StreamCacheError::Download("segment 1 gave up".to_string());
    let e = open.fetched(Err(cause), &state).unwrap_err();
    assert_eq!(download_text(e), "segment 1 gave up");
}

#[test]
fn any_length_will_do_when_none_is_known() {
    let open = OpenDownload { request: request(ABC, None), total: None };
    let mut state = open.plan(false);
    state.advance(0, 12);
    assert_eq!(open.fetched(Ok(()), &state).unwrap().written, 12);
}

#[test]
fn a_whole_and_true_blob_is_stored() {
    let open = run_download(request(ABC, None), Ok(Some(3))).unwrap();
    let mut state = open.plan(false);
    state.advance(0, 3);
    let fetched = open.fetched(Ok(()), &state).unwrap();
    let verified = fetched.verify(hashed(&[b"ab", b"c"])).unwrap();
    assert_eq!(verified.computed, ABC);
    let promoted = verified.promoted(Ok(())).unwrap();
    assert_eq!(promoted.row_size(), 3);
    let recorded = promoted.recorded(Ok(())).unwrap();
    assert_eq!(recorded.request.digest, ABC);
    assert_eq!(recorded.request.repo, "f/docker.io/library/alpine");
    assert_eq!(recorded.associated(Ok(())).unwrap(), 3);
}

#[test]
fn a_corrupt_file_is_not_promoted() {
    let fetched = FetchedBlob { request: request(ABC, None), written: 3 };
    let e = fetched.verify(hashed(&[b"abd"])).unwrap_err();
    let got = hashed(&[b"abd"]).finish();
    assert_eq!(
        download_text(e),
        format!("digest mismatch: expected {ABC}, got {got}")
    );
}

#[test]
fn store_failures_fail_the_download() {
    let verified = || {
        FetchedBlob { request: request(ABC, None), written: 3 }
            .verify(hashed(&[b"abc"]))
            .unwrap()
    };
    let e = verified().promoted(Err("rename".to_string())).unwrap_err();
    assert_eq!(e.message(), "Download failed: rename");
    let e = verified()
        .promoted(Ok(()))
        .unwrap()
        .recorded(Err("insert".to_string()))
        .unwrap_err();
    assert_eq!(e.message(), "Download failed: insert");
    let e = verified()
        .promoted(Ok(()))
        .unwrap()
        .recorded(Ok(()))
        .unwrap()
        .associated(Err("assoc".to_string()))
        .unwrap_err();
    assert_eq!(e.message(), "Download failed: assoc");
}
