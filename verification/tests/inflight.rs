use blobstream::download::DownloadRequest;
use blobstream::error::StreamCacheError;
use blobstream::inflight::{
    conclude, serve_stored, Attach, EndAction, InflightBlobs, StoreProbe, Watched,
};
use blobstream::progress::DownloadProgress;

fn absent(blobs: &InflightBlobs<u32>, digest: &str) -> DownloadRequest {
    match blobs.entry_for(digest, "repo", None) {
        Attach::Absent(request) => request,
        Attach::Running(entry) => panic!("{digest} is in progress as {entry}"),
    }
}

fn running(blobs: &InflightBlobs<u32>, digest: &str) -> u32 {
    match blobs.entry_for(digest, "another", Some(1)) {
        Attach::Running(entry) => *entry,
        Attach::Absent(request) => panic!("nobody downloads {request:?}"),
    }
}

#[test]
fn requests_share_one_download_until_it_is_over() {
    let mut blobs: InflightBlobs<u32> = InflightBlobs::new();
    let a = absent(&blobs, "sha256:a");
    assert_eq!((a.digest.as_str(), a.repo.as_str(), a.size), ("sha256:a", "repo", None));
    blobs.register(&a, 1, Ok(())).unwrap();
    let b = absent(&blobs, "sha256:b");
    blobs.register(&b, 2, Ok(())).unwrap();
    for _ in 0..4 {
        assert_eq!(running(&blobs, "sha256:a"), 1);
    }
    blobs.release("sha256:b");
    assert_eq!(running(&blobs, "sha256:a"), 1);
    absent(&blobs, "sha256:b");
    blobs.release("sha256:a");
    absent(&blobs, "sha256:a");
}

#[test]
fn prefetch_starts_what_is_not_in_progress() {
    let mut blobs: InflightBlobs<u32> = InflightBlobs::new();
    let request = blobs.prefetch("sha256:a", "repo", Some(5)).unwrap();
    assert_eq!(request.size, Some(5));
    assert_eq!(request.repo, "repo");
    blobs.register(&request, 7, Ok(())).unwrap();
    assert!(blobs.prefetch("sha256:a", "repo", Some(5)).is_none());
    assert!(blobs.prefetch("sha256:b", "repo", None).is_some());
}

#[test]
fn nothing_is_registered_without_a_temp_file() {
    let mut blobs: InflightBlobs<u32> = InflightBlobs::new();
    let a = absent(&blobs, "sha256:a");
    let e = blobs.register(&a, 1, Err("disk full".to_string())).unwrap_err();
    assert_eq!(e.message(), "IO error: disk full");
    absent(&blobs, "sha256:a");
}

#[test]
fn a_finalized_blob_is_served_from_the_store() {
    let p = serve_stored(StoreProbe::Present(Ok(24))).unwrap().unwrap();
    assert_eq!((p.written, p.expected, p.terminal), (24, Some(24), Some(Ok(24))));
    assert!(serve_stored(StoreProbe::Missing).unwrap().is_none());
    assert!(serve_stored(StoreProbe::Unknown("denied".to_string())).unwrap().is_none());
    let e = serve_stored(StoreProbe::Present(Err("gone".to_string()))).unwrap_err();
    assert_eq!(e.message(), "IO error: gone");
}

fn served(p: &DownloadProgress) -> Result<Option<(u64, u64)>, String> {
    match InflightBlobs::<u32>::fetch_or_attach(Watched::Progress(p)) {
        Ok(r) => Ok(r.map(|(size, reader)| (size, reader.pos))),
        Err(e) => Err(e.message()),
    }
}

#[test]
fn waiting_for_the_size() {
    let mut p = DownloadProgress::default();
    assert_eq!(served(&p), Ok(None));
    p.publish(5);
    assert_eq!(served(&p), Ok(None));
    p.announce(24);
    assert_eq!(served(&p), Ok(Some((24, 0))));
    p.finish(Ok(24));
    assert_eq!(served(&p), Ok(Some((24, 0))));
    p.finish(Err("boom".to_string()));
    assert_eq!(served(&p), Err("Download failed: boom".to_string()));
}

#[test]
fn nothing_is_served_without_a_download() {
    let e = InflightBlobs::<u32>::fetch_or_attach(Watched::Dropped).unwrap_err();
    assert_eq!(e.message(), "Download failed: download task dropped");
}

#[test]
fn a_download_that_succeeds_is_told_once_and_released() {
    let mut blobs: InflightBlobs<u32> = InflightBlobs::new();
    let a = absent(&blobs, "sha256:a");
    blobs.register(&a, 1, Ok(())).unwrap();
    let mut p = DownloadProgress::default();
    let mut end = conclude("sha256:a", Ok(24));
    match end.next() {
        Some(EndAction::Announce(outcome)) => p.finish(outcome),
        a => panic!("{a:?}"),
    }
    assert_eq!(p.terminal, Some(Ok(24)));
    assert_eq!(running(&blobs, "sha256:a"), 1);
    match end.next() {
        Some(EndAction::Release(digest)) => blobs.release(&digest),
        a => panic!("{a:?}"),
    }
    absent(&blobs, "sha256:a");
    assert!(end.next().is_none());
    assert!(end.next().is_none());
}

#[test]
fn a_download_that_fails_loses_its_temp_file_first() {
    let mut end = conclude("sha256:a", Err(StreamCacheError::Upstream("503".to_string())));
    assert!(matches!(end.next(), Some(EndAction::RemoveTemp)));
    match end.next() {
        Some(EndAction::Announce(Err(t))) => {
            assert_eq!(t, "Upstream blob request failed: 503");
        }
        a => panic!("{a:?}"),
    }
    match end.next() {
        Some(EndAction::Release(digest)) => assert_eq!(digest, "sha256:a"),
        a => panic!("{a:?}"),
    }
    assert!(end.next().is_none());
}
