use blobstream::image::ImageAction;
use blobstream::layers::{
    AssociableLayer, BlobDownload, BlobStep, LayerPrefetch, LayerWork, LayersDone, ManifestDownload,
    OpenLayer,
};
use blobstream::proxy::{
    merge_candidates, CandidateQuery, DigestError, DownloadRemoteImageError, Error, ImageRef,
    ManifestBlobs, ProxyService,
};
use blobstream::error::StreamCacheError;
use blobstream::tail::{tailing_reader, TailingReader};
use bytes::Bytes;

fn image(tag: Option<&str>, digest: Option<&str>) -> ImageRef {
    ImageRef {
        registry: "docker.io".to_string(),
        repository: "library/alpine".to_string(),
        tag: tag.map(str::to_string),
        digest: digest.map(str::to_string),
    }
}

fn strings(v: &[&str]) -> Vec<String> {
    v.iter().map(|s| s.to_string()).collect()
}

fn prefetched(mut work: LayerPrefetch, stored: &[&str]) -> Vec<(String, Option<u64>)> {
    drain(&mut work, stored)
}

fn drain(work: &mut LayerPrefetch, stored: &[&str]) -> Vec<(String, Option<u64>)> {
    let mut out = Vec::new();
    while let Some(digest) = work.pending() {
        let has_blob = stored.contains(&digest);
        if let Some(request) = work.answered(Ok(has_blob)).unwrap() {
            assert_eq!(request.repo, "repo");
            out.push((request.digest, request.size));
        }
    }
    out
}

fn blobs() -> ManifestBlobs {
    ManifestBlobs {
        digests: strings(&["sha256:config", "sha256:l1", "sha256:l2"]),
        sizes: vec![
            ("sha256:l1".to_string(), 1),
            ("sha256:l2".to_string(), 20),
            ("sha256:l1".to_string(), 10),
        ],
    }
}

#[test]
fn download_image_returns_cached_manifest() {
    let digest = "sha256:abc123def456789012345678901234567890123456789012345678901234567";
    let svc = ProxyService::new(false);
    let image = image(None, Some(digest));
    assert_eq!(svc.repo_name(&image), "f/docker.io/library/alpine");
    let digests = match svc.collect_candidate_digests(&image) {
        Ok(CandidateQuery::Known(digests)) => digests,
        q => panic!("{q:?}"),
    };
    let mut search = svc.download_image(&image, true, digests);
    match search.begin() {
        ImageAction::CheckManifest(d) => assert_eq!(d, digest),
        a => panic!("{a:?}"),
    }
    match search.checked(Ok(true)) {
        ImageAction::Serve(d) => assert_eq!(d, digest),
        a => panic!("{a:?}"),
    }
}

#[test]
fn a_cached_manifest_has_its_layers_registered_when_streaming() {
    let svc = ProxyService::new(true);
    assert!(svc.stream_enabled());
    let img = image(None, Some("sha256:m"));
    let mut search = svc.download_image(&img, true, strings(&["sha256:m"]));
    match search.checked(Ok(true)) {
        ImageAction::PrefetchAndServe(d) => assert_eq!(d, "sha256:m"),
        a => panic!("{a:?}"),
    }
    let mut search = svc.download_image(&img, false, strings(&["sha256:m"]));
    assert!(matches!(search.checked(Ok(true)), ImageAction::Serve(_)));
}

#[test]
fn a_stored_manifest_that_cannot_be_read_is_served_as_it_is() {
    let svc = ProxyService::new(true);
    let mut search =
        svc.download_image(&image(None, Some("sha256:m")), true, strings(&["sha256:m"]));
    assert!(matches!(search.checked(Ok(true)), ImageAction::PrefetchAndServe(_)));
    assert!(svc.prefetch_stored_layers("repo", None).is_none());
    assert_eq!(search.prefetched(None).unwrap(), "sha256:m");
    let mut work = svc.prefetch_stored_layers("repo", Some(blobs())).unwrap();
    assert_eq!(drain(&mut work, &["sha256:l1"]).len(), 2);
    assert_eq!(search.prefetched(Some(Ok(work))).unwrap(), "sha256:m");
}

#[test]
fn a_served_blob_carries_digest_size_and_reader() {
    let svc = ProxyService::new(true);
    let request = || svc.stream_blob(Ok(()), "sha256:a", "repo").unwrap();
    let blob = svc.serve_blob(request(), Ok((24, tailing_reader()))).unwrap();
    assert_eq!((blob.digest.as_str(), blob.size, blob.reader.pos), ("sha256:a", 24, 0));
    let failed: Result<(u64, TailingReader), StreamCacheError> =
        Err(StreamCacheError::Download("boom".to_string()));
    match svc.serve_blob(request(), failed) {
        Err(Error::Stream(e)) => assert_eq!(e.message(), "Download failed: boom"),
        r => panic!("{r:?}"),
    }
}

#[test]
fn the_first_usable_candidate_is_served() {
    let svc = ProxyService::new(true);
    let mut search =
        svc.download_image(&image(Some("1.0.0"), None), true, strings(&["sha256:r", "sha256:l"]));
    match search.checked(Ok(false)) {
        ImageAction::Download(d) => assert_eq!(d, "sha256:r"),
        a => panic!("{a:?}"),
    }
    match search.downloaded(false) {
        ImageAction::CheckManifest(d) => assert_eq!(d, "sha256:l"),
        a => panic!("{a:?}"),
    }
    assert!(matches!(search.checked(Ok(false)), ImageAction::Download(_)));
    match search.downloaded(true) {
        ImageAction::TagAndServe { tag, digest } => {
            assert_eq!((tag.as_str(), digest.as_str()), ("1.0.0", "sha256:l"));
        }
        a => panic!("{a:?}"),
    }
}

#[test]
fn without_a_client_only_what_is_stored_is_served() {
    let svc = ProxyService::new(true);
    let img = image(Some("1.0.0"), None);
    let mut search = svc.download_image(&img, false, strings(&["sha256:a", "sha256:b"]));
    assert!(matches!(search.checked(Ok(false)), ImageAction::CheckManifest(_)));
    match search.checked(Ok(false)) {
        ImageAction::Fail(Error::Proxy(DownloadRemoteImageError::DownloadAttemptsFailed)) => {}
        a => panic!("{a:?}"),
    }
    let search = svc.download_image(&img, false, vec![]);
    assert!(matches!(search.begin(), ImageAction::Fail(_)));
}

#[test]
fn an_untagged_download_moves_no_tag() {
    let svc = ProxyService::new(false);
    let mut search =
        svc.download_image(&image(None, Some("sha256:m")), true, strings(&["sha256:m"]));
    assert!(matches!(search.checked(Ok(false)), ImageAction::Download(_)));
    match search.downloaded(true) {
        ImageAction::Serve(d) => assert_eq!(d, "sha256:m"),
        a => panic!("{a:?}"),
    }
}

#[test]
fn candidates_are_remote_then_local() {
    let s = |v: &str| Some(v.to_string());
    assert_eq!(merge_candidates(Ok(s("l")), s("r")).unwrap(), strings(&["r", "l"]));
    assert_eq!(merge_candidates(Ok(s("l")), s("l")).unwrap(), strings(&["l"]));
    assert_eq!(merge_candidates(Ok(None), s("r")).unwrap(), strings(&["r"]));
    assert_eq!(merge_candidates(Ok(s("l")), None).unwrap(), strings(&["l"]));
    assert!(merge_candidates(Ok(None), None).unwrap().is_empty());
    assert_eq!(
        database_text(merge_candidates(Err("locked".to_string()), s("r")).unwrap_err()),
        "locked"
    );
}

fn database_text(e: Error) -> String {
    match e {
        Error::Repository(t) => t,
        e => panic!("{e:?}"),
    }
}

#[test]
fn database_failures_end_the_search() {
    let svc = ProxyService::new(true);
    let img = image(Some("1.0.0"), None);
    let mut search = svc.download_image(&img, true, strings(&["sha256:m"]));
    match search.checked(Err("locked".to_string())) {
        ImageAction::Fail(e) => assert_eq!(database_text(e), "locked"),
        a => panic!("{a:?}"),
    }
    assert_eq!(search.tagged(Ok(())).unwrap(), "sha256:m");
    assert_eq!(database_text(search.tagged(Err("locked".to_string())).unwrap_err()), "locked");
    let e = search.prefetched(Some(Err(Error::Repository("busy".to_string())))).unwrap_err();
    assert_eq!(database_text(e), "busy");
}

#[test]
fn references_by_tag_and_by_nothing() {
    let svc = ProxyService::new(false);
    match svc.collect_candidate_digests(&image(Some("1.0.0"), None)) {
        Ok(CandidateQuery::Lookup(tag)) => assert_eq!(tag, "1.0.0"),
        q => panic!("{q:?}"),
    }
    match svc.collect_candidate_digests(&image(Some("1.0.0"), Some("sha256:m"))) {
        Ok(CandidateQuery::Known(v)) => assert_eq!(v, strings(&["sha256:m"])),
        q => panic!("{q:?}"),
    }
    match svc.collect_candidate_digests(&image(None, None)) {
        Err(Error::Digest(DigestError::InvalidDigest(d))) => assert_eq!(d, ""),
        q => panic!("{q:?}"),
    }
}

#[test]
fn a_bare_blob_request_has_no_size() {
    let svc = ProxyService::new(true);
    let request = svc.stream_blob(Ok(()), "sha256:a", "repo").unwrap();
    assert_eq!(
        (request.digest.as_str(), request.repo.as_str(), request.size),
        ("sha256:a", "repo", None)
    );
    match svc.stream_blob(Err("no route".to_string()), "sha256:a", "repo") {
        Err(Error::Proxy(DownloadRemoteImageError::Client(e))) => assert_eq!(e, "no route"),
        r => panic!("{r:?}"),
    }
}

#[test]
fn missing_layers_are_registered_with_their_sizes() {
    let svc = ProxyService::new(true);
    assert_eq!(
        prefetched(svc.prefetch_missing_layers("repo", blobs()), &[]),
        vec![
            ("sha256:config".to_string(), None),
            ("sha256:l1".to_string(), Some(10)),
            ("sha256:l2".to_string(), Some(20)),
        ]
    );
    assert_eq!(
        prefetched(svc.prefetch_missing_layers("repo", blobs()), &["sha256:config", "sha256:l1"]),
        vec![("sha256:l2".to_string(), Some(20))]
    );
    let none = ManifestBlobs { digests: vec![], sizes: vec![] };
    assert!(prefetched(svc.prefetch_missing_layers("repo", none), &[]).is_empty());
}

fn pulled(svc: &ProxyService) -> ManifestDownload {
    svc.download_manifest_and_layers(
        "repo",
        Ok((Bytes::from_static(b"{ }"), "sha256:m".to_string())),
    )
    .unwrap()
}

fn open(svc: &ProxyService) -> OpenLayer {
    match svc.download_blob("sha256:l1", "repo").known(Ok(false)).unwrap() {
        BlobStep::Pull(layer) => {
            assert_eq!(layer.layer().digest, "sha256:l1");
            layer.opened(Ok(())).unwrap()
        }
        s => panic!("{s:?}"),
    }
}

fn associable(layer: BlobDownload) -> AssociableLayer {
    match layer.known(Ok(true)).unwrap() {
        BlobStep::Associate(layer) => layer,
        s => panic!("{s:?}"),
    }
}

#[test]
fn streaming_registers_layers_and_does_not_wait() {
    let svc = ProxyService::new(true);
    let (m, work) = pulled(&svc).parsed(&svc, Ok(blobs())).unwrap();
    let mut work = match work {
        LayerWork::Prefetch(work) => work,
        LayerWork::Download(_) => panic!("layers must be registered"),
    };
    assert!(work.answered(Ok(true)).unwrap().is_none());
    let half = LayersDone::Registered(work);
    assert!(!m.covers(&half));
    let mut work = match half {
        LayersDone::Registered(work) => work,
        LayersDone::Associated(_) => unreachable!(),
    };
    assert_eq!(drain(&mut work, &[]).len(), 2);
    let done = LayersDone::Registered(work);
    assert!(m.covers(&done));
    assert!(!m.covers(&LayersDone::Associated(vec![])));
    let m = m.layers_done(Ok(done)).unwrap();
    assert_eq!((m.row().0, &m.row().1[..]), ("sha256:m", &b"{ }"[..]));
    let m = m.stored(Ok(())).unwrap();
    assert_eq!(m.association(), ("repo", "sha256:m"));
    assert!(m.associated(Ok(())).is_ok());
}

#[test]
fn without_streaming_every_layer_is_downloaded_first() {
    let svc = ProxyService::new(false);
    let (m, work) = pulled(&svc).parsed(&svc, Ok(blobs())).unwrap();
    let layers = match work {
        LayerWork::Download(layers) => layers,
        LayerWork::Prefetch(_) => panic!("layers must be downloaded"),
    };
    let digests: Vec<String> = layers.iter().map(|l| l.digest.clone()).collect();
    assert_eq!(digests, blobs().digests);
    assert!(layers.iter().all(|l| l.repo == "repo"));
    let mut done = Vec::new();
    for layer in layers {
        done.push(associable(layer).associated(Ok(())).unwrap());
    }
    let last = done.pop().unwrap();
    let short = LayersDone::Associated(done);
    assert!(!m.covers(&short));
    let mut done = match short {
        LayersDone::Associated(done) => done,
        LayersDone::Registered(_) => unreachable!(),
    };
    let other = associable(svc.download_blob("sha256:l2", "other")).associated(Ok(())).unwrap();
    done.push(other);
    let wrong = LayersDone::Associated(done);
    assert!(!m.covers(&wrong));
    let mut done = match wrong {
        LayersDone::Associated(done) => done,
        LayersDone::Registered(_) => unreachable!(),
    };
    done.pop();
    done.push(last);
    let done = LayersDone::Associated(done);
    assert!(m.covers(&done));
    assert!(m.layers_done(Ok(done)).is_ok());
}

#[test]
fn manifest_failures() {
    let svc = ProxyService::new(true);
    match svc.download_manifest_and_layers("repo", Err("404".to_string())) {
        Err(Error::Proxy(DownloadRemoteImageError::Registry(e))) => assert_eq!(e, "404"),
        r => panic!("{r:?}"),
    }
    match pulled(&svc).parsed(&svc, Err("eof".to_string())) {
        Err(Error::Proxy(DownloadRemoteImageError::Manifest(e))) => assert_eq!(e, "eof"),
        _ => panic!("a manifest that cannot be read must fail"),
    }
    let none = || ManifestBlobs { digests: vec![], sizes: vec![] };
    let (m, _) = pulled(&svc).parsed(&svc, Ok(none())).unwrap();
    match m.layers_done(Err(Error::Storage("disk full".to_string()))) {
        Err(Error::Storage(e)) => assert_eq!(e, "disk full"),
        r => panic!("{r:?}"),
    }
    let storable = || {
        let (m, work) = pulled(&svc).parsed(&svc, Ok(none())).unwrap();
        match work {
            LayerWork::Prefetch(work) => m.layers_done(Ok(LayersDone::Registered(work))).unwrap(),
            LayerWork::Download(_) => unreachable!(),
        }
    };
    let e = storable().stored(Err("locked".to_string())).unwrap_err();
    assert_eq!(database_text(e), "locked");
    let stored = storable().stored(Ok(())).unwrap();
    assert_eq!(database_text(stored.associated(Err("busy".to_string())).unwrap_err()), "busy");
    let mut work = svc.prefetch_missing_layers("repo", blobs());
    assert_eq!(database_text(work.answered(Err("locked".to_string())).unwrap_err()), "locked");
    assert_eq!(work.pending(), Some("sha256:config"));
}

#[test]
fn a_layer_that_is_there_is_only_associated() {
    let svc = ProxyService::new(false);
    let layer = associable(svc.download_blob("sha256:l1", "repo"));
    assert_eq!(layer.association(), ("repo", "sha256:l1"));
    let done = layer.associated(Ok(())).unwrap();
    assert_eq!(done.layer().digest, "sha256:l1");
    let layer = associable(svc.download_blob("sha256:l1", "repo"));
    assert_eq!(database_text(layer.associated(Err("busy".to_string())).unwrap_err()), "busy");
    let e = svc.download_blob("sha256:l1", "repo").known(Err("locked".to_string())).unwrap_err();
    assert_eq!(database_text(e), "locked");
}

#[test]
fn a_layer_is_recorded_when_it_is_written_and_associated_then() {
    let svc = ProxyService::new(false);
    let layer = open(&svc);
    assert_eq!(layer.layer().repo, "repo");
    let layer = layer.written(Ok(4096)).unwrap();
    assert_eq!(layer.row(), ("sha256:l1", 4096));
    let layer = layer.recorded(Ok(())).unwrap();
    assert_eq!(layer.association(), ("repo", "sha256:l1"));
    assert!(layer.associated(Ok(())).is_ok());

    match open(&svc).written(Err("disk full".to_string())) {
        Err(Error::Storage(e)) => assert_eq!(e, "disk full"),
        r => panic!("{r:?}"),
    }
    let layer = open(&svc).written(Ok(1)).unwrap();
    assert_eq!(database_text(layer.recorded(Err("locked".to_string())).unwrap_err()), "locked");
    match svc.download_blob("sha256:l1", "repo").known(Ok(false)) {
        Ok(BlobStep::Pull(layer)) => match layer.opened(Err("503".to_string())) {
            Err(Error::Proxy(DownloadRemoteImageError::Registry(e))) => assert_eq!(e, "503"),
            r => panic!("{r:?}"),
        },
        r => panic!("{r:?}"),
    }
}
