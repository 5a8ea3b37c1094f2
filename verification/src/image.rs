//! The search for a candidate that an image can be served from.

use vstd::prelude::*;
use crate::layers::LayerPrefetch;
use crate::proxy::{text_of, texts, DownloadRemoteImageError, Error, ImageRef, ProxyService};

verus! {

/// The candidates of an image and the one that is being tried.
#[derive(Debug)]
pub struct ImageDownload {
    /// Layers are streamed.
    pub stream: bool,
    /// There is a client for the remote registry.
    pub client: bool,
    /// The tag that the image was asked for by.
    pub tag: Option<String>,
    /// The digests of the candidates.
    pub digests: Vec<String>,
    /// The candidate that is being tried.
    pub next: usize,
}

/// What is done next about an image.
#[derive(Debug)]
pub enum ImageAction {
    /// Find out whether the repository has this manifest.
    CheckManifest(String),
    /// Download this manifest and its layers.
    Download(String),
    /// Register downloads for the layers of this stored manifest that are missing, as far as the
    /// manifest can be read; then serve it.
    PrefetchAndServe(String),
    /// Let the tag stand for this manifest; then serve it.
    TagAndServe { tag: String, digest: String },
    /// Serve this manifest.
    Serve(String),
    /// The image cannot be served.
    Fail(Error),
}

/// An action, with its strings as sequences of characters.
pub enum ImageMove {
    CheckManifest(Seq<char>),
    Download(Seq<char>),
    PrefetchAndServe(Seq<char>),
    TagAndServe(Seq<char>, Seq<char>),
    Serve(Seq<char>),
    Fail,
}

impl ImageAction {
    /// The move that the action makes. Every answer being there, the only way to fail is that every
    /// candidate has been tried.
    pub open spec fn makes(self, m: ImageMove) -> bool {
        match self {
            ImageAction::CheckManifest(d) => m == ImageMove::CheckManifest(d@),
            ImageAction::Download(d) => m == ImageMove::Download(d@),
            ImageAction::PrefetchAndServe(d) => m == ImageMove::PrefetchAndServe(d@),
            ImageAction::TagAndServe { tag, digest } => m == ImageMove::TagAndServe(tag@, digest@),
            ImageAction::Serve(d) => m == ImageMove::Serve(d@),
            ImageAction::Fail(e) => m == ImageMove::Fail && e == Error::Proxy(
                DownloadRemoteImageError::DownloadAttemptsFailed,
            ),
        }
    }
}

/// What the search depends on.
pub struct ImageSearch {
    pub stream: bool,
    pub client: bool,
    pub tag: Option<Seq<char>>,
    pub digests: Seq<Seq<char>>,
}

impl ImageSearch {
    /// Turns to candidate `i`.
    pub open spec fn turn_to(self, i: int) -> ImageMove {
        if i < self.digests.len() {
            ImageMove::CheckManifest(self.digests[i])
        } else {
            ImageMove::Fail
        }
    }

    /// Candidate `i` has been found in the repository. A cached manifest does not imply cached
    /// layers: blobs are evicted and leave manifests behind, and a download can have failed after
    /// the manifest was stored.
    pub open spec fn found(self, i: int) -> ImageMove {
        if self.stream && self.client {
            ImageMove::PrefetchAndServe(self.digests[i])
        } else {
            ImageMove::Serve(self.digests[i])
        }
    }

    /// Candidate `i` has been downloaded.
    pub open spec fn fetched(self, i: int) -> ImageMove {
        match self.tag {
            Some(tag) => ImageMove::TagAndServe(tag, self.digests[i]),
            None => ImageMove::Serve(self.digests[i]),
        }
    }

    /// What follows from whether the repository has candidate `i`: the candidate that is tried
    /// from then on, and the move.
    pub open spec fn after_check(self, i: int, has_manifest: bool) -> (int, ImageMove) {
        if has_manifest {
            (i, self.found(i))
        } else if self.client {
            (i, ImageMove::Download(self.digests[i]))
        } else {
            (i + 1, self.turn_to(i + 1))
        }
    }

    /// What follows from whether candidate `i` could be downloaded.
    pub open spec fn after_download(self, i: int, ok: bool) -> (int, ImageMove) {
        if ok {
            (i, self.fetched(i))
        } else {
            (i + 1, self.turn_to(i + 1))
        }
    }

    /// Candidate `i` can be served: the repository has it, or it can be downloaded.
    pub open spec fn usable(
        self,
        i: int,
        has_manifest: spec_fn(int) -> bool,
        downloads: spec_fn(int) -> bool,
    ) -> bool {
        has_manifest(i) || (self.client && downloads(i))
    }

    /// How the search ends that turns to candidate `i`, given what the repository has and what can
    /// be downloaded.
    pub open spec fn outcome(
        self,
        i: int,
        has_manifest: spec_fn(int) -> bool,
        downloads: spec_fn(int) -> bool,
    ) -> ImageMove
        decreases self.digests.len() - i,
    {
        if i >= self.digests.len() {
            self.turn_to(i)
        } else {
            let checked = self.after_check(i, has_manifest(i));
            let last = if checked.1 is Download {
                self.after_download(i, downloads(i))
            } else {
                checked
            };
            if last.0 == i + 1 {
                self.outcome(i + 1, has_manifest, downloads)
            } else {
                last.1
            }
        }
    }
}

impl ImageSearch {
    /// How the search ends that is at candidate `i` and makes the move `m`.
    pub open spec fn resumed(
        self,
        i: int,
        m: ImageMove,
        has_manifest: spec_fn(int) -> bool,
        downloads: spec_fn(int) -> bool,
    ) -> ImageMove {
        match m {
            ImageMove::CheckManifest(_) => self.outcome(i, has_manifest, downloads),
            ImageMove::Download(_) => {
                let after = self.after_download(i, downloads(i));
                if after.0 == i + 1 {
                    self.outcome(i + 1, has_manifest, downloads)
                } else {
                    after.1
                }
            },
            _ => m,
        }
    }
}

impl ProxyService {
    /// Begins the search for a candidate that an image can be served from. `client` tells whether
    /// there is a client for the remote registry.
    pub fn download_image(&self, image: &ImageRef, client: bool, digests: Vec<String>) -> (r:
        ImageDownload)
        ensures
            r.search() == (ImageSearch {
                stream: self.streams(),
                client,
                tag: text_of(image.tag),
                digests: texts(digests@),
            }),
            r.next == 0,
    {
        ImageDownload {
            stream: self.stream_enabled(),
            client,
            tag: image.tag.clone(),
            digests,
            next: 0,
        }
    }
}

impl ImageDownload {
    /// What the search depends on, wherever it has come to.
    pub open spec fn search(self) -> ImageSearch {
        ImageSearch {
            stream: self.stream,
            client: self.client,
            tag: text_of(self.tag),
            digests: texts(self.digests@),
        }
    }

    /// Turns to the candidate whose turn it is.
    pub fn begin(&self) -> (r: ImageAction)
        ensures
            r.makes(self.search().turn_to(self.next as int)),
            forall|has: spec_fn(int) -> bool, downloads: spec_fn(int) -> bool|
                #[trigger] self.search().outcome(self.next as int, has, downloads)
                    == self.search().resumed(
                    self.next as int,
                    self.search().turn_to(self.next as int),
                    has,
                    downloads,
                ),
    {
        if self.next < self.digests.len() {
            ImageAction::CheckManifest(self.digests[self.next].clone())
        } else {
            ImageAction::Fail(Error::Proxy(DownloadRemoteImageError::DownloadAttemptsFailed))
        }
    }

    /// Takes the answer to whether the repository has the manifest. Without an answer the image
    /// cannot be served.
    pub fn checked(&mut self, answer: Result<bool, String>) -> (r: ImageAction)
        requires
            old(self).next < old(self).digests@.len(),
        ensures
            final(self).search() == old(self).search(),
            match answer {
                Ok(has_manifest) => {
                    let after = old(self).search().after_check(
                        old(self).next as int,
                        has_manifest,
                    );
                    &&& final(self).next == after.0
                    &&& r.makes(after.1)
                    &&& forall|has: spec_fn(int) -> bool, downloads: spec_fn(int) -> bool|
                        has(old(self).next as int) == has_manifest ==> #[trigger] old(self).search().outcome(old(self).next as int, has, downloads) == old(self).search().resumed(after.0, after.1, has, downloads)
                },
                Err(e) => {
                    &&& final(self).next == old(self).next
                    &&& r == ImageAction::Fail(Error::Repository(e))
                },
            },
    {
        let has_manifest = match answer {
            Ok(has_manifest) => has_manifest,
            Err(e) => {
                return ImageAction::Fail(Error::Repository(e));
            },
        };
        let digest = self.digests[self.next].clone();
        if has_manifest {
            if self.stream && self.client {
                ImageAction::PrefetchAndServe(digest)
            } else {
                ImageAction::Serve(digest)
            }
        } else if self.client {
            ImageAction::Download(digest)
        } else {
            assert(self.next < self.digests.len());
            self.next = self.next + 1;
            self.begin()
        }
    }

    /// Takes the outcome of the download of the manifest and its layers.
    pub fn downloaded(&mut self, ok: bool) -> (r: ImageAction)
        requires
            old(self).next < old(self).digests@.len(),
        ensures
            final(self).search() == old(self).search(),
            final(self).next == old(self).search().after_download(old(self).next as int, ok).0,
            r.makes(old(self).search().after_download(old(self).next as int, ok).1),
            ({
                let search = old(self).search();
                let i = old(self).next as int;
                let after = search.after_download(i, ok);
                forall|has: spec_fn(int) -> bool, downloads: spec_fn(int) -> bool|
                    downloads(i) == ok ==> #[trigger] search.resumed(
                        i,
                        ImageMove::Download(search.digests[i]),
                        has,
                        downloads,
                    ) == search.resumed(after.0, after.1, has, downloads)
            }),
    {
        if ok {
            let digest = self.digests[self.next].clone();
            match &self.tag {
                Some(tag) => ImageAction::TagAndServe { tag: tag.clone(), digest },
                None => ImageAction::Serve(digest),
            }
        } else {
            assert(self.next < self.digests.len());
            self.next = self.next + 1;
            self.begin()
        }
    }
}

impl ImageDownload {
    /// Takes the outcome of registering the layers of the stored manifest, and serves it. It is
    /// served as well if there was nothing to register because the manifest could not be read.
    pub fn prefetched(&self, outcome: Option<Result<LayerPrefetch, Error>>) -> (r: Result<
        String,
        Error,
    >)
        requires
            self.next < self.digests@.len(),
            outcome matches Some(Ok(work)) ==> work.position() >= work.layers().len(),
        ensures
            match outcome {
                Some(Err(e)) => r == Err::<String, Error>(e),
                _ => r matches Ok(d) && d@ == self.search().digests[self.next as int],
            },
    {
        match outcome {
            Some(Err(e)) => Err(e),
            _ => Ok(self.digests[self.next].clone()),
        }
    }

    /// Takes the outcome of letting the tag stand for the manifest, and serves it.
    pub fn tagged(&self, outcome: Result<(), String>) -> (r: Result<String, Error>)
        requires
            self.next < self.digests@.len(),
        ensures
            match outcome {
                Ok(_) => r matches Ok(d) && d@ == self.search().digests[self.next as int],
                Err(e) => r == Err::<String, Error>(Error::Repository(e)),
            },
    {
        match outcome {
            Ok(()) => Ok(self.digests[self.next].clone()),
            Err(e) => Err(Error::Repository(e)),
        }
    }
}

/// The image is served from the first candidate that the repository has or that can be downloaded,
/// and its layers are registered for download or its tag is moved accordingly. Without a client
/// nothing can be downloaded.
pub proof fn law_first_usable_candidate_is_served(
    search: ImageSearch,
    from: int,
    i: int,
    has_manifest: spec_fn(int) -> bool,
    downloads: spec_fn(int) -> bool,
)
    requires
        0 <= from <= i < search.digests.len(),
        forall|j: int| from <= j < i ==> !#[trigger] search.usable(j, has_manifest, downloads),
        search.usable(i, has_manifest, downloads),
    ensures
        search.outcome(from, has_manifest, downloads) == (if has_manifest(i) {
            search.found(i)
        } else {
            search.fetched(i)
        }),
    decreases i - from,
{
    if from < i {
        assert(!search.usable(from, has_manifest, downloads));
        law_first_usable_candidate_is_served(search, from + 1, i, has_manifest, downloads);
    }
}

/// The search fails exactly when no candidate is in the repository and none can be downloaded.
pub proof fn law_search_fails_only_without_candidates(
    search: ImageSearch,
    from: int,
    has_manifest: spec_fn(int) -> bool,
    downloads: spec_fn(int) -> bool,
)
    requires
        0 <= from <= search.digests.len(),
    ensures
        search.outcome(from, has_manifest, downloads) is Fail <==> (forall|j: int|
            from <= j < search.digests.len() ==> !#[trigger] search.usable(
                j,
                has_manifest,
                downloads,
            )),
    decreases search.digests.len() - from,
{
    if from < search.digests.len() {
        law_search_fails_only_without_candidates(search, from + 1, has_manifest, downloads);
        if search.usable(from, has_manifest, downloads) {
            law_first_usable_candidate_is_served(search, from, from, has_manifest, downloads);
        } else {
            assert(search.outcome(from, has_manifest, downloads) == search.outcome(
                from + 1,
                has_manifest,
                downloads,
            ));
            if search.outcome(from, has_manifest, downloads) is Fail {
                assert forall|j: int| from <= j < search.digests.len() implies !#[trigger] search.usable(
                    j,
                    has_manifest,
                    downloads,
                ) by {
                    assert(j == from || from + 1 <= j);
                }
            }
        }
    }
}

/// What is served after candidate `i` has been downloaded is that very candidate. If the image was
/// asked for by a tag, the tag is moved to it, and to no other.
pub proof fn law_tag_moves_to_what_was_downloaded(
    download: ImageDownload,
    i: int,
    action: ImageAction,
)
    requires
        0 <= i < download.digests@.len(),
        action.makes(download.search().after_download(i, true).1),
    ensures
        match download.tag {
            Some(asked) => {
                &&& action matches ImageAction::TagAndServe { tag, digest }
                &&& tag@ == asked@
                &&& digest@ == download.digests@[i]@
            },
            None => action matches ImageAction::Serve(digest) && digest@ == download.digests@[i]@,
        },
        download.search().after_download(i, true).0 == i,
        download.search().digests[i] == download.digests@[i]@,
{
}

/// A candidate that the repository has is served itself, with its layers seen to if they are
/// streamed and there is a client to fetch them with. One that it does not have is downloaded itself
/// if there is a client.
pub proof fn law_candidate_is_served_or_downloaded(
    download: ImageDownload,
    i: int,
    has_manifest: bool,
    action: ImageAction,
)
    requires
        0 <= i < download.digests@.len(),
        has_manifest || download.client,
        action.makes(download.search().after_check(i, has_manifest).1),
    ensures
        if !has_manifest {
            action matches ImageAction::Download(digest) && digest@ == download.digests@[i]@
        } else if download.stream && download.client {
            action matches ImageAction::PrefetchAndServe(digest) && digest@
                == download.digests@[i]@
        } else {
            action matches ImageAction::Serve(digest) && digest@ == download.digests@[i]@
        },
        download.search().after_check(i, has_manifest).0 == i,
{
}

/// When candidate `i` can be neither found nor downloaded the next one is tried, and if there is
/// none the search has failed.
pub proof fn law_next_candidate_is_tried(download: ImageDownload, i: int, action: ImageAction)
    requires
        0 <= i < download.digests@.len(),
        action.makes(download.search().after_download(i, false).1) || (!download.client
            && action.makes(download.search().after_check(i, false).1)),
    ensures
        if i + 1 < download.digests@.len() {
            action matches ImageAction::CheckManifest(digest) && digest@
                == download.digests@[i + 1]@
        } else {
            action == ImageAction::Fail(
                Error::Proxy(DownloadRemoteImageError::DownloadAttemptsFailed),
            )
        },
        download.search().after_download(i, false).0 == i + 1,
        !download.client ==> download.search().after_check(i, false).0 == i + 1,
{
}

/// The search begins with the first candidate.
pub proof fn law_first_candidate_is_tried_first(download: ImageDownload, action: ImageAction)
    requires
        action.makes(download.search().turn_to(0)),
    ensures
        if download.digests@.len() > 0 {
            action matches ImageAction::CheckManifest(digest) && digest@ == download.digests@[0]@
        } else {
            action == ImageAction::Fail(
                Error::Proxy(DownloadRemoteImageError::DownloadAttemptsFailed),
            )
        },
        download.search().stream == download.stream,
        download.search().client == download.client,
        download.tag matches Some(tag) ==> download.search().tag == Some(tag@),
        download.tag is None ==> download.search().tag is None,
        download.search().digests.len() == download.digests@.len(),
{
}

/// The first candidate that the repository has or that can be downloaded is the one that is served
/// in the end: the digest that is served is its digest, and the tag, if it is moved, is moved to it.
pub proof fn law_served_digest_is_the_first_usable(
    search: ImageSearch,
    i: int,
    has_manifest: spec_fn(int) -> bool,
    downloads: spec_fn(int) -> bool,
)
    requires
        0 <= i < search.digests.len(),
        forall|j: int|
            #![trigger search.digests[j]]
            0 <= j < i ==> !(has_manifest(j) || (search.client && downloads(j))),
        has_manifest(i) || (search.client && downloads(i)),
    ensures
        match search.outcome(0, has_manifest, downloads) {
            ImageMove::PrefetchAndServe(d) => d == search.digests[i] && has_manifest(i)
                && search.stream && search.client,
            ImageMove::TagAndServe(tag, d) => d == search.digests[i] && !has_manifest(i)
                && search.tag == Some(tag),
            ImageMove::Serve(d) => d == search.digests[i] && (if has_manifest(i) {
                !(search.stream && search.client)
            } else {
                search.tag is None
            }),
            _ => false,
        },
{
    assert forall|j: int| 0 <= j < i implies !#[trigger] search.usable(
        j,
        has_manifest,
        downloads,
    ) by {
        let d = search.digests[j];
    }
    law_first_usable_candidate_is_served(search, 0, i, has_manifest, downloads);
}

/// A download that succeeded ends the search with the candidate that was downloaded: the tag that
/// the image was asked for by is moved to it, and when that is done its digest is what is served.
/// Without a tag it is served at once.
pub proof fn law_downloaded_candidate_is_tagged_and_served()
    ensures
        forall|search: &mut ImageDownload, r: ImageAction|
            #[trigger] call_ensures(ImageDownload::downloaded, (search, true), r) && search.next
                < search.digests@.len() ==> {
                let digest = search.digests@[search.next as int]@;
                &&& search.tag matches Some(asked) ==> (r matches ImageAction::TagAndServe {
                    tag,
                    digest: d,
                } && tag@ == asked@ && d@ == digest)
                &&& search.tag is None ==> (r matches ImageAction::Serve(d) && d@ == digest)
                &&& final(search).next == search.next
                &&& final(search).search() == search.search()
            },
        forall|search: &ImageDownload, outcome: Result<(), String>, r: Result<String, Error>|
            #[trigger] call_ensures(ImageDownload::tagged, (search, outcome), r) && search.next
                < search.digests@.len() ==> (match outcome {
                Ok(_) => r matches Ok(d) && d@ == search.digests@[search.next as int]@,
                Err(e) => r == Err::<String, Error>(Error::Repository(e)),
            }),
{
}

/// A download that failed turns the search to the next candidate, or ends it if there is none.
pub proof fn law_failed_download_is_followed_by_the_next()
    ensures
        forall|search: &mut ImageDownload, r: ImageAction|
            #[trigger] call_ensures(ImageDownload::downloaded, (search, false), r) && search.next
                < search.digests@.len() ==> {
                &&& final(search).next == search.next + 1
                &&& final(search).search() == search.search()
                &&& search.next + 1 < search.digests@.len() ==> (
                r matches ImageAction::CheckManifest(d) && d@ == search.digests@[search.next + 1]@)
                &&& search.next + 1 == search.digests@.len() ==> r == ImageAction::Fail(
                    Error::Proxy(DownloadRemoteImageError::DownloadAttemptsFailed),
                )
            },
{
}

/// A candidate that is in the repository is served without being downloaded, even without a client.
/// One that is not is downloaded if there is a client, and passed over if there is none.
pub proof fn law_stored_candidate_is_served()
    ensures
        forall|search: &mut ImageDownload, found: bool, r: ImageAction|
            #[trigger] call_ensures(ImageDownload::checked, (search, Ok(found)), r) && search.next
                < search.digests@.len() ==> {
                let digest = search.digests@[search.next as int]@;
                &&& found && search.stream && search.client ==> (
                r matches ImageAction::PrefetchAndServe(d) && d@ == digest)
                &&& found && !(search.stream && search.client) ==> (r matches ImageAction::Serve(d)
                    && d@ == digest)
                &&& !found && search.client ==> (r matches ImageAction::Download(d) && d@ == digest)
                &&& found || search.client ==> final(search).next == search.next
                &&& !found && !search.client ==> final(search).next == search.next + 1
                &&& !found && !search.client && search.next + 1 < search.digests@.len() ==> (
                r matches ImageAction::CheckManifest(d) && d@ == search.digests@[search.next + 1]@)
                &&& !found && !search.client && search.next + 1 == search.digests@.len()
                    ==> r is Fail
            },
        forall|search: &mut ImageDownload, e: String, r: ImageAction|
            #[trigger] call_ensures(ImageDownload::checked, (search, Err(e)), r) && search.next
                < search.digests@.len() ==> r == ImageAction::Fail(Error::Repository(e)),
        forall|search: &ImageDownload, outcome: Option<Result<LayerPrefetch, Error>>, r: Result<
            String,
            Error,
        >|
            #[trigger] call_ensures(ImageDownload::prefetched, (search, outcome), r) && search.next
                < search.digests@.len() ==> (match outcome {
                Some(Err(e)) => r == Err::<String, Error>(e),
                _ => r matches Ok(d) && d@ == search.digests@[search.next as int]@,
            }),
{
}

/// A search is for the image that was asked for, among all of its candidates, from the first on.
pub proof fn law_search_is_for_the_image(
    svc: ProxyService,
    image: ImageRef,
    client: bool,
    digests: Vec<String>,
    stream: bool,
    r: ImageDownload,
    i: int,
)
    requires
        call_ensures(ProxyService::download_image, (&svc, &image, client, digests), r),
        call_ensures(ProxyService::stream_enabled, (&svc,), stream),
        0 <= i < digests@.len(),
    ensures
        r.next == 0,
        r.client == client,
        r.stream == stream,
        r.digests@.len() == digests@.len(),
        r.digests@[i]@ == digests@[i]@,
        image.tag matches Some(t) ==> (r.tag matches Some(tag) && tag@ == t@),
        image.tag is None ==> r.tag is None,
{
    assert(r.search().digests.len() == texts(digests@).len());
    assert(r.search().digests[i] == texts(digests@)[i]);
}

} // verus!
