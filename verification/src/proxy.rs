//! The proxy: which image is served, and what is downloaded for it.

use vstd::prelude::*;
use vstd::string::*;
use crate::download::DownloadRequest;
use crate::error::StreamCacheError;
use crate::text::same_text;

verus! {

/// A reference to an image in a remote registry.
#[derive(Debug)]
pub struct ImageRef {
    pub registry: String,
    pub repository: String,
    pub tag: Option<String>,
    pub digest: Option<String>,
}

/// What goes wrong with a remote image. Where another party's error is behind it, its text is
/// carried along.
#[derive(Debug)]
pub enum DownloadRemoteImageError {
    /// No client for the registry could be made.
    Client(String),
    /// The registry did not deliver.
    Registry(String),
    /// The manifest cannot be read.
    Manifest(String),
    /// No candidate could be served.
    DownloadAttemptsFailed,
}

#[derive(Debug)]
pub enum DigestError {
    InvalidDigest(String),
}

/// Why the proxy does not serve an image or a blob.
#[derive(Debug)]
pub enum Error {
    Proxy(DownloadRemoteImageError),
    Digest(DigestError),
    /// The blob cannot be streamed.
    Stream(StreamCacheError),
    /// The blob store failed, with this text.
    Storage(String),
    /// The database failed, with this text.
    Repository(String),
}

/// What a manifest says about the blobs that are kept locally for it.
#[derive(Debug)]
pub struct ManifestBlobs {
    pub digests: Vec<String>,
    /// The sizes that the descriptors give.
    pub sizes: Vec<(String, u64)>,
}

/// How the manifests that a reference may stand for are found.
#[derive(Debug)]
pub enum CandidateQuery {
    /// The reference names the manifest itself.
    Known(Vec<String>),
    /// The manifest that this tag stands for is to be looked up, locally and remotely.
    Lookup(String),
}

/// A blob that is being served, with whatever reads it.
#[derive(Debug)]
pub struct BlobReader<R> {
    pub digest: String,
    /// The size of the blob.
    pub size: usize,
    pub reader: R,
}

/// The service that downloads proxied images from remote registries.
#[derive(Debug)]
pub struct ProxyService {
    /// Serve manifests as soon as they are fetched and stream layers on demand instead of
    /// buffering the whole image before the first byte is returned.
    stream: bool,
}

/// The characters of an optional string.
pub open spec fn text_of(s: Option<String>) -> Option<Seq<char>> {
    match s {
        Some(t) => Some(t@),
        None => None,
    }
}

/// The characters of some strings.
pub open spec fn texts(v: Seq<String>) -> Seq<Seq<char>> {
    Seq::new(v.len(), |i: int| v[i]@)
}

/// The local repository in which a remote image is kept.
pub open spec fn proxied_repo(registry: Seq<char>, repository: Seq<char>) -> Seq<char> {
    "f/"@ + registry + "/"@ + repository
}

/// The manifests that a tag may stand for, in the order in which they are tried: what the remote
/// registry says, unless it is what is known locally, and then what is known locally.
pub open spec fn candidates(local: Option<Seq<char>>, remote: Option<Seq<char>>) -> Seq<Seq<char>> {
    let fresh = match remote {
        Some(r) => if local == Some(r) {
            seq![]
        } else {
            seq![r]
        },
        None => seq![],
    };
    fresh + (match local {
        Some(l) => seq![l],
        None => seq![],
    })
}

/// Puts the manifests that a tag may stand for in order. `local` is what the database says, and
/// `remote` is there if the remote registry could be asked and did answer.
pub fn merge_candidates(local: Result<Option<String>, String>, remote: Option<String>) -> (r: Result<
    Vec<String>,
    Error,
>)
    ensures
        match local {
            Ok(local) => r matches Ok(digests) && texts(digests@) == candidates(
                text_of(local),
                text_of(remote),
            ),
            Err(e) => r == Err::<Vec<String>, Error>(Error::Repository(e)),
        },
{
    let local = match local {
        Ok(local) => local,
        Err(e) => {
            return Err(Error::Repository(e));
        },
    };
    let mut digests: Vec<String> = Vec::new();
    let ghost local0 = text_of(local);
    let ghost remote0 = text_of(remote);
    match remote {
        Some(r) => {
            let known = match &local {
                Some(l) => same_text(l.as_str(), r.as_str()),
                None => false,
            };
            if !known {
                digests.push(r);
            }
        },
        None => {},
    }
    match local {
        Some(l) => {
            digests.push(l);
        },
        None => {},
    }
    assert(texts(digests@) =~= candidates(local0, remote0));
    Ok(digests)
}

impl ProxyService {
    /// Layers are streamed.
    pub closed spec fn streams(self) -> bool {
        self.stream
    }

    pub fn new(stream: bool) -> (svc: ProxyService)
        ensures
            svc.streams() == stream,
    {
        ProxyService { stream }
    }

    /// Whether layers are streamed on demand.
    pub fn stream_enabled(&self) -> (r: bool)
        ensures
            r == self.streams(),
    {
        self.stream
    }

    /// Serves a blob that is not (fully) cached yet: the download of it, to attach to or to start.
    /// There is no descriptor here, so the size is not known: the manifest is not in scope on a
    /// bare blob request. `client` tells whether a client for the registry could be made.
    pub fn stream_blob(&self, client: Result<(), String>, digest: &str, repo: &str) -> (r: Result<
        DownloadRequest,
        Error,
    >)
        ensures
            match client {
                Ok(_) => r matches Ok(request) && request.asks(digest@, repo@, None),
                Err(e) => r == Err::<DownloadRequest, Error>(
                    Error::Proxy(DownloadRemoteImageError::Client(e)),
                ),
            },
    {
        match client {
            Ok(()) => Ok(
                DownloadRequest { digest: digest.to_owned(), repo: repo.to_owned(), size: None },
            ),
            Err(e) => Err(Error::Proxy(DownloadRemoteImageError::Client(e))),
        }
    }

    /// Takes what came of attaching to the download that was asked for: the size of the blob and
    /// what reads it, which are served under the digest, or an error, which is handed on.
    pub fn serve_blob<R>(
        &self,
        request: DownloadRequest,
        fetched: Result<(u64, R), StreamCacheError>,
    ) -> (r: Result<BlobReader<R>, Error>)
        ensures
            match fetched {
                Ok((size, reader)) => r == Ok::<BlobReader<R>, Error>(
                    BlobReader { digest: request.digest, size: size as usize, reader },
                ),
                Err(e) => r == Err::<BlobReader<R>, Error>(Error::Stream(e)),
            },
            fetched matches Ok(f) ==> (f.0 <= usize::MAX ==> (r matches Ok(b) && b.size == f.0)),
    {
        match fetched {
            Ok((size, reader)) => Ok(
                BlobReader { digest: request.digest, size: size as usize, reader },
            ),
            Err(e) => Err(Error::Stream(e)),
        }
    }

    /// The local repository in which an image is kept.
    pub fn repo_name(&self, image: &ImageRef) -> (s: String)
        ensures
            s@ == proxied_repo(image.registry@, image.repository@),
    {
        let mut s = "f/".to_owned();
        s.append(image.registry.as_str());
        s.append("/");
        s.append(image.repository.as_str());
        s
    }

    /// Finds out which manifests a reference may stand for. A digest stands for itself, a tag is
    /// looked up, and a reference with neither is invalid.
    pub fn collect_candidate_digests(&self, image: &ImageRef) -> (r: Result<CandidateQuery, Error>)
        ensures
            match (image.digest, image.tag) {
                (Some(d), _) => r matches Ok(CandidateQuery::Known(v)) && texts(v@) == seq![d@],
                (None, Some(t)) => r matches Ok(CandidateQuery::Lookup(tag)) && tag@ == t@,
                (None, None) => r matches Err(Error::Digest(DigestError::InvalidDigest(t)))
                    && t@.len() == 0,
            },
    {
        match &image.digest {
            Some(d) => {
                let v: Vec<String> = vec![d.clone()];
                assert(texts(v@) =~= seq![d@]);
                return Ok(CandidateQuery::Known(v));
            },
            None => {},
        }
        match &image.tag {
            Some(t) => Ok(CandidateQuery::Lookup(t.clone())),
            None => Err(Error::Digest(DigestError::InvalidDigest(String::new()))),
        }
    }
}

/// What the remote registry says is the first candidate, whatever is known locally, and what is
/// known locally is the last one. There is no other candidate and none occurs twice. So if the tag
/// has moved, what it stands for now is tried first, and what it stood for is the fallback.
pub proof fn law_remote_is_tried_before_local(
    local: Option<Seq<char>>,
    remote: Option<Seq<char>>,
)
    ensures
        ({
            let all = candidates(local, remote);
            &&& remote matches Some(r) ==> all.len() > 0 && all[0] == r
            &&& local matches Some(l) ==> all.len() > 0 && all.last() == l
            &&& forall|i: int|
                0 <= i < all.len() ==> (Some(#[trigger] all[i]) == remote || Some(all[i]) == local)
            &&& forall|i: int, j: int| 0 <= i < j < all.len() ==> all[i] != all[j]
            &&& local is Some && remote is Some && local != remote ==> all =~= seq![
                remote->0,
                local->0,
            ]
            &&& local is None && remote is None ==> all.len() == 0
        }),
{
}

/// The characters of some strings are those of each of them, in order.
pub proof fn law_texts_are_those_of_the_strings(v: Seq<String>)
    ensures
        texts(v).len() == v.len(),
        forall|i: int| 0 <= i < v.len() ==> #[trigger] texts(v)[i] == v[i]@,
        forall|s: String| #[trigger] text_of(Some(s)) == Some(s@),
        text_of(None) is None,
{
}

/// The local repository of a remote image is kept apart from those of other kinds by how its name
/// begins, and its name tells the registry and then the repository.
pub proof fn law_repository_name_tells_its_origin(registry: Seq<char>, repository: Seq<char>)
    ensures
        ({
            let name = proxied_repo(registry, repository);
            &&& name.len() == registry.len() + repository.len() + 3
            &&& "f/"@.is_prefix_of(name)
            &&& name.subrange(2, 2 + registry.len() as int) == registry
            &&& name[2 + registry.len() as int] == '/'
            &&& name.skip(3 + registry.len() as int) == repository
        }),
{
    reveal_strlit("f/");
    reveal_strlit("/");
    let name = proxied_repo(registry, repository);
    assert(name.subrange(2, 2 + registry.len() as int) =~= registry);
    assert(name.skip(3 + registry.len() as int) =~= repository);
}

/// The manifests that a tag may stand for are what the remote registry says now, and then what is
/// known locally, each once. Without the database there are none.
pub proof fn law_moved_tag_is_followed(
    local: Result<Option<String>, String>,
    remote: Option<String>,
    r: Result<Vec<String>, Error>,
)
    requires
        call_ensures(merge_candidates, (local, remote), r),
    ensures
        local matches Err(e) ==> r == Err::<Vec<String>, Error>(Error::Repository(e)),
        local matches Ok(known) ==> {
            &&& r matches Ok(v)
            &&& remote matches Some(new) ==> v@.len() > 0 && v@[0]@ == new@
            &&& known matches Some(old_one) ==> v@.len() > 0 && v@[v@.len() - 1]@ == old_one@
            &&& v@.len() == (if remote is None && known is None {
                0int
            } else if remote is Some && known is Some && remote->0@ != known->0@ {
                2
            } else {
                1
            })
        },
{
    match local {
        Ok(known) => {
            let v = r->Ok_0;
            law_texts_are_those_of_the_strings(v@);
            law_remote_is_tried_before_local(text_of(known), text_of(remote));
            let all = candidates(text_of(known), text_of(remote));
            assert(texts(v@).len() == v@.len());
            if all.len() > 0 {
                assert(texts(v@)[0] == v@[0]@);
                assert(texts(v@)[v@.len() - 1] == v@[v@.len() - 1]@);
            }
        },
        Err(_) => {},
    }
}

/// A digest stands for itself, a tag is looked up under its own name, and a reference with neither is
/// refused.
pub proof fn law_reference_leads_to_its_manifests(
    svc: ProxyService,
    image: ImageRef,
    r: Result<CandidateQuery, Error>,
)
    requires
        call_ensures(ProxyService::collect_candidate_digests, (&svc, &image), r),
    ensures
        image.digest matches Some(d) ==> (r matches Ok(CandidateQuery::Known(v)) && v@.len() == 1
            && v@[0]@ == d@),
        image.digest is None && image.tag is Some ==> (r matches Ok(CandidateQuery::Lookup(tag))
            && tag@ == image.tag->0@),
        image.digest is None && image.tag is None ==> r matches Err(Error::Digest(_)),
{
    match r {
        Ok(CandidateQuery::Known(v)) => {
            law_texts_are_those_of_the_strings(v@);
            assert(texts(v@).len() == v@.len());
            if v@.len() > 0 {
                assert(texts(v@)[0] == v@[0]@);
            }
        },
        _ => {},
    }
}

/// A blob is served under the digest that it was asked for by, with the size and the reader that its
/// download gave. Without a client nothing is asked for, and an error of the download is handed on.
pub proof fn law_blob_is_served_as_it_was_asked_for<R>(
    svc: ProxyService,
    client: Result<(), String>,
    digest: &str,
    repo: &str,
    asked: Result<DownloadRequest, Error>,
    fetched: Result<(u64, R), StreamCacheError>,
    served: Result<BlobReader<R>, Error>,
)
    requires
        call_ensures(ProxyService::stream_blob, (&svc, client, digest, repo), asked),
        asked matches Ok(request) ==> call_ensures(
            ProxyService::serve_blob::<R>,
            (&svc, request, fetched),
            served,
        ),
    ensures
        client matches Err(e) ==> asked == Err::<DownloadRequest, Error>(
            Error::Proxy(DownloadRemoteImageError::Client(e)),
        ),
        client is Ok ==> (asked matches Ok(request) && request.digest@ == digest@ && request.repo@
            == repo@ && request.size is None),
        client is Ok ==> (match fetched {
            Ok((size, reader)) => served matches Ok(blob) && blob.digest@ == digest@ && blob.reader
                == reader && (size <= usize::MAX ==> blob.size == size),
            Err(e) => served == Err::<BlobReader<R>, Error>(Error::Stream(e)),
        }),
{
}

/// The name of an image's local repository is made of its registry and its repository.
pub proof fn law_image_is_kept_under_its_origin(svc: ProxyService, image: ImageRef, name: String)
    requires
        call_ensures(ProxyService::repo_name, (&svc, &image), name),
    ensures
        name@ == "f/"@ + image.registry@ + "/"@ + image.repository@,
{
}

/// Layers are streamed exactly by the service that was made for it.
pub proof fn law_service_streams_if_told_to(stream: bool, svc: ProxyService, r: bool)
    requires
        call_ensures(ProxyService::new, (stream,), svc),
        call_ensures(ProxyService::stream_enabled, (&svc,), r),
    ensures
        r == stream,
{
}

} // verus!
