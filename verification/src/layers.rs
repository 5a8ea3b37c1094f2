//! What is downloaded for a manifest: its layers, on demand or in full.

use vstd::prelude::*;
use vstd::hash_map::StringHashMap;
use crate::chunk::held;
use crate::download::DownloadRequest;
use crate::text::same_text;
use crate::proxy::{texts, DownloadRemoteImageError, Error, ManifestBlobs, ProxyService};

verus! {

/// The layers of a manifest whose downloads are being registered, one after the other.
pub struct LayerPrefetch {
    repo: String,
    digests: Vec<String>,
    sizes: StringHashMap<u64>,
    next: usize,
}

/// A manifest that has been pulled.
#[derive(Debug)]
pub struct ManifestDownload {
    /// Layers are streamed.
    pub stream: bool,
    /// The local repository.
    pub repo: String,
    /// The digest of the manifest.
    pub digest: String,
    /// The manifest as it was received.
    pub raw: bytes::Bytes,
}

/// A manifest that has been read, and whose layers are being seen to.
#[derive(Debug)]
pub struct ParsedManifest {
    manifest: ManifestDownload,
    layers: Vec<String>,
}

/// A manifest whose layers have been seen to: its row can be inserted.
#[derive(Debug)]
pub struct StorableManifest {
    manifest: ManifestDownload,
}

/// A manifest that has its row: it can be associated with the repository.
#[derive(Debug)]
pub struct StoredManifest {
    manifest: ManifestDownload,
}

/// A layer that is downloaded in full.
#[derive(Debug)]
pub struct BlobDownload {
    pub digest: String,
    /// The local repository.
    pub repo: String,
}

/// A layer that the store does not have.
#[derive(Debug)]
pub struct LayerPull {
    layer: BlobDownload,
}

/// A layer whose stream is open: it can be written into the store.
#[derive(Debug)]
pub struct OpenLayer {
    layer: BlobDownload,
}

/// A layer that lies in the store: its row can be inserted.
#[derive(Debug)]
pub struct WrittenLayer {
    layer: BlobDownload,
    len: u64,
}

/// A layer that has its row: it can be associated with the repository.
#[derive(Debug)]
pub struct AssociableLayer {
    layer: BlobDownload,
}

/// A layer that is associated with the repository.
#[derive(Debug)]
pub struct AssociatedLayer {
    layer: BlobDownload,
}

/// What is done about the layers of a manifest before the manifest is stored.
pub enum LayerWork {
    /// Register downloads for those that are missing, and do not wait for them.
    Prefetch(LayerPrefetch),
    /// Download them all, and wait.
    Download(Vec<BlobDownload>),
}

/// What has been done about the layers of a manifest.
pub enum LayersDone {
    /// Downloads have been registered for those that were missing.
    Registered(LayerPrefetch),
    /// They are all in the store, and associated with the repository.
    Associated(Vec<AssociatedLayer>),
}

/// What is done next about a layer that is downloaded in full.
#[derive(Debug)]
pub enum BlobStep {
    /// Pull it into the store.
    Pull(LayerPull),
    /// It is there: associate it with the repository.
    Associate(AssociableLayer),
}

/// The sizes by digest. Where a digest occurs more than once the last size counts.
pub open spec fn sizes_by_digest(sizes: Seq<(String, u64)>) -> Map<Seq<char>, u64>
    decreases sizes.len(),
{
    if sizes.len() == 0 {
        Map::empty()
    } else {
        sizes_by_digest(sizes.drop_last()).insert(sizes.last().0@, sizes.last().1)
    }
}

/// The size that goes with a digest, if there is one.
pub open spec fn size_of_layer(sizes: Map<Seq<char>, u64>, digest: Seq<char>) -> Option<u64> {
    if sizes.contains_key(digest) {
        Some(sizes[digest])
    } else {
        None
    }
}

impl ProxyService {
    /// Begins to register downloads for the layers of a manifest that the blob store does not have
    /// yet, each with the size that its descriptor gives.
    ///
    /// The size is the point: a download without one may not be planned. A manifest list has no layers
    /// of its own, and nothing is done for it.
    pub fn prefetch_missing_layers(&self, repo: &str, blobs: ManifestBlobs) -> (p: LayerPrefetch)
        ensures
            p.repo() == repo@,
            p.layers() == texts(blobs.digests@),
            p.sizes() == sizes_by_digest(blobs.sizes@),
            p.position() == 0,
    {
        let mut sizes: StringHashMap<u64> = StringHashMap::new();
        let n: usize = blobs.sizes.len();
        let mut i: usize = 0;
        assert(blobs.sizes@.take(0) =~= Seq::<(String, u64)>::empty());
        while i < n
            invariant
                n == blobs.sizes@.len(),
                i <= n,
                sizes@ == sizes_by_digest(blobs.sizes@.take(i as int)),
            decreases n - i,
        {
            let size: u64 = blobs.sizes[i].1;
            sizes.insert(blobs.sizes[i].0.clone(), size);
            assert(blobs.sizes@.take(i + 1).drop_last() =~= blobs.sizes@.take(i as int));
            i = i + 1;
        }
        assert(blobs.sizes@.take(n as int) =~= blobs.sizes@);
        LayerPrefetch { repo: repo.to_owned(), digests: blobs.digests, sizes, next: 0 }
    }

    /// Begins to register downloads for the layers of a manifest that is stored already, as far as
    /// it was found and could be read. If not, there is nothing to register.
    pub fn prefetch_stored_layers(&self, repo: &str, stored: Option<ManifestBlobs>) -> (r: Option<
        LayerPrefetch,
    >)
        ensures
            match stored {
                Some(blobs) => {
                    &&& r matches Some(p)
                    &&& p.repo() == repo@
                    &&& p.layers() == texts(blobs.digests@)
                    &&& p.sizes() == sizes_by_digest(blobs.sizes@)
                    &&& p.position() == 0
                },
                None => r is None,
            },
    {
        match stored {
            Some(blobs) => Some(self.prefetch_missing_layers(repo, blobs)),
            None => None,
        }
    }

    /// Begins the download of a manifest and its layers with the outcome of pulling the manifest:
    /// its bytes and its digest.
    pub fn download_manifest_and_layers(
        &self,
        repo: &str,
        pulled: Result<(bytes::Bytes, String), String>,
    ) -> (r: Result<ManifestDownload, Error>)
        ensures
            match pulled {
                Ok((raw, digest)) => {
                    &&& r matches Ok(m)
                    &&& m.stream == self.streams()
                    &&& m.repo@ == repo@
                    &&& m.digest == digest
                    &&& m.raw == raw
                },
                Err(e) => r == Err::<ManifestDownload, Error>(
                    Error::Proxy(DownloadRemoteImageError::Registry(e)),
                ),
            },
    {
        match pulled {
            Ok((raw, digest)) => Ok(
                ManifestDownload {
                    stream: self.stream_enabled(),
                    repo: repo.to_owned(),
                    digest,
                    raw,
                },
            ),
            Err(e) => Err(Error::Proxy(DownloadRemoteImageError::Registry(e))),
        }
    }

    /// Begins the download of a layer in full.
    pub fn download_blob(&self, digest: &str, repo: &str) -> (b: BlobDownload)
        ensures
            b.digest@ == digest@,
            b.repo@ == repo@,
    {
        BlobDownload { digest: digest.to_owned(), repo: repo.to_owned() }
    }
}

impl LayerPrefetch {
    /// The local repository.
    pub closed spec fn repo(self) -> Seq<char> {
        self.repo@
    }

    /// The digests of the layers.
    pub closed spec fn layers(self) -> Seq<Seq<char>> {
        texts(self.digests@)
    }

    /// The sizes of the layers.
    pub closed spec fn sizes(self) -> Map<Seq<char>, u64> {
        self.sizes@
    }

    /// How many layers have been dealt with.
    pub closed spec fn position(self) -> int {
        self.next as int
    }

    /// The layer whose turn it is: find out whether the store has it.
    pub fn pending(&self) -> (r: Option<&str>)
        ensures
            match r {
                Some(d) => self.position() < self.layers().len() && d@
                    == self.layers()[self.position()],
                None => self.position() >= self.layers().len(),
            },
    {
        if self.next < self.digests.len() {
            Some(self.digests[self.next].as_str())
        } else {
            None
        }
    }

    /// Takes the answer to whether the store has the layer, and turns to the next one. A layer
    /// that is missing is to be downloaded. Without an answer the work cannot go on.
    pub fn answered(&mut self, answer: Result<bool, String>) -> (r: Result<
        Option<DownloadRequest>,
        Error,
    >)
        requires
            old(self).position() < old(self).layers().len(),
        ensures
            final(self).layers() == old(self).layers(),
            final(self).sizes() == old(self).sizes(),
            final(self).repo() == old(self).repo(),
            ({
                let digest = old(self).layers()[old(self).position()];
                match answer {
                    Ok(true) => {
                        &&& r matches Ok(None)
                        &&& final(self).position() == old(self).position() + 1
                    },
                    Ok(false) => {
                        &&& r matches Ok(Some(request))
                        &&& request.asks(
                            digest,
                            old(self).repo(),
                            size_of_layer(old(self).sizes(), digest),
                        )
                        &&& final(self).position() == old(self).position() + 1
                    },
                    Err(e) => {
                        &&& r == Err::<Option<DownloadRequest>, Error>(Error::Repository(e))
                        &&& final(self).position() == old(self).position()
                    },
                }
            }),
            answer matches Ok(has_blob) ==> (r matches Ok(request) && forall|
                stored: spec_fn(int) -> bool,
            |
                stored(old(self).position()) == has_blob ==> #[trigger] registered(
                    old(self).layers(),
                    old(self).sizes(),
                    stored,
                    final(self).position(),
                ) == registered(
                    old(self).layers(),
                    old(self).sizes(),
                    stored,
                    old(self).position(),
                ) + registration(request)),
    {
        let has_blob = match answer {
            Ok(has_blob) => has_blob,
            Err(e) => {
                return Err(Error::Repository(e));
            },
        };
        let i: usize = self.next;
        assert(i < self.digests.len());
        self.next = self.next + 1;
        if has_blob {
            return Ok(None);
        }
        let size: Option<u64> = match self.sizes.get(self.digests[i].as_str()) {
            Some(size) => Some(*size),
            None => None,
        };
        Ok(Some(DownloadRequest { digest: self.digests[i].clone(), repo: self.repo.clone(), size }))
    }

    /// Whether these are the layers, of this repository, and all of them have been dealt with.
    fn covers(&self, layers: &Vec<String>, repo: &str) -> (r: bool)
        ensures
            r == (self.layers() == texts(layers@) && self.repo() == repo@ && self.position()
                >= self.layers().len()),
    {
        if self.next < self.digests.len() || !same_text(self.repo.as_str(), repo) {
            return false;
        }
        same_texts(&self.digests, layers)
    }
}

/// Whether two lists hold the same strings.
fn same_texts(a: &Vec<String>, b: &Vec<String>) -> (r: bool)
    ensures
        r == (texts(a@) == texts(b@)),
{
    let n: usize = a.len();
    if n != b.len() {
        assert(texts(a@).len() != texts(b@).len());
        return false;
    }
    let mut i: usize = 0;
    while i < n
        invariant
            n == a@.len(),
            n == b@.len(),
            i <= n,
            forall|j: int| 0 <= j < i ==> (#[trigger] a@[j])@ == b@[j]@,
        decreases n - i,
    {
        if !same_text(a[i].as_str(), b[i].as_str()) {
            assert(texts(a@)[i as int] != texts(b@)[i as int]);
            return false;
        }
        i = i + 1;
    }
    assert(texts(a@) =~= texts(b@));
    true
}

/// The download that a request registers, if there is one.
pub open spec fn registration(request: Option<DownloadRequest>) -> Seq<(Seq<char>, Option<u64>)> {
    match request {
        Some(r) => seq![(r.digest@, r.size)],
        None => seq![],
    }
}

/// The downloads that are registered for the first `n` layers, given what the store has.
pub open spec fn registered(
    layers: Seq<Seq<char>>,
    sizes: Map<Seq<char>, u64>,
    stored: spec_fn(int) -> bool,
    n: int,
) -> Seq<(Seq<char>, Option<u64>)>
    decreases n,
{
    if n <= 0 {
        Seq::empty()
    } else {
        let before = registered(layers, sizes, stored, n - 1);
        if stored(n - 1) {
            before
        } else {
            before.push((layers[n - 1], size_of_layer(sizes, layers[n - 1])))
        }
    }
}

/// A download is registered for every layer that the store does not have, with the size from its
/// descriptor, in the order of the manifest, and for no other.
pub proof fn law_every_missing_layer_is_registered(
    layers: Seq<Seq<char>>,
    sizes: Map<Seq<char>, u64>,
    stored: spec_fn(int) -> bool,
    n: int,
)
    requires
        0 <= n <= layers.len(),
    ensures
        registered(layers, sizes, stored, n) == Seq::new(n as nat, |i: int| i).filter(
            |i: int| !stored(i),
        ).map_values(|i: int| (layers[i], size_of_layer(sizes, layers[i]))),
    decreases n,
{
    let all = Seq::new(n as nat, |i: int| i);
    let missing = |i: int| !stored(i);
    let entry = |i: int| (layers[i], size_of_layer(sizes, layers[i]));
    reveal(Seq::filter);
    if n > 0 {
        law_every_missing_layer_is_registered(layers, sizes, stored, n - 1);
        let front = Seq::new((n - 1) as nat, |i: int| i);
        assert(all.drop_last() =~= front);
        assert(all.last() == n - 1);
        let kept = front.filter(missing);
        if missing(n - 1) {
            assert(all.filter(missing) == kept.push(n - 1));
            assert(kept.push(n - 1).map_values(entry) =~= kept.map_values(entry).push(
                entry(n - 1),
            ));
        } else {
            assert(all.filter(missing) == kept);
        }
        assert(registered(layers, sizes, stored, n) =~= all.filter(missing).map_values(entry));
    } else {
        assert(all.filter(missing) =~= Seq::<int>::empty());
        assert(registered(layers, sizes, stored, n) =~= all.filter(missing).map_values(entry));
    }
}

impl ManifestDownload {
    /// Takes what the manifest says, and decides what is done about its layers before it is
    /// stored. When layers are streamed the manifest is stored right away so that the client can
    /// proceed, and the downloads warm the cache even before the first blob is asked for.
    pub fn parsed(self, svc: &ProxyService, blobs: Result<ManifestBlobs, String>) -> (r: Result<
        (ParsedManifest, LayerWork),
        Error,
    >)
        ensures
            match blobs {
                Ok(b) => {
                    &&& r matches Ok(next)
                    &&& next.0.of() == self
                    &&& next.0.layers() == texts(b.digests@)
                    &&& if self.stream {
                        &&& next.1 matches LayerWork::Prefetch(p)
                        &&& p.repo() == self.repo@
                        &&& p.layers() == texts(b.digests@)
                        &&& p.sizes() == sizes_by_digest(b.sizes@)
                        &&& p.position() == 0
                    } else {
                        &&& next.1 matches LayerWork::Download(v)
                        &&& v@.len() == b.digests@.len()
                        &&& forall|i: int|
                            0 <= i < v@.len() ==> (#[trigger] v@[i]).digest@ == b.digests@[i]@
                                && v@[i].repo@ == self.repo@
                    }
                },
                Err(e) => r == Err::<(ParsedManifest, LayerWork), Error>(
                    Error::Proxy(DownloadRemoteImageError::Manifest(e)),
                ),
            },
    {
        let b = match blobs {
            Ok(b) => b,
            Err(e) => {
                return Err(Error::Proxy(DownloadRemoteImageError::Manifest(e)));
            },
        };
        let mut v: Vec<BlobDownload> = Vec::new();
        let mut layers: Vec<String> = Vec::new();
        let n: usize = b.digests.len();
        let mut i: usize = 0;
        while i < n
            invariant
                n == b.digests@.len(),
                i <= n,
                v@.len() == i,
                layers@.len() == i,
                forall|j: int| 0 <= j < i ==> (#[trigger] layers@[j])@ == b.digests@[j]@,
                forall|j: int|
                    0 <= j < i ==> (#[trigger] v@[j]).digest@ == b.digests@[j]@ && v@[j].repo@
                        == self.repo@,
            decreases n - i,
        {
            layers.push(b.digests[i].clone());
            v.push(svc.download_blob(b.digests[i].as_str(), self.repo.as_str()));
            i = i + 1;
        }
        assert(texts(layers@) =~= texts(b.digests@));
        let work = if self.stream {
            LayerWork::Prefetch(svc.prefetch_missing_layers(self.repo.as_str(), b))
        } else {
            LayerWork::Download(v)
        };
        Ok((ParsedManifest { manifest: self, layers }, work))
    }
}

impl ParsedManifest {
    /// The manifest.
    pub closed spec fn of(self) -> ManifestDownload {
        self.manifest
    }

    /// The digests of its layers.
    pub closed spec fn layers(self) -> Seq<Seq<char>> {
        texts(self.layers@)
    }

    /// This has been done about every layer of the manifest: when layers are streamed, each that
    /// was missing has been handed out for download; when they are not, each is associated with the
    /// repository.
    pub open spec fn seen_to(self, done: LayersDone) -> bool {
        match done {
            LayersDone::Registered(p) => {
                &&& self.of().stream
                &&& p.layers() == self.layers()
                &&& p.repo() == self.of().repo@
                &&& p.position() >= p.layers().len()
            },
            LayersDone::Associated(v) => {
                &&& !self.of().stream
                &&& v@.len() == self.layers().len()
                &&& forall|i: int|
                    0 <= i < v@.len() ==> (#[trigger] v@[i]).of().digest@ == self.layers()[i]
                        && v@[i].of().repo@ == self.of().repo@
            },
        }
    }

    /// Whether this has been done about every layer of the manifest.
    pub fn covers(&self, done: &LayersDone) -> (r: bool)
        ensures
            r == self.seen_to(*done),
    {
        match done {
            LayersDone::Registered(p) => self.manifest.stream && p.covers(
                &self.layers,
                self.manifest.repo.as_str(),
            ),
            LayersDone::Associated(v) => {
                let n: usize = v.len();
                if self.manifest.stream || n != self.layers.len() {
                    return false;
                }
                let mut i: usize = 0;
                while i < n
                    invariant
                        n == v@.len(),
                        n == self.layers@.len(),
                        i <= n,
                        *done == LayersDone::Associated(*v),
                        !self.of().stream,
                        forall|j: int|
                            0 <= j < i ==> (#[trigger] v@[j]).of().digest@ == self.layers()[j]
                                && v@[j].of().repo@ == self.of().repo@,
                    decreases n - i,
                {
                    let layer = v[i].layer();
                    if !same_text(layer.digest.as_str(), self.layers[i].as_str()) || !same_text(
                        layer.repo.as_str(),
                        self.manifest.repo.as_str(),
                    ) {
                        assert(v@[i as int].of().digest@ != self.layers()[i as int]
                            || v@[i as int].of().repo@ != self.of().repo@);
                        return false;
                    }
                    i = i + 1;
                }
                true
            },
        }
    }

    /// Takes the outcome of the work on the layers. Only if all of it succeeded may the manifest be
    /// stored; a layer that failed ends the download with its error.
    pub fn layers_done(self, outcome: Result<LayersDone, Error>) -> (r: Result<
        StorableManifest,
        Error,
    >)
        requires
            outcome matches Ok(done) ==> self.seen_to(done),
        ensures
            match outcome {
                Ok(_) => r matches Ok(m) && m.of() == self.of(),
                Err(e) => r == Err::<StorableManifest, Error>(e),
            },
    {
        match outcome {
            Ok(_) => Ok(StorableManifest { manifest: self.manifest }),
            Err(e) => Err(e),
        }
    }
}

impl StorableManifest {
    /// The manifest.
    pub closed spec fn of(self) -> ManifestDownload {
        self.manifest
    }

    /// The manifest whose row is inserted: its digest, and its bytes as they were received.
    pub fn row(&self) -> (r: (&str, &bytes::Bytes))
        ensures
            r.0@ == self.of().digest@,
            held(*r.1) == held(self.of().raw),
    {
        (self.manifest.digest.as_str(), &self.manifest.raw)
    }

    /// Takes the outcome of inserting the row.
    pub fn stored(self, outcome: Result<(), String>) -> (r: Result<StoredManifest, Error>)
        ensures
            match outcome {
                Ok(_) => r matches Ok(m) && m.of() == self.of(),
                Err(e) => r == Err::<StoredManifest, Error>(Error::Repository(e)),
            },
    {
        match outcome {
            Ok(()) => Ok(StoredManifest { manifest: self.manifest }),
            Err(e) => Err(Error::Repository(e)),
        }
    }
}

impl StoredManifest {
    /// The manifest.
    pub closed spec fn of(self) -> ManifestDownload {
        self.manifest
    }

    /// The association that is inserted: the repository, and the digest of the manifest.
    pub fn association(&self) -> (r: (&str, &str))
        ensures
            r.0@ == self.of().repo@,
            r.1@ == self.of().digest@,
    {
        (self.manifest.repo.as_str(), self.manifest.digest.as_str())
    }

    /// Takes the outcome of associating the manifest with the repository, which ends the download.
    pub fn associated(self, outcome: Result<(), String>) -> (r: Result<(), Error>)
        ensures
            match outcome {
                Ok(_) => r is Ok,
                Err(e) => r == Err::<(), Error>(Error::Repository(e)),
            },
    {
        match outcome {
            Ok(()) => Ok(()),
            Err(e) => Err(Error::Repository(e)),
        }
    }
}

impl BlobDownload {
    /// Takes the answer to whether the store has the blob. One that is there is neither pulled nor
    /// recorded again.
    pub fn known(self, answer: Result<bool, String>) -> (r: Result<BlobStep, Error>)
        ensures
            match answer {
                Ok(true) => r matches Ok(BlobStep::Associate(next)) && next.of() == self,
                Ok(false) => r matches Ok(BlobStep::Pull(next)) && next.of() == self,
                Err(e) => r == Err::<BlobStep, Error>(Error::Repository(e)),
            },
    {
        match answer {
            Ok(true) => Ok(BlobStep::Associate(AssociableLayer { layer: self })),
            Ok(false) => Ok(BlobStep::Pull(LayerPull { layer: self })),
            Err(e) => Err(Error::Repository(e)),
        }
    }
}

impl LayerPull {
    /// The layer.
    pub closed spec fn of(self) -> BlobDownload {
        self.layer
    }

    /// The layer whose stream is opened.
    pub fn layer(&self) -> (r: &BlobDownload)
        ensures
            *r == self.of(),
    {
        &self.layer
    }

    /// Takes the outcome of opening the stream.
    pub fn opened(self, outcome: Result<(), String>) -> (r: Result<OpenLayer, Error>)
        ensures
            match outcome {
                Ok(_) => r matches Ok(next) && next.of() == self.of(),
                Err(e) => r == Err::<OpenLayer, Error>(
                    Error::Proxy(DownloadRemoteImageError::Registry(e)),
                ),
            },
    {
        match outcome {
            Ok(()) => Ok(OpenLayer { layer: self.layer }),
            Err(e) => Err(Error::Proxy(DownloadRemoteImageError::Registry(e))),
        }
    }
}

impl OpenLayer {
    /// The layer.
    pub closed spec fn of(self) -> BlobDownload {
        self.layer
    }

    /// The layer that is written.
    pub fn layer(&self) -> (r: &BlobDownload)
        ensures
            *r == self.of(),
    {
        &self.layer
    }

    /// Takes the outcome of writing the stream into the store, which is the length of the file.
    pub fn written(self, outcome: Result<u64, String>) -> (r: Result<WrittenLayer, Error>)
        ensures
            match outcome {
                Ok(len) => r matches Ok(next) && next.of() == self.of() && next.length() == len,
                Err(e) => r == Err::<WrittenLayer, Error>(Error::Storage(e)),
            },
    {
        match outcome {
            Ok(len) => Ok(WrittenLayer { layer: self.layer, len }),
            Err(e) => Err(Error::Storage(e)),
        }
    }
}

impl WrittenLayer {
    /// The layer.
    pub closed spec fn of(self) -> BlobDownload {
        self.layer
    }

    /// The length of its file.
    pub closed spec fn length(self) -> u64 {
        self.len
    }

    /// The row that is inserted: the digest of the layer, and the length of its file.
    pub fn row(&self) -> (r: (&str, i64))
        ensures
            r.0@ == self.of().digest@,
            r.1 == self.length() as i64,
            self.length() <= i64::MAX ==> r.1 == self.length(),
    {
        (self.layer.digest.as_str(), self.len as i64)
    }

    /// Takes the outcome of inserting the row.
    pub fn recorded(self, outcome: Result<(), String>) -> (r: Result<AssociableLayer, Error>)
        ensures
            match outcome {
                Ok(_) => r matches Ok(next) && next.of() == self.of(),
                Err(e) => r == Err::<AssociableLayer, Error>(Error::Repository(e)),
            },
    {
        match outcome {
            Ok(()) => Ok(AssociableLayer { layer: self.layer }),
            Err(e) => Err(Error::Repository(e)),
        }
    }
}

impl AssociableLayer {
    /// The layer.
    pub closed spec fn of(self) -> BlobDownload {
        self.layer
    }

    /// The association that is inserted: the repository, and the digest of the layer.
    pub fn association(&self) -> (r: (&str, &str))
        ensures
            r.0@ == self.of().repo@,
            r.1@ == self.of().digest@,
    {
        (self.layer.repo.as_str(), self.layer.digest.as_str())
    }

    /// Takes the outcome of associating the layer with the repository, which ends the work on it.
    pub fn associated(self, outcome: Result<(), String>) -> (r: Result<AssociatedLayer, Error>)
        ensures
            match outcome {
                Ok(_) => r matches Ok(next) && next.of() == self.of(),
                Err(e) => r == Err::<AssociatedLayer, Error>(Error::Repository(e)),
            },
    {
        match outcome {
            Ok(()) => Ok(AssociatedLayer { layer: self.layer }),
            Err(e) => Err(Error::Repository(e)),
        }
    }
}

impl AssociatedLayer {
    /// The layer.
    pub closed spec fn of(self) -> BlobDownload {
        self.layer
    }

    /// The layer that is associated with the repository.
    pub fn layer(&self) -> (r: &BlobDownload)
        ensures
            *r == self.of(),
    {
        &self.layer
    }
}

/// The size of a layer is that of its last descriptor, whatever it is: of every descriptor behind
/// which no other has the same digest. A layer without a descriptor has none.
pub proof fn law_size_is_that_of_the_last_descriptor(sizes: Seq<(String, u64)>, digest: Seq<char>)
    ensures
        forall|i: int|
            0 <= i < sizes.len() && (#[trigger] sizes[i]).0@ == digest && (forall|j: int|
                i < j < sizes.len() ==> (#[trigger] sizes[j]).0@ != digest) ==> size_of_layer(
                sizes_by_digest(sizes),
                digest,
            ) == Some(sizes[i].1),
        (forall|i: int| 0 <= i < sizes.len() ==> (#[trigger] sizes[i]).0@ != digest)
            ==> size_of_layer(sizes_by_digest(sizes), digest) is None,
    decreases sizes.len(),
{
    if sizes.len() > 0 {
        let front = sizes.drop_last();
        law_size_is_that_of_the_last_descriptor(front, digest);
        assert forall|i: int|
            0 <= i < sizes.len() && (#[trigger] sizes[i]).0@ == digest && (forall|j: int|
                i < j < sizes.len() ==> (#[trigger] sizes[j]).0@ != digest) implies size_of_layer(
            sizes_by_digest(sizes),
            digest,
        ) == Some(sizes[i].1) by {
            if i < sizes.len() - 1 {
                assert(sizes[sizes.len() - 1].0@ != digest);
                assert(front[i] == sizes[i]);
                assert forall|j: int| i < j < front.len() implies (#[trigger] front[j]).0@
                    != digest by {
                    assert(sizes[j].0@ != digest);
                }
            }
        }
        if forall|i: int| 0 <= i < sizes.len() ==> (#[trigger] sizes[i]).0@ != digest {
            assert(sizes[sizes.len() - 1].0@ != digest);
            assert forall|i: int| 0 <= i < front.len() implies (#[trigger] front[i]).0@
                != digest by {
                assert(sizes[i].0@ != digest);
            }
        }
    }
}

/// A request for a missing layer of a manifest asks for that layer, with the size of its last
/// descriptor.
pub proof fn law_missing_layer_is_requested_with_its_size(
    blobs: ManifestBlobs,
    layer: int,
    descriptor: int,
    repo: Seq<char>,
    request: DownloadRequest,
)
    requires
        0 <= layer < blobs.digests@.len(),
        0 <= descriptor < blobs.sizes@.len(),
        blobs.sizes@[descriptor].0@ == blobs.digests@[layer]@,
        forall|j: int|
            descriptor < j < blobs.sizes@.len() ==> (#[trigger] blobs.sizes@[j]).0@
                != blobs.digests@[layer]@,
        request.asks(
            texts(blobs.digests@)[layer],
            repo,
            size_of_layer(sizes_by_digest(blobs.sizes@), texts(blobs.digests@)[layer]),
        ),
    ensures
        request.digest@ == blobs.digests@[layer]@,
        request.repo@ == repo,
        request.size == Some(blobs.sizes@[descriptor].1),
{
    law_size_is_that_of_the_last_descriptor(blobs.sizes@, blobs.digests@[layer]@);
}

/// No layer of a manifest is left out of what has been seen to. When layers are not streamed each is
/// associated with the repository of the manifest; when they are each has been dealt with.
pub proof fn law_no_layer_is_left_out(manifest: ParsedManifest, done: LayersDone, layer: int)
    requires
        manifest.seen_to(done),
        0 <= layer < manifest.layers().len(),
    ensures
        match done {
            LayersDone::Associated(v) => !manifest.of().stream && exists|i: int|
                0 <= i < v@.len() && (#[trigger] v@[i]).of().digest@ == manifest.layers()[layer]
                    && v@[i].of().repo@ == manifest.of().repo@,
            LayersDone::Registered(p) => manifest.of().stream && layer < p.position()
                && p.layers()[layer] == manifest.layers()[layer] && p.repo()
                == manifest.of().repo@,
        },
{
    match done {
        LayersDone::Associated(v) => {
            assert(v@[layer].of().digest@ == manifest.layers()[layer]);
        },
        LayersDone::Registered(p) => {},
    }
}

/// A layer is registered exactly when the store does not have it: the downloads of the first `n`
/// layers are as many as are missing among them, and each missing one is there with its size.
pub proof fn law_missing_layer_is_among_the_registered(
    layers: Seq<Seq<char>>,
    sizes: Map<Seq<char>, u64>,
    stored: spec_fn(int) -> bool,
    n: int,
    layer: int,
)
    requires
        0 <= layer < n <= layers.len(),
        !stored(layer),
    ensures
        exists|k: int|
            0 <= k < registered(layers, sizes, stored, n).len() && (#[trigger] registered(
                layers,
                sizes,
                stored,
                n,
            )[k]).0 == layers[layer] && registered(layers, sizes, stored, n)[k].1 == (
            if sizes.contains_key(layers[layer]) {
                Some(sizes[layers[layer]])
            } else {
                None
            }),
    decreases n,
{
    let all = registered(layers, sizes, stored, n);
    let before = registered(layers, sizes, stored, n - 1);
    if layer == n - 1 {
        assert(all[all.len() - 1].0 == layers[layer]);
    } else {
        law_missing_layer_is_among_the_registered(layers, sizes, stored, n - 1, layer);
        let k = choose|k: int|
            0 <= k < before.len() && (#[trigger] before[k]).0 == layers[layer] && before[k].1 == (
            if sizes.contains_key(layers[layer]) {
                Some(sizes[layers[layer]])
            } else {
                None
            });
        assert(all[k] == before[k]);
    }
}

/// Every layer of a manifest is seen to in turn, from the first on, with the sizes that the
/// manifest gives.
pub proof fn law_prefetch_is_for_the_manifest(
    svc: ProxyService,
    repo: &str,
    blobs: ManifestBlobs,
    p: LayerPrefetch,
    layer: int,
    descriptor: int,
)
    requires
        call_ensures(ProxyService::prefetch_missing_layers, (&svc, repo, blobs), p),
        0 <= layer < blobs.digests@.len(),
        0 <= descriptor < blobs.sizes@.len(),
        blobs.sizes@[descriptor].0@ == blobs.digests@[layer]@,
        forall|j: int|
            descriptor < j < blobs.sizes@.len() ==> (#[trigger] blobs.sizes@[j]).0@
                != blobs.digests@[layer]@,
    ensures
        p.position() == 0,
        p.repo() == repo@,
        p.layers().len() == blobs.digests@.len(),
        p.layers()[layer] == blobs.digests@[layer]@,
        p.sizes().contains_key(p.layers()[layer]),
        p.sizes()[p.layers()[layer]] == blobs.sizes@[descriptor].1,
{
    law_size_is_that_of_the_last_descriptor(blobs.sizes@, blobs.digests@[layer]@);
}

/// A layer that the store does not have is requested, with its size if there is one; one that it has
/// is not. Either way the next layer is next. Without an answer the work stays where it is.
pub proof fn law_missing_layer_is_requested()
    ensures
        forall|p: &mut LayerPrefetch, r: Result<Option<DownloadRequest>, Error>|
            #[trigger] call_ensures(LayerPrefetch::answered, (p, Ok(false)), r) && p.position()
                < p.layers().len() ==> {
                let digest = p.layers()[p.position()];
                &&& r matches Ok(Some(request))
                &&& request.digest@ == digest
                &&& request.repo@ == p.repo()
                &&& p.sizes().contains_key(digest) ==> request.size == Some(p.sizes()[digest])
                &&& !p.sizes().contains_key(digest) ==> request.size is None
                &&& final(p).position() == p.position() + 1
                &&& final(p).layers() == p.layers()
                &&& final(p).sizes() == p.sizes()
                &&& final(p).repo() == p.repo()
            },
        forall|p: &mut LayerPrefetch, r: Result<Option<DownloadRequest>, Error>|
            #[trigger] call_ensures(LayerPrefetch::answered, (p, Ok(true)), r) && p.position()
                < p.layers().len() ==> (r matches Ok(None)) && final(p).position() == p.position()
                + 1 && final(p).layers() == p.layers() && final(p).sizes() == p.sizes() && final(p).repo() == p.repo(),
        forall|p: &mut LayerPrefetch, e: String, r: Result<Option<DownloadRequest>, Error>|
            #[trigger] call_ensures(LayerPrefetch::answered, (p, Err(e)), r) && p.position()
                < p.layers().len() ==> r == Err::<Option<DownloadRequest>, Error>(
                Error::Repository(e),
            ) && final(p).position() == p.position(),
        forall|p: &LayerPrefetch, r: Option<&str>|
            #[trigger] call_ensures(LayerPrefetch::pending, (p,), r) ==> (match r {
                Some(d) => p.position() < p.layers().len() && d@ == p.layers()[p.position()],
                None => p.position() >= p.layers().len(),
            }),
{
}

/// A layer that the store does not have is pulled, written, recorded with the length of its file and
/// then associated; one that it has is associated at once. What is associated in the end is the
/// layer that was asked for, with the repository that it was asked for.
pub proof fn law_layer_is_associated_in_the_end(
    svc: ProxyService,
    digest: &str,
    repo: &str,
    asked: BlobDownload,
    pull: LayerPull,
    open: OpenLayer,
    len: u64,
    written: WrittenLayer,
    row: (&str, i64),
    recorded: AssociableLayer,
    known: AssociableLayer,
    done: (AssociatedLayer, AssociatedLayer),
)
    requires
        call_ensures(ProxyService::download_blob, (&svc, digest, repo), asked),
        call_ensures(BlobDownload::known, (asked, Ok(false)), Ok(BlobStep::Pull(pull))),
        call_ensures(LayerPull::opened, (pull, Ok(())), Ok(open)),
        call_ensures(OpenLayer::written, (open, Ok(len)), Ok(written)),
        call_ensures(WrittenLayer::row, (&written,), row),
        call_ensures(WrittenLayer::recorded, (written, Ok(())), Ok(recorded)),
        call_ensures(AssociableLayer::associated, (recorded, Ok(())), Ok(done.0)),
        call_ensures(BlobDownload::known, (asked, Ok(true)), Ok(BlobStep::Associate(known))),
        call_ensures(AssociableLayer::associated, (known, Ok(())), Ok(done.1)),
    ensures
        pull.of().digest@ == digest@,
        open.of().digest@ == digest@,
        row.0@ == digest@,
        len <= i64::MAX ==> row.1 == len,
        done.0.of().digest@ == digest@ && done.0.of().repo@ == repo@,
        done.1.of().digest@ == digest@ && done.1.of().repo@ == repo@,
{
}

/// A layer that is there is not pulled, and one that is not is not associated before it is. A step
/// that fails ends the work on the layer with its own error.
pub proof fn law_failed_layer_tells_why(
    asked: BlobDownload,
    answer: bool,
    step: BlobStep,
    e: String,
    unknown: Result<BlobStep, Error>,
    pull: LayerPull,
    opened: Result<OpenLayer, Error>,
    open: OpenLayer,
    written: Result<WrittenLayer, Error>,
    layer: WrittenLayer,
    recorded: Result<AssociableLayer, Error>,
    last: AssociableLayer,
    associated: Result<AssociatedLayer, Error>,
)
    requires
        call_ensures(BlobDownload::known, (asked, Ok(answer)), Ok(step)),
        call_ensures(BlobDownload::known, (asked, Err(e)), unknown),
        call_ensures(LayerPull::opened, (pull, Err(e)), opened),
        call_ensures(OpenLayer::written, (open, Err(e)), written),
        call_ensures(WrittenLayer::recorded, (layer, Err(e)), recorded),
        call_ensures(AssociableLayer::associated, (last, Err(e)), associated),
    ensures
        step is Associate <==> answer,
        unknown == Err::<BlobStep, Error>(Error::Repository(e)),
        opened == Err::<OpenLayer, Error>(Error::Proxy(DownloadRemoteImageError::Registry(e))),
        written == Err::<WrittenLayer, Error>(Error::Storage(e)),
        recorded == Err::<AssociableLayer, Error>(Error::Repository(e)),
        associated == Err::<AssociatedLayer, Error>(Error::Repository(e)),
{
}

/// A manifest is stored as it was received, under its digest, when its layers have been seen to, and
/// then associated with its repository.
pub proof fn law_manifest_is_stored_as_received(
    svc: ProxyService,
    repo: &str,
    raw: bytes::Bytes,
    digest: String,
    pulled: ManifestDownload,
    blobs: Result<ManifestBlobs, String>,
    parsed: (ParsedManifest, LayerWork),
    done: Result<LayersDone, Error>,
    storable: StorableManifest,
    row: (&str, &bytes::Bytes),
    outcomes: (Result<(), String>, Result<(), String>),
    stored: StoredManifest,
    association: (&str, &str),
    r: Result<(), Error>,
)
    requires
        call_ensures(
            ProxyService::download_manifest_and_layers,
            (&svc, repo, Ok((raw, digest))),
            Ok(pulled),
        ),
        call_ensures(ManifestDownload::parsed, (pulled, &svc, blobs), Ok(parsed)),
        done matches Ok(work) ==> parsed.0.seen_to(work),
        call_ensures(ParsedManifest::layers_done, (parsed.0, done), Ok(storable)),
        call_ensures(StorableManifest::row, (&storable,), row),
        call_ensures(StorableManifest::stored, (storable, outcomes.0), Ok(stored)),
        call_ensures(StoredManifest::association, (&stored,), association),
        call_ensures(StoredManifest::associated, (stored, outcomes.1), r),
    ensures
        blobs is Ok && done is Ok && outcomes.0 is Ok,
        r is Ok <==> outcomes.1 is Ok,
        row.0@ == digest@,
        held(*row.1) == held(raw),
        association.0@ == repo@,
        association.1@ == digest@,
        parsed.0.layers().len() == blobs->Ok_0.digests@.len(),
        forall|i: int|
            0 <= i < parsed.0.layers().len() ==> #[trigger] parsed.0.layers()[i]
                == blobs->Ok_0.digests@[i]@,
        parsed.1 is Prefetch <==> svc.streams(),
{
}

/// A step that fails ends the download of a manifest with its own error: a layer with the layer's,
/// the others with theirs.
pub proof fn law_failed_manifest_tells_why(
    svc: ProxyService,
    repo: &str,
    e: String,
    pulled: Result<ManifestDownload, Error>,
    manifest: ManifestDownload,
    parsed: Result<(ParsedManifest, LayerWork), Error>,
    layers: ParsedManifest,
    cause: Error,
    done: Result<StorableManifest, Error>,
    storable: StorableManifest,
    stored: Result<StoredManifest, Error>,
    last: StoredManifest,
    associated: Result<(), Error>,
)
    requires
        call_ensures(ProxyService::download_manifest_and_layers, (&svc, repo, Err(e)), pulled),
        call_ensures(ManifestDownload::parsed, (manifest, &svc, Err(e)), parsed),
        call_ensures(ParsedManifest::layers_done, (layers, Err(cause)), done),
        call_ensures(StorableManifest::stored, (storable, Err(e)), stored),
        call_ensures(StoredManifest::associated, (last, Err(e)), associated),
    ensures
        pulled == Err::<ManifestDownload, Error>(
            Error::Proxy(DownloadRemoteImageError::Registry(e)),
        ),
        parsed == Err::<(ParsedManifest, LayerWork), Error>(
            Error::Proxy(DownloadRemoteImageError::Manifest(e)),
        ),
        done == Err::<StorableManifest, Error>(cause),
        stored == Err::<StoredManifest, Error>(Error::Repository(e)),
        associated == Err::<(), Error>(Error::Repository(e)),
{
}

} // verus!
