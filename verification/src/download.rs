//! The download of one blob, from the first response to the row in the store.

use vstd::prelude::*;
use vstd::string::*;
use crate::digest::{
    blob_digest, check_digest, digest_accepted, mismatch_text, Sha256File, MAX_HASHED,
};
use crate::error::StreamCacheError;
use crate::progress::DownloadProgress;
use crate::segment::{plan_download, planned_for, tiles, OPEN_END};
use crate::state::DownloadState;
use crate::text::{decimal, decimal_text};

verus! {

/// A blob that is to be downloaded.
#[derive(Debug)]
pub struct DownloadRequest {
    pub digest: String,
    /// The local repository that the blob is associated with.
    pub repo: String,
    /// The size that the layer descriptor gives, where the manifest was at hand.
    pub size: Option<u64>,
}

impl DownloadRequest {
    /// This is a request for that blob, on behalf of that repository, with that size.
    pub open spec fn asks(self, digest: Seq<char>, repo: Seq<char>, size: Option<u64>) -> bool {
        &&& self.digest@ == digest
        &&& self.repo@ == repo
        &&& self.size == size
    }
}

/// A download whose first response has arrived.
#[derive(Debug)]
pub struct OpenDownload {
    pub request: DownloadRequest,
    /// The size of the blob, if it is known.
    pub total: Option<u64>,
}

/// A download all of whose segments have ended.
#[derive(Debug)]
pub struct FetchedBlob {
    pub request: DownloadRequest,
    /// Bytes in the file.
    pub written: u64,
}

/// A download whose file has the right size and the right digest.
#[derive(Debug)]
pub struct VerifiedBlob {
    pub request: DownloadRequest,
    pub written: u64,
    /// The digest of the file.
    pub computed: String,
}

/// A download whose file lies in the blob store.
#[derive(Debug)]
pub struct PromotedBlob {
    pub request: DownloadRequest,
    pub written: u64,
}

/// A download whose blob has its row in the database.
#[derive(Debug)]
pub struct RecordedBlob {
    pub request: DownloadRequest,
    pub written: u64,
}

/// The size of a blob: what the response says, or else what the descriptor says.
pub open spec fn known_size(content_length: Option<u64>, descriptor: Option<u64>) -> Option<u64> {
    match content_length {
        Some(len) => Some(len),
        None => descriptor,
    }
}

/// The text of a download that ended short.
pub open spec fn short_text(expected: nat, got: nat) -> Seq<char> {
    "short download: expected "@ + decimal(expected) + " bytes, got "@ + decimal(got)
}

/// Begins a download with the answer to the request for the whole blob, which carries its size if
/// the upstream gave one.
///
/// That request is also how the size is learned: a ranged response carries only its own length.
/// The first segment reads this response rather than opening a second connection for bytes it is
/// already being sent.
pub fn run_download(request: DownloadRequest, seed: Result<Option<u64>, String>) -> (r: Result<
    OpenDownload,
    StreamCacheError,
>)
    ensures
        match seed {
            Ok(content_length) => r == Ok::<OpenDownload, StreamCacheError>(
                OpenDownload { request, total: known_size(content_length, request.size) },
            ),
            Err(e) => r matches Err(StreamCacheError::Upstream(t)) && t@ == e@,
        },
{
    match seed {
        Ok(Some(len)) => Ok(OpenDownload { request, total: Some(len) }),
        Ok(None) => {
            let total: Option<u64> = request.size;
            Ok(OpenDownload { request, total })
        },
        Err(e) => Err(StreamCacheError::Upstream(e)),
    }
}

impl OpenDownload {
    /// Tells those who wait for the download how large the blob is, if that is known.
    pub fn announce(&self, progress: &mut DownloadProgress)
        ensures
            *final(progress) == (match self.total {
                Some(size) => DownloadProgress { expected: Some(size), ..*old(progress) },
                None => *old(progress),
            }),
    {
        match self.total {
            Some(size) => progress.announce(size),
            None => {},
        }
    }

    /// Where the blob ends as far as its plan is concerned.
    pub open spec fn extent(self) -> int {
        match self.total {
            Some(size) => size as int,
            None => OPEN_END as int,
        }
    }

    /// Plans the segments, none of which has been written yet.
    pub fn plan(&self, ranges: bool) -> (state: DownloadState)
        requires
            self.total matches Some(t) ==> (ranges ==> t <= u64::MAX - 7),
        ensures
            state.plan@ == planned_for(self.total, ranges),
            state.written@ == Seq::new(state.plan@.len(), |i: int| 0u64),
            state.wf(),
            tiles(state.plan@, self.extent()),
    {
        DownloadState::new(plan_download(self.total, ranges))
    }

    /// Whether segment `idx` is given the response that is already open: only the first segment
    /// starts at byte 0.
    pub fn seeds(&self, idx: usize) -> (r: bool)
        ensures
            r == (idx == 0),
    {
        idx == 0
    }

    /// With so much readable, the blob is whole: a size that is known has been reached exactly.
    pub open spec fn whole(self, readable: int) -> bool {
        self.total matches Some(t) ==> readable == t
    }

    /// Closes the transfer when every segment has ended, or the first of them has failed. A blob
    /// that cannot be completed goes no further.
    pub fn fetched(self, segments: Result<(), StreamCacheError>, state: &DownloadState) -> (r:
        Result<FetchedBlob, StreamCacheError>)
        requires
            state.countable(),
        ensures
            r is Ok <==> segments is Ok && self.whole(state.readable()),
            match r {
                Ok(blob) => blob == (FetchedBlob {
                    request: self.request,
                    written: state.readable() as u64,
                }),
                Err(e) => match segments {
                    Err(cause) => e == cause,
                    Ok(_) => e matches StreamCacheError::Download(t) && t@ == short_text(
                        self.total->0 as nat,
                        state.readable() as nat,
                    ),
                },
            },
    {
        match segments {
            Ok(()) => {},
            Err(e) => {
                return Err(e);
            },
        }
        let written: u64 = state.contiguous();
        match self.total {
            Some(size) => {
                if written != size {
                    let mut t = "short download: expected ".to_owned();
                    t.append(decimal_text(size).as_str());
                    t.append(" bytes, got ");
                    t.append(decimal_text(written).as_str());
                    return Err(StreamCacheError::Download(t));
                }
            },
            None => {},
        }
        Ok(FetchedBlob { request: self.request, written })
    }
}

impl FetchedBlob {
    /// Checks the finished file against the digest that the blob was asked for by.
    pub fn verify(self, file: Sha256File) -> (r: Result<VerifiedBlob, StreamCacheError>)
        requires
            file.content().len() <= MAX_HASHED,
        ensures
            r is Ok <==> digest_accepted(self.request.digest@, blob_digest(file.content())),
            match r {
                Ok(blob) => {
                    &&& blob.request == self.request
                    &&& blob.written == self.written
                    &&& blob.computed@ == blob_digest(file.content())
                },
                Err(e) => e matches StreamCacheError::Download(t) && t@ == mismatch_text(
                    self.request.digest@,
                    blob_digest(file.content()),
                ),
            },
    {
        let computed = file.finish();
        match check_digest(self.request.digest.as_str(), computed.as_str()) {
            Ok(()) => Ok(VerifiedBlob { request: self.request, written: self.written, computed }),
            Err(e) => Err(e),
        }
    }
}

impl VerifiedBlob {
    /// Takes the outcome of moving the file into the blob store.
    pub fn promoted(self, outcome: Result<(), String>) -> (r: Result<PromotedBlob, StreamCacheError>)
        ensures
            match outcome {
                Ok(_) => r == Ok::<PromotedBlob, StreamCacheError>(
                    PromotedBlob { request: self.request, written: self.written },
                ),
                Err(e) => r == Err::<PromotedBlob, StreamCacheError>(StreamCacheError::Download(e)),
            },
    {
        match outcome {
            Ok(()) => Ok(PromotedBlob { request: self.request, written: self.written }),
            Err(e) => Err(StreamCacheError::Download(e)),
        }
    }
}

impl PromotedBlob {
    /// The size that the blob's row holds.
    pub fn row_size(&self) -> (size: i64)
        ensures
            size == self.written as i64,
            self.written <= i64::MAX ==> size == self.written,
    {
        self.written as i64
    }

    /// Takes the outcome of inserting the blob's row.
    pub fn recorded(self, outcome: Result<(), String>) -> (r: Result<RecordedBlob, StreamCacheError>)
        ensures
            match outcome {
                Ok(_) => r == Ok::<RecordedBlob, StreamCacheError>(
                    RecordedBlob { request: self.request, written: self.written },
                ),
                Err(e) => r == Err::<RecordedBlob, StreamCacheError>(StreamCacheError::Download(e)),
            },
    {
        match outcome {
            Ok(()) => Ok(RecordedBlob { request: self.request, written: self.written }),
            Err(e) => Err(StreamCacheError::Download(e)),
        }
    }
}

impl RecordedBlob {
    /// Takes the outcome of associating the blob with the repository. The download is then over,
    /// and its result is the size of the blob.
    pub fn associated(self, outcome: Result<(), String>) -> (r: Result<u64, StreamCacheError>)
        ensures
            match outcome {
                Ok(_) => r == Ok::<u64, StreamCacheError>(self.written),
                Err(e) => r == Err::<u64, StreamCacheError>(StreamCacheError::Download(e)),
            },
    {
        match outcome {
            Ok(()) => Ok(self.written),
            Err(e) => Err(StreamCacheError::Download(e)),
        }
    }
}

/// The length that the response gives is the size of the blob, whatever the descriptor says. If it
/// gives none the descriptor does, and if neither does the size is not known.
pub proof fn law_size_comes_from_the_response_first(len: u64, descriptor: Option<u64>)
    ensures
        known_size(Some(len), descriptor) == Some(len),
        known_size(None, descriptor) == descriptor,
{
}

/// A request is for a blob, a repository and a size exactly when it holds these three and no other.
pub proof fn law_request_holds_what_was_asked(
    request: DownloadRequest,
    digest: Seq<char>,
    repo: Seq<char>,
    size: Option<u64>,
)
    ensures
        request.asks(digest, repo, size) <==> request.digest@ == digest && request.repo@ == repo
            && request.size == size,
{
}

/// A blob is whole when exactly as many bytes are readable as it has, if that is known: one that is
/// too short is not, nor is one that is too long. If it is not known any number will do.
pub proof fn law_blob_is_whole_at_its_size(download: OpenDownload, readable: int)
    ensures
        download.total is None ==> download.whole(readable),
        forall|size: u64|
            download.total == Some(size) ==> (download.whole(readable) <==> readable == size),
        download.extent() == (match download.total {
            Some(size) => size as int,
            None => u64::MAX as int,
        }),
{
}

/// The text of a short download tells both sizes, the one that was expected first.
pub proof fn law_short_text_tells_both(expected: nat, got: nat)
    ensures
        ("short download: expected "@ + decimal(expected) + " bytes, got "@).is_prefix_of(
            short_text(expected, got),
        ),
        short_text(expected, got).len() == ("short download: expected "@ + decimal(expected)
            + " bytes, got "@).len() + decimal(got).len(),
        forall|i: int|
            0 <= i < decimal(got).len() ==> #[trigger] decimal(got)[i] == short_text(
                expected,
                got,
            )[short_text(expected, got).len() - decimal(got).len() + i],
{
}

/// The response that is already open begins at byte 0, and so does the segment that is given it:
/// exactly one segment is, the first.
pub proof fn law_open_stream_goes_to_the_first_segment(download: OpenDownload, idx: usize, r: bool)
    requires
        call_ensures(OpenDownload::seeds, (&download, idx), r),
    ensures
        r <==> idx == 0,
{
}

/// The size of a blob is known from its response, or else from its descriptor, and an upstream that
/// refuses is told of.
pub proof fn law_download_begins_with_the_response(
    request: DownloadRequest,
    seed: Result<Option<u64>, String>,
    r: Result<OpenDownload, StreamCacheError>,
)
    requires
        call_ensures(run_download, (request, seed), r),
    ensures
        seed matches Ok(Some(len)) ==> (r matches Ok(open) && open.total == Some(len)
            && open.request == request),
        seed matches Ok(None) ==> (r matches Ok(open) && open.total == request.size && open.request
            == request),
        seed matches Err(e) ==> (r matches Err(StreamCacheError::Upstream(t)) && t@ == e@),
{
}

/// A download ends well only with a file that is whole and has the right digest, which has been
/// moved into the store, recorded and associated, all for the blob that was asked for. Its result is
/// what was readable, which is the size that was announced, if any was.
pub proof fn law_download_ends_with_a_verified_file(
    open: OpenDownload,
    state: DownloadState,
    segments: Result<(), StreamCacheError>,
    file: Sha256File,
    outcomes: (Result<(), String>, Result<(), String>, Result<(), String>),
    fetched: FetchedBlob,
    verified: VerifiedBlob,
    promoted: PromotedBlob,
    row_size: i64,
    recorded: RecordedBlob,
    size: u64,
)
    requires
        state.countable(),
        file.content().len() <= MAX_HASHED,
        call_ensures(OpenDownload::fetched, (open, segments, &state), Ok(fetched)),
        call_ensures(FetchedBlob::verify, (fetched, file), Ok(verified)),
        call_ensures(VerifiedBlob::promoted, (verified, outcomes.0), Ok(promoted)),
        call_ensures(PromotedBlob::row_size, (&promoted,), row_size),
        call_ensures(PromotedBlob::recorded, (promoted, outcomes.1), Ok(recorded)),
        call_ensures(RecordedBlob::associated, (recorded, outcomes.2), Ok(size)),
        0 <= state.readable() <= u64::MAX,
    ensures
        segments is Ok,
        outcomes.0 is Ok && outcomes.1 is Ok && outcomes.2 is Ok,
        size == state.readable(),
        open.total matches Some(t) ==> t == size,
        "sha256:"@.is_prefix_of(open.request.digest@) ==> open.request.digest@ == blob_digest(
            file.content(),
        ),
        promoted.request == open.request && recorded.request == open.request,
        size <= i64::MAX ==> row_size == size,
{
}

/// A step that fails fails the download, and tells why: a segment with its own error, the others
/// with theirs.
pub proof fn law_failed_step_fails_the_download(
    open: OpenDownload,
    state: DownloadState,
    cause: StreamCacheError,
    fetched: Result<FetchedBlob, StreamCacheError>,
    verified: VerifiedBlob,
    promoted: PromotedBlob,
    recorded: RecordedBlob,
    text: String,
    results: (
        Result<PromotedBlob, StreamCacheError>,
        Result<RecordedBlob, StreamCacheError>,
        Result<u64, StreamCacheError>,
    ),
)
    requires
        state.countable(),
        call_ensures(OpenDownload::fetched, (open, Err(cause), &state), fetched),
        call_ensures(VerifiedBlob::promoted, (verified, Err(text)), results.0),
        call_ensures(PromotedBlob::recorded, (promoted, Err(text)), results.1),
        call_ensures(RecordedBlob::associated, (recorded, Err(text)), results.2),
    ensures
        fetched == Err::<FetchedBlob, StreamCacheError>(cause),
        results.0 == Err::<PromotedBlob, StreamCacheError>(StreamCacheError::Download(text)),
        results.1 == Err::<RecordedBlob, StreamCacheError>(StreamCacheError::Download(text)),
        results.2 == Err::<u64, StreamCacheError>(StreamCacheError::Download(text)),
{
}

} // verus!
