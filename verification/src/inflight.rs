//! The downloads that are in progress, and how requests attach to them.

use vstd::prelude::*;
use vstd::hash_map::StringHashMap;
use crate::download::DownloadRequest;
use crate::error::StreamCacheError;
use crate::progress::DownloadProgress;
use crate::tail::{tailing_reader, TailingReader};

verus! {

/// Registry of in-progress blob downloads, keyed by digest. An entry is whatever lets a reader
/// follow the download.
#[verifier::reject_recursive_types(E)]
pub struct InflightBlobs<E> {
    map: StringHashMap<E>,
}

impl<E> View for InflightBlobs<E> {
    type V = Map<Seq<char>, E>;

    closed spec fn view(&self) -> Map<Seq<char>, E> {
        self.map@
    }
}

/// Where a request for a blob leads.
pub enum Attach<'a, E> {
    /// The download is in progress: follow this entry.
    Running(&'a E),
    /// Nobody is downloading the blob.
    Absent(DownloadRequest),
}

/// What the blob store says about a blob that nobody is downloading.
#[derive(Debug)]
pub enum StoreProbe {
    /// It could not be asked.
    Unknown(String),
    /// It does not have the blob.
    Missing,
    /// It has the blob, and this is the size of its file, unless that could not be read.
    Present(Result<u64, String>),
}

/// What someone who has attached to a download sees of it.
#[derive(Debug)]
pub enum Watched<'a> {
    /// The progress that was published last.
    Progress(&'a DownloadProgress),
    /// The download has gone away, and nothing more will be published.
    Dropped,
}

/// What is done about a download whose outcome is known.
#[derive(Debug)]
pub enum EndAction {
    /// Remove the temp file, which is of no more use.
    RemoveTemp,
    /// Tell those who wait for the download how it ended.
    Announce(Result<u64, String>),
    /// Drop the entry of the download.
    Release(String),
}

/// A download that has ended, and how much has been done about that.
#[derive(Debug)]
pub struct DownloadEnd {
    digest: String,
    outcome: Result<u64, StreamCacheError>,
    done: usize,
}

/// Tells a request whose download has been finalized in the meantime from one that has to start
/// it. In the first case the result is the progress of that finished download. A store that cannot
/// be asked is taken not to have the blob.
pub fn serve_stored(probe: StoreProbe) -> (r: Result<Option<DownloadProgress>, StreamCacheError>)
    ensures
        match probe {
            StoreProbe::Present(Ok(size)) => {
                &&& r matches Ok(Some(p))
                &&& p.written == size
                &&& p.expected == Some(size)
                &&& p.terminal == Some(Ok::<u64, String>(size))
            },
            StoreProbe::Present(Err(e)) => r == Err::<Option<DownloadProgress>, StreamCacheError>(
                StreamCacheError::Io(e),
            ),
            _ => r == Ok::<Option<DownloadProgress>, StreamCacheError>(None),
        },
{
    match probe {
        StoreProbe::Present(Ok(size)) => Ok(Some(DownloadProgress::stored(size))),
        StoreProbe::Present(Err(e)) => Err(StreamCacheError::Io(e)),
        StoreProbe::Missing => Ok(None),
        StoreProbe::Unknown(_) => Ok(None),
    }
}

/// An outcome, with the text of its error as a sequence of characters.
pub open spec fn outcome_text(outcome: Result<u64, StreamCacheError>) -> Result<u64, Seq<char>> {
    match outcome {
        Ok(size) => Ok(size),
        Err(e) => Err(e.text()),
    }
}

/// An action at the end of a download, with its strings as sequences of characters.
pub enum EndMove {
    RemoveTemp,
    Announce(Result<u64, Seq<char>>),
    Release(Seq<char>),
}

impl EndAction {
    /// The move that the action makes.
    pub open spec fn moves(self) -> EndMove {
        match self {
            EndAction::RemoveTemp => EndMove::RemoveTemp,
            EndAction::Announce(Ok(size)) => EndMove::Announce(Ok(size)),
            EndAction::Announce(Err(t)) => EndMove::Announce(Err(t@)),
            EndAction::Release(digest) => EndMove::Release(digest@),
        }
    }
}

/// All that is done about a download that has ended, in order: the temp file of one that has failed
/// goes first, then those who wait are told, and then the entry is dropped.
pub open spec fn end_moves(digest: Seq<char>, outcome: Result<u64, Seq<char>>) -> Seq<EndMove> {
    let told = seq![EndMove::Announce(outcome), EndMove::Release(digest)];
    if outcome is Ok {
        told
    } else {
        seq![EndMove::RemoveTemp] + told
    }
}

/// Turns to what is done about a download that has ended.
pub fn conclude(digest: &str, outcome: Result<u64, StreamCacheError>) -> (end: DownloadEnd)
    ensures
        end.moves() == end_moves(digest@, outcome_text(outcome)),
        end.position() == 0,
{
    DownloadEnd { digest: digest.to_owned(), outcome, done: 0 }
}

impl DownloadEnd {
    /// All that is done.
    pub closed spec fn moves(self) -> Seq<EndMove> {
        end_moves(self.digest@, outcome_text(self.outcome))
    }

    /// How much of it has been handed out.
    pub closed spec fn position(self) -> int {
        self.done as int
    }

    /// The next thing to do, if anything is left.
    pub fn next(&mut self) -> (r: Option<EndAction>)
        ensures
            final(self).moves() == old(self).moves(),
            match r {
                Some(action) => {
                    &&& 0 <= old(self).position() < old(self).moves().len()
                    &&& action.moves() == old(self).moves()[old(self).position()]
                    &&& final(self).position() == old(self).position() + 1
                },
                None => {
                    &&& old(self).position() >= old(self).moves().len()
                    &&& final(self).position() == old(self).position()
                },
            },
    {
        let done: usize = self.done;
        let late: usize = match &self.outcome {
            Ok(_) => 0,
            Err(_) => 1,
        };
        if done > late + 1 {
            return None;
        }
        self.done = done + 1;
        if done < late {
            Some(EndAction::RemoveTemp)
        } else if done == late {
            let told: Result<u64, String> = match &self.outcome {
                Ok(size) => Ok(*size),
                Err(e) => Err(e.message()),
            };
            Some(EndAction::Announce(told))
        } else {
            Some(EndAction::Release(self.digest.clone()))
        }
    }
}

impl<E> InflightBlobs<E> {
    /// A registry without downloads.
    pub fn new() -> (r: InflightBlobs<E>)
        ensures
            r@ == Map::<Seq<char>, E>::empty(),
    {
        InflightBlobs { map: StringHashMap::new() }
    }

    /// Finds the download of a blob.
    pub fn entry_for(&self, digest: &str, repo: &str, size: Option<u64>) -> (r: Attach<'_, E>)
        ensures
            match r {
                Attach::Running(entry) => self@.contains_key(digest@) && *entry == self@[digest@],
                Attach::Absent(request) => !self@.contains_key(digest@) && request.asks(
                    digest@,
                    repo@,
                    size,
                ),
            },
            r is Running ==> forall|entry: E|
                #![trigger after_event(self@, RegistryEvent::Asked(digest@, entry))]
                after_event(self@, RegistryEvent::Asked(digest@, entry)) == self@,
    {
        match self.map.get(digest) {
            Some(entry) => Attach::Running(entry),
            None => Attach::Absent(
                DownloadRequest { digest: digest.to_owned(), repo: repo.to_owned(), size },
            ),
        }
    }

    /// Serves someone who wants to read a blob from what is seen of the download that they have
    /// attached to: the size of the blob, which is needed up front, and a reader at its first byte.
    /// `None` if the size is not known yet, so that the next update has to be waited for.
    pub fn fetch_or_attach(seen: Watched<'_>) -> (r: Result<
        Option<(u64, TailingReader)>,
        StreamCacheError,
    >)
        ensures
            match seen {
                Watched::Progress(progress) => match progress.terminal {
                    Some(Err(e)) => r matches Err(StreamCacheError::Download(t)) && t@ == e@,
                    _ => match progress.size_told() {
                        Some(size) => r matches Ok(Some(served)) && served.0 == size
                            && served.1.pos == 0,
                        None => r matches Ok(None),
                    },
                },
                Watched::Dropped => r matches Err(StreamCacheError::Download(t)) && t@
                    == "download task dropped"@,
            },
    {
        let progress = match seen {
            Watched::Progress(progress) => progress,
            Watched::Dropped => {
                return Err(StreamCacheError::Download("download task dropped".to_owned()));
            },
        };
        match &progress.terminal {
            Some(Ok(size)) => Ok(Some((*size, tailing_reader()))),
            Some(Err(e)) => Err(StreamCacheError::Download(e.clone())),
            None => match progress.expected {
                Some(size) => Ok(Some((size, tailing_reader()))),
                None => Ok(None),
            },
        }
    }

    /// Asks for the download of a blob to be started without reading it (cache warming). `None` if
    /// it is in progress already.
    pub fn prefetch(&self, digest: &str, repo: &str, size: Option<u64>) -> (r: Option<
        DownloadRequest,
    >)
        ensures
            match r {
                Some(request) => !self@.contains_key(digest@) && request.asks(
                    digest@,
                    repo@,
                    size,
                ),
                None => self@.contains_key(digest@),
            },
    {
        match self.entry_for(digest, repo, size) {
            Attach::Running(_) => None,
            Attach::Absent(request) => Some(request),
        }
    }

    /// Registers a download that begins. Its temp file has been created before, so that a reader
    /// can always open it; if that failed nothing is registered.
    pub fn register(
        &mut self,
        request: &DownloadRequest,
        entry: E,
        created: Result<(), String>,
    ) -> (r: Result<(), StreamCacheError>)
        ensures
            match created {
                Ok(_) => r is Ok && final(self)@ == old(self)@.insert(request.digest@, entry),
                Err(e) => r == Err::<(), StreamCacheError>(StreamCacheError::Io(e)) && final(self)@
                    == old(self)@,
            },
            created is Ok && !old(self)@.contains_key(request.digest@) ==> final(self)@
                == after_event(old(self)@, RegistryEvent::Asked(request.digest@, entry)),
    {
        match created {
            Ok(()) => {
                self.map.insert(request.digest.clone(), entry);
                Ok(())
            },
            Err(e) => Err(StreamCacheError::Io(e)),
        }
    }

    /// Drops the entry of a download that is over.
    pub fn release(&mut self, digest: &str)
        ensures
            final(self)@ == old(self)@.remove(digest@),
            final(self)@ == after_event(old(self)@, RegistryEvent::<E>::Over(digest@)),
    {
        self.map.remove(digest);
    }
}

/// Something that happens to the registry.
pub enum RegistryEvent<E> {
    /// Someone asks for a blob, and offers this entry in case the download has to be started.
    Asked(Seq<char>, E),
    /// The download of a blob is over.
    Over(Seq<char>),
}

/// The registry after an event. A request attaches to the download that it finds, and starts one
/// only if it finds none.
pub open spec fn after_event<E>(map: Map<Seq<char>, E>, event: RegistryEvent<E>) -> Map<
    Seq<char>,
    E,
> {
    match event {
        RegistryEvent::Asked(digest, entry) => if map.contains_key(digest) {
            map
        } else {
            map.insert(digest, entry)
        },
        RegistryEvent::Over(digest) => map.remove(digest),
    }
}

/// The registry after some events.
pub open spec fn after_events<E>(map: Map<Seq<char>, E>, events: Seq<RegistryEvent<E>>) -> Map<
    Seq<char>,
    E,
>
    decreases events.len(),
{
    if events.len() == 0 {
        map
    } else {
        after_events(after_event(map, events[0]), events.drop_first())
    }
}

/// Concurrent requests for the same digest share one download: as long as it is not over, whoever
/// asks finds the entry that was registered first, whatever else is asked for or comes to an end.
pub proof fn law_requests_share_one_download<E>(
    map: Map<Seq<char>, E>,
    digest: Seq<char>,
    events: Seq<RegistryEvent<E>>,
)
    requires
        map.contains_key(digest),
        forall|i: int|
            0 <= i < events.len() ==> !(#[trigger] events[i] matches RegistryEvent::Over(d) && d
                == digest),
    ensures
        after_events(map, events).contains_key(digest),
        after_events(map, events)[digest] == map[digest],
    decreases events.len(),
{
    if events.len() > 0 {
        let next = after_event(map, events[0]);
        let rest = events.drop_first();
        assert forall|i: int| 0 <= i < rest.len() implies !(
        #[trigger] rest[i] matches RegistryEvent::Over(d) && d == digest) by {
            assert(rest[i] == events[i + 1]);
        }
        assert(next.contains_key(digest) && next[digest] == map[digest]);
        law_requests_share_one_download(next, digest, rest);
    }
}

/// A download as those outside of it see it.
pub struct Outside<E> {
    /// Its temp file is there.
    pub temp: bool,
    /// What those who wait for it have been told.
    pub progress: DownloadProgress,
    /// The downloads that are in progress.
    pub map: Map<Seq<char>, E>,
}

/// Those who wait have been told this outcome.
pub open spec fn told(progress: DownloadProgress, outcome: Result<u64, Seq<char>>) -> bool {
    match (progress.terminal, outcome) {
        (Some(Ok(a)), Ok(b)) => a == b,
        (Some(Err(t)), Err(e)) => t@ == e,
        _ => false,
    }
}

/// What a move at the end of a download changes: the temp file, the outcome that is told, or the
/// entry.
pub open spec fn end_leads_to<E>(before: Outside<E>, m: EndMove, after: Outside<E>) -> bool {
    match m {
        EndMove::RemoveTemp => after == (Outside { temp: false, ..before }),
        EndMove::Announce(outcome) => {
            &&& told(after.progress, outcome)
            &&& after == (Outside {
                progress: DownloadProgress {
                    terminal: after.progress.terminal,
                    ..before.progress
                },
                ..before
            })
        },
        EndMove::Release(digest) => after == (Outside { map: before.map.remove(digest), ..before }),
    }
}

/// Move `k` leads from moment `k` to the next.
pub open spec fn ends_on<E>(moments: Seq<Outside<E>>, moves: Seq<EndMove>, k: int) -> bool {
    end_leads_to(moments[k], moves[k], moments[k + 1])
}

/// A download that has ended tells so exactly once: the outcome goes from unknown to known in one
/// of the moves and stays as it is. By then the temp file of a download that has failed is gone, and
/// the entry is still there. In the end the entry is gone, whatever the outcome, so that whoever
/// asks next starts anew; the other downloads are not touched.
pub proof fn law_outcome_is_told_once<E>(
    digest: Seq<char>,
    outcome: Result<u64, StreamCacheError>,
    moments: Seq<Outside<E>>,
)
    requires
        moments.len() == end_moves(digest, outcome_text(outcome)).len() + 1,
        forall|k: int|
            0 <= k < end_moves(digest, outcome_text(outcome)).len() ==> #[trigger] ends_on(
                moments,
                end_moves(digest, outcome_text(outcome)),
                k,
            ),
        moments[0].progress.terminal is None,
        moments[0].temp,
        moments[0].map.contains_key(digest),
    ensures
        ({
            let when = moments.len() - 2;
            &&& forall|k: int| 0 <= k < when ==> (#[trigger] moments[k]).progress.terminal is None
            &&& moments[when].map == moments[0].map
            &&& moments[when].temp == (outcome is Ok)
            &&& match outcome {
                Ok(size) => moments[when].progress.terminal == Some(Ok::<u64, String>(size)),
                Err(e) => moments[when].progress.terminal matches Some(Err(t)) && t@ == e.text(),
            }
            &&& moments[when].progress.written == moments[0].progress.written
            &&& moments[when].progress.expected == moments[0].progress.expected
            &&& moments.last().progress == moments[when].progress
            &&& moments.last().map == moments[0].map.remove(digest)
        }),
{
    let moves = end_moves(digest, outcome_text(outcome));
    assert(ends_on(moments, moves, 0));
    assert(ends_on(moments, moves, 1));
    if outcome is Err {
        assert(ends_on(moments, moves, 2));
    }
}

/// Whoever asks for a blob that nobody is downloading finds their own entry from then on, until the
/// download is over; after that nobody's is found. Other downloads are not touched by either.
pub proof fn law_download_is_found_until_it_is_over<E>(
    map: Map<Seq<char>, E>,
    digest: Seq<char>,
    entry: E,
    other: Seq<char>,
)
    requires
        other != digest,
    ensures
        ({
            let asked = after_event(map, RegistryEvent::Asked(digest, entry));
            let over = after_event(asked, RegistryEvent::<E>::Over(digest));
            &&& asked.contains_key(digest)
            &&& !map.contains_key(digest) ==> asked[digest] == entry
            &&& map.contains_key(digest) ==> asked == map
            &&& !over.contains_key(digest)
            &&& asked.contains_key(other) == map.contains_key(other)
            &&& over.contains_key(other) == map.contains_key(other)
            &&& map.contains_key(other) ==> asked[other] == map[other] && over[other] == map[other]
        }),
{
}

/// A move is the action that makes it: the temp file is removed by the one, the outcome told by the
/// other, and the entry that is dropped is the one that was named.
pub proof fn law_moves_are_those_of_the_actions(action: EndAction)
    ensures
        action.moves() is RemoveTemp <==> action is RemoveTemp,
        forall|size: u64|
            action.moves() == EndMove::Announce(Ok(size)) <==> action == EndAction::Announce(
                Ok(size),
            ),
        forall|text: Seq<char>|
            action.moves() == EndMove::Announce(Err(text)) <==> (
            action matches EndAction::Announce(Err(t)) && t@ == text),
        forall|digest: Seq<char>|
            action.moves() == EndMove::Release(digest) <==> (action matches EndAction::Release(d)
                && d@ == digest),
{
}

/// A blob that the store has is not downloaded: it is served as a finished download of the size of
/// its file. One that the store does not have, or that it cannot be asked for, is.
pub proof fn law_stored_blob_is_not_downloaded(
    probe: StoreProbe,
    r: Result<Option<DownloadProgress>, StreamCacheError>,
)
    requires
        call_ensures(serve_stored, (probe,), r),
    ensures
        probe matches StoreProbe::Present(Ok(size)) ==> (r matches Ok(Some(p)) && p.terminal
            == Some(Ok::<u64, String>(size)) && p.size_told() == Some(size)),
        probe matches StoreProbe::Present(Err(e)) ==> r
            == Err::<Option<DownloadProgress>, StreamCacheError>(StreamCacheError::Io(e)),
        probe is Missing || probe is Unknown ==> r matches Ok(None),
{
}

/// Someone who wants to read a blob is served as soon as its size is told, with that size and from
/// the first byte on, even while the download goes on. They wait as long as it is not, and fail with
/// the download, or when it has gone away.
pub proof fn law_blob_is_served_when_its_size_is_told<E>(
    progress: DownloadProgress,
    r: Result<Option<(u64, TailingReader)>, StreamCacheError>,
    gone: Result<Option<(u64, TailingReader)>, StreamCacheError>,
)
    requires
        call_ensures(InflightBlobs::<E>::fetch_or_attach, (Watched::Progress(&progress),), r),
        call_ensures(InflightBlobs::<E>::fetch_or_attach, (Watched::Dropped,), gone),
    ensures
        progress.terminal matches Some(Ok(size)) ==> (r matches Ok(Some(served)) && served.0 == size
            && served.1.pos == 0),
        progress.terminal matches Some(Err(e)) ==> (r matches Err(StreamCacheError::Download(t))
            && t@ == e@),
        progress.terminal is None ==> (match progress.expected {
            Some(size) => r matches Ok(Some(served)) && served.0 == size && served.1.pos == 0,
            None => r matches Ok(None),
        }),
        gone matches Err(StreamCacheError::Download(t)) && t@ == "download task dropped"@,
{
}

/// A download that is in progress is attached to, by readers and by those who warm the cache alike;
/// one that is not is asked for with what is known of it.
pub proof fn law_download_is_started_once<E>(
    blobs: InflightBlobs<E>,
    digest: &str,
    repo: &str,
    size: Option<u64>,
    attached: Attach<'_, E>,
    prefetched: Option<DownloadRequest>,
)
    requires
        call_ensures(InflightBlobs::<E>::entry_for, (&blobs, digest, repo, size), attached),
        call_ensures(InflightBlobs::<E>::prefetch, (&blobs, digest, repo, size), prefetched),
    ensures
        blobs@.contains_key(digest@) ==> prefetched is None && (attached matches Attach::Running(e)
            && *e == blobs@[digest@]),
        !blobs@.contains_key(digest@) ==> (prefetched matches Some(p) && p.digest@ == digest@
            && p.repo@ == repo@ && p.size == size),
        !blobs@.contains_key(digest@) ==> (attached matches Attach::Absent(a) && a.digest@
            == digest@ && a.repo@ == repo@ && a.size == size),
{
}

/// A download is registered under its digest once its temp file is there, and is not registered if
/// it is not. Releasing it takes it out again, and neither touches another.
pub proof fn law_registration_is_undone_by_release<E>()
    ensures
        forall|
            blobs: &mut InflightBlobs<E>,
            request: &DownloadRequest,
            entry: E,
            created: Result<(), String>,
            r: Result<(), StreamCacheError>,
        |
            #[trigger] call_ensures(
                InflightBlobs::<E>::register,
                (blobs, request, entry, created),
                r,
            ) ==> (match created {
                Ok(_) => r is Ok && final(blobs)@ == blobs@.insert(request.digest@, entry),
                Err(e) => r == Err::<(), StreamCacheError>(StreamCacheError::Io(e)) && final(blobs)@ == blobs@,
            }),
        forall|blobs: &mut InflightBlobs<E>, digest: &str|
            #[trigger] call_ensures(InflightBlobs::<E>::release, (blobs, digest), ()) ==> final(blobs)@ == blobs@.remove(digest@),
{
}

/// What is done about a download that has ended follows from its digest and its outcome, from the
/// first thing on.
pub proof fn law_end_follows_from_the_outcome(
    digest: &str,
    outcome: Result<u64, StreamCacheError>,
    end: DownloadEnd,
)
    requires
        call_ensures(conclude, (digest, outcome), end),
    ensures
        end.position() == 0,
        end.moves().last() == EndMove::Release(digest@),
        outcome matches Ok(size) ==> end.moves().len() == 2 && end.moves()[0]
            == EndMove::Announce(Ok(size)),
        outcome matches Err(e) ==> end.moves().len() == 3 && end.moves()[0] == EndMove::RemoveTemp
            && end.moves()[1] == EndMove::Announce(Err(e.text())),
{
}

} // verus!
