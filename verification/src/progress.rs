//! What a running download tells those who wait for it.

use vstd::prelude::*;

verus! {

#[derive(Clone, Debug)]
pub struct DownloadProgress {
    /// Bytes readable from the start of the temp file so far.
    pub written: u64,
    /// The size of the blob, once it is known.
    pub expected: Option<u64>,
    /// Set when the download finishes: final size or an error.
    pub terminal: Option<Result<u64, String>>,
}

impl Default for DownloadProgress {
    /// Nothing written, nothing known.
    fn default() -> (p: DownloadProgress)
        ensures
            p.written == 0,
            p.expected is None,
            p.terminal is None,
    {
        DownloadProgress { written: 0, expected: None, terminal: None }
    }
}

impl DownloadProgress {
    /// The progress of a download that is over because the blob lies in the store.
    pub fn stored(size: u64) -> (p: DownloadProgress)
        ensures
            p.written == size,
            p.expected == Some(size),
            p.terminal == Some(Ok::<u64, String>(size)),
    {
        DownloadProgress { written: size, expected: Some(size), terminal: Some(Ok(size)) }
    }

    /// Announces the size of the blob.
    pub fn announce(&mut self, size: u64)
        ensures
            *final(self) == (DownloadProgress { expected: Some(size), ..*old(self) }),
    {
        self.expected = Some(size);
    }

    /// Publishes how much can be read from the start of the file.
    pub fn publish(&mut self, readable: u64)
        ensures
            *final(self) == (DownloadProgress { written: readable, ..*old(self) }),
    {
        self.written = readable;
    }

    /// Records how the download ended.
    pub fn finish(&mut self, outcome: Result<u64, String>)
        ensures
            *final(self) == (DownloadProgress { terminal: Some(outcome), ..*old(self) }),
    {
        self.terminal = Some(outcome);
    }

    /// The size that those who need it up front are told: that of the finished download, or else the
    /// announced one. A download that has failed has none, whatever was announced.
    pub open spec fn size_told(self) -> Option<u64> {
        match self.terminal {
            Some(Ok(size)) => Some(size),
            Some(Err(_)) => None,
            None => self.expected,
        }
    }
}

/// Whoever needs the size up front gets the announced one as soon as it is announced, and the final
/// one once the download has ended well. They get none of a download that has failed, and none
/// before either is known. How much has been written does not matter.
pub proof fn law_size_is_told_when_it_is_known(progress: DownloadProgress)
    ensures
        progress.terminal is None ==> progress.size_told() == progress.expected,
        forall|size: u64|
            progress.terminal == Some(Ok::<u64, String>(size)) ==> progress.size_told() == Some(
                size,
            ),
        (progress.terminal matches Some(Err(_))) ==> progress.size_told() is None,
        forall|written: u64|
            #[trigger] (DownloadProgress { written, ..progress }).size_told()
                == progress.size_told(),
{
}

/// What is announced, published and told in the end are kept apart: each is what was given last,
/// and none changes the others.
pub proof fn law_announcements_are_kept_apart()
    ensures
        forall|p: &mut DownloadProgress, size: u64|
            #[trigger] call_ensures(DownloadProgress::announce, (p, size), ()) ==> final(p).expected
                == Some(size) && final(p).written == p.written && final(p).terminal == p.terminal,
        forall|p: &mut DownloadProgress, n: u64|
            #[trigger] call_ensures(DownloadProgress::publish, (p, n), ()) ==> final(p).written == n
                && final(p).expected == p.expected && final(p).terminal == p.terminal,
        forall|p: &mut DownloadProgress, outcome: Result<u64, String>|
            #[trigger] call_ensures(DownloadProgress::finish, (p, outcome), ()) ==> final(p).terminal == Some(outcome) && final(p).written == p.written && final(p).expected
                == p.expected,
{
}

} // verus!
