//! Why a streamed download fails.

use vstd::prelude::*;
use crate::text::joined_text;

verus! {

/// The reasons for which a blob cannot be served from the stream cache.
/// Each carries the text of what went wrong.
#[derive(Debug)]
pub enum StreamCacheError {
    Upstream(String),
    Io(String),
    Download(String),
}

impl StreamCacheError {
    /// The line that users and waiting readers are shown.
    pub open spec fn text(self) -> Seq<char> {
        match self {
            StreamCacheError::Upstream(e) => "Upstream blob request failed: "@ + e@,
            StreamCacheError::Io(e) => "IO error: "@ + e@,
            StreamCacheError::Download(e) => "Download failed: "@ + e@,
        }
    }

    /// Renders the error.
    pub fn message(&self) -> (s: String)
        ensures
            s@ == self.text(),
    {
        match self {
            StreamCacheError::Upstream(e) => joined_text("Upstream blob request failed: ", e.as_str()),
            StreamCacheError::Io(e) => joined_text("IO error: ", e.as_str()),
            StreamCacheError::Download(e) => joined_text("Download failed: ", e.as_str()),
        }
    }
}

/// The line that is shown ends with what went wrong, and begins with what it went wrong with.
pub proof fn law_text_tells_kind_and_cause(cause: String)
    ensures
        StreamCacheError::Upstream(cause).text() == "Upstream blob request failed: "@ + cause@,
        StreamCacheError::Io(cause).text() == "IO error: "@ + cause@,
        StreamCacheError::Download(cause).text() == "Download failed: "@ + cause@,
{
}

} // verus!
