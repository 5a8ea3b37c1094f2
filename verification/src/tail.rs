//! A reader that follows a file while a download appends to it.

use vstd::prelude::*;
use crate::chunk::{chunk_from_vec, held};
use crate::progress::DownloadProgress;
use crate::text::joined_text;

verus! {

/// How much a tailing reader hands out per chunk at most.
pub const READ_CHUNK_MAX: u64 = 512 * 1024;

/// A reader and how far it has come.
#[derive(Debug)]
pub struct TailingReader {
    /// The offset of the next byte to be handed out.
    pub pos: u64,
}

/// What a reader does next.
#[derive(Debug)]
pub enum TailStep {
    /// Everything has been handed out.
    Eof,
    /// The stream fails with this text.
    Fail(String),
    /// Nothing new can be read: wait for the next update.
    Wait,
    /// Read up to `len` bytes at `offset`.
    Read { offset: u64, len: usize },
}

/// Which of a blob's files is opened.
#[derive(Clone, Copy, Debug, PartialEq, Eq, Structural)]
pub enum BlobFile {
    /// The file that the download writes.
    Temp,
    /// The file in the blob store.
    Final,
}

/// Up to where the file may be read. Once the download is over the final size counts, whatever
/// was last published; until then what was published does.
pub open spec fn read_limit(progress: DownloadProgress) -> int {
    match progress.terminal {
        Some(Ok(size)) => size as int,
        _ => progress.written as int,
    }
}

/// How many bytes a reader at `pos` is offered: what may be read of the file, up to a full chunk.
pub open spec fn offered(pos: int, progress: DownloadProgress) -> int {
    let left = read_limit(progress) - pos;
    if left <= 0 {
        0
    } else if left < READ_CHUNK_MAX {
        left
    } else {
        READ_CHUNK_MAX as int
    }
}

/// Begins to read at the first byte.
pub fn tailing_reader() -> (reader: TailingReader)
    ensures
        reader.pos == 0,
{
    TailingReader { pos: 0 }
}

/// The file that a reader opens, given the one that it has tried in vain, if any. The file is
/// opened lazily, and the rename of the finished file may win the race.
pub fn open_next(failed: Option<BlobFile>) -> (r: Option<BlobFile>)
    ensures
        r == (match failed {
            None => Some(BlobFile::Temp),
            Some(BlobFile::Temp) => Some(BlobFile::Final),
            Some(BlobFile::Final) => None,
        }),
{
    match failed {
        None => Some(BlobFile::Temp),
        Some(BlobFile::Temp) => Some(BlobFile::Final),
        Some(BlobFile::Final) => None,
    }
}

/// What readers are told when the download goes away without an outcome.
pub fn reader_dropped() -> (t: String)
    ensures
        t@ == "blob download task dropped"@,
{
    "blob download task dropped".to_owned()
}

impl TailingReader {
    /// Decides what to do about the progress that was published last.
    pub fn step(&self, progress: &DownloadProgress) -> (r: TailStep)
        ensures
            match progress.terminal {
                Some(Err(e)) => r matches TailStep::Fail(t) && t@ == "blob download failed: "@ + e@,
                _ => if offered(self.pos as int, *progress) > 0 {
                    r == (TailStep::Read {
                        offset: self.pos,
                        len: offered(self.pos as int, *progress) as usize,
                    })
                } else if progress.terminal is Some {
                    r is Eof
                } else {
                    r is Wait
                },
            },
            r matches TailStep::Read { offset, len } ==> offset + len <= read_limit(*progress) && 0
                < len <= READ_CHUNK_MAX,
    {
        let readable: u64 = match &progress.terminal {
            Some(Ok(size)) => {
                if self.pos >= *size {
                    return TailStep::Eof;
                }
                size.saturating_sub(self.pos)
            },
            Some(Err(e)) => {
                return TailStep::Fail(joined_text("blob download failed: ", e.as_str()));
            },
            None => progress.written.saturating_sub(self.pos),
        };
        if readable == 0 {
            return TailStep::Wait;
        }
        let len: u64 = if readable < READ_CHUNK_MAX {
            readable
        } else {
            READ_CHUNK_MAX
        };
        TailStep::Read { offset: self.pos, len: len as usize }
    }

    /// Takes what a read at the reader's offset has put at the front of `buf`, and hands it out.
    /// A read of nothing means that the file is shorter than advertised: there is nothing to hand
    /// out, and the reader waits for the next update.
    pub fn read(&mut self, buf: Vec<u8>, n: usize) -> (r: Option<bytes::Bytes>)
        requires
            n <= buf@.len(),
            old(self).pos + n <= u64::MAX,
        ensures
            final(self).pos == old(self).pos + n,
            match r {
                Some(data) => n > 0 && held(data) == buf@.take(n as int),
                None => n == 0,
            },
    {
        if n == 0 {
            return None;
        }
        let mut buf = buf;
        let ghost whole = buf@;
        buf.truncate(n);
        assert(buf@ =~= whole.take(n as int));
        self.pos = self.pos + n as u64;
        Some(chunk_from_vec(buf))
    }
}

/// What a reader that starts at `pos` hands out in some rounds. In each round it sees some
/// progress and then reads some bytes, which are those of the file.
pub open spec fn handed_out(
    file: Seq<u8>,
    pos: int,
    rounds: Seq<(DownloadProgress, int)>,
) -> Seq<u8>
    decreases rounds.len(),
{
    if rounds.len() == 0 {
        Seq::empty()
    } else {
        let n = rounds[0].1;
        file.subrange(pos, pos + n) + handed_out(file, pos + n, rounds.drop_first())
    }
}

/// Where such a reader ends up.
pub open spec fn end_of_rounds(pos: int, rounds: Seq<(DownloadProgress, int)>) -> int
    decreases rounds.len(),
{
    if rounds.len() == 0 {
        pos
    } else {
        end_of_rounds(pos + rounds[0].1, rounds.drop_first())
    }
}

/// In no round does the reader get more than it was offered, and no progress promises more of the
/// file than there will be.
pub open spec fn follows(
    file: Seq<u8>,
    pos: int,
    rounds: Seq<(DownloadProgress, int)>,
) -> bool
    decreases rounds.len(),
{
    rounds.len() > 0 ==> {
        let (progress, n) = rounds[0];
        &&& read_limit(progress) <= file.len()
        &&& 0 <= n <= offered(pos, progress)
        &&& follows(file, pos + n, rounds.drop_first())
    }
}

/// Whenever it looks at the progress and however its reads are cut, a reader hands out the file's
/// own bytes, in order, each once.
pub proof fn law_reader_hands_out_the_file(
    file: Seq<u8>,
    pos: int,
    rounds: Seq<(DownloadProgress, int)>,
)
    requires
        0 <= pos <= file.len(),
        follows(file, pos, rounds),
    ensures
        pos <= end_of_rounds(pos, rounds) <= file.len(),
        handed_out(file, pos, rounds) == file.subrange(pos, end_of_rounds(pos, rounds)),
    decreases rounds.len(),
{
    if rounds.len() == 0 {
        assert(handed_out(file, pos, rounds) =~= file.subrange(pos, pos));
    } else {
        let next = pos + rounds[0].1;
        let rest = rounds.drop_first();
        law_reader_hands_out_the_file(file, next, rest);
        let end = end_of_rounds(next, rest);
        assert(file.subrange(pos, next) + file.subrange(next, end) =~= file.subrange(pos, end));
    }
}

/// A reader that comes to the end of the stream has handed out the whole blob: the progress that
/// lets it end gives the size of the blob, and it ends only when it has come that far.
pub proof fn law_eof_means_the_whole_blob(
    blob: Seq<u8>,
    rounds: Seq<(DownloadProgress, int)>,
    last: DownloadProgress,
)
    requires
        follows(blob, 0, rounds),
        last.terminal matches Some(Ok(size)) && size == blob.len(),
        offered(end_of_rounds(0, rounds), last) == 0,
    ensures
        handed_out(blob, 0, rounds) == blob,
{
    law_reader_hands_out_the_file(blob, 0, rounds);
    assert(blob.subrange(0, blob.len() as int) =~= blob);
}

/// A reader is never held back from what has been published of a running download, whether its size
/// is known or not: it is offered all that lies before it, up to half a megabyte at a time. It waits
/// only when it has caught up.
pub proof fn law_reader_is_not_held_back(pos: int, progress: DownloadProgress)
    requires
        0 <= pos,
        progress.terminal is None,
    ensures
        pos < progress.written ==> offered(pos, progress) == (if progress.written - pos < 512 * 1024 {
            progress.written - pos
        } else {
            512int * 1024
        }),
        offered(pos, progress) == 0 <==> pos >= progress.written,
{
}

/// Once the download has ended well, a reader is offered all that lies before it of the final size,
/// up to half a megabyte at a time, whatever was published or announced before. It comes to the end
/// of the stream exactly there.
pub proof fn law_finished_blob_is_offered_to_its_end(pos: int, progress: DownloadProgress, size: u64)
    requires
        0 <= pos,
        progress.terminal == Some(Ok::<u64, String>(size)),
    ensures
        pos < size ==> offered(pos, progress) == (if size - pos < 512 * 1024 {
            size - pos
        } else {
            512int * 1024
        }),
        offered(pos, progress) == 0 <==> pos >= size,
{
}

/// What a reader is offered depends on nothing but what may be read of the file: two looks at the
/// progress of a running download that promise the same offer the same, and one that promises more
/// never offers less.
pub proof fn law_more_is_never_less(pos: int, a: DownloadProgress, b: DownloadProgress)
    requires
        a.terminal is None,
        b.terminal is None,
        a.written <= b.written,
    ensures
        offered(pos, a) <= offered(pos, b),
        a.written == b.written ==> offered(pos, a) == offered(pos, b),
{
}

/// A reader who takes all that it is offered of a finished blob comes to its end: every round but
/// the last brings it half a megabyte on.
pub proof fn law_reader_comes_to_the_end(pos: int, progress: DownloadProgress, size: u64)
    requires
        0 <= pos < size,
        progress.terminal == Some(Ok::<u64, String>(size)),
    ensures
        pos < pos + offered(pos, progress) <= size,
        offered(pos, progress) < 512 * 1024 ==> pos + offered(pos, progress) == size,
{
}

/// A reader of a running download reads on at its own offset as long as anything is published
/// there, up to half a megabyte of it at a time, and waits when nothing is. It neither ends nor
/// fails.
pub proof fn law_running_download_is_read_on(
    reader: TailingReader,
    progress: DownloadProgress,
    r: TailStep,
)
    requires
        call_ensures(TailingReader::step, (&reader, &progress), r),
        progress.terminal is None,
    ensures
        reader.pos >= progress.written ==> r is Wait,
        reader.pos < progress.written ==> (r matches TailStep::Read { offset, len } && offset
            == reader.pos && 0 < len <= 512 * 1024 && offset + len <= progress.written && (len
            == 512 * 1024 || offset + len == progress.written)),
{
}

/// A reader of a download that has ended well reads on at its own offset to the final size, and
/// comes to the end of the stream when it is there and not before. It does not wait.
pub proof fn law_finished_download_is_read_to_its_end(
    reader: TailingReader,
    progress: DownloadProgress,
    size: u64,
    r: TailStep,
)
    requires
        call_ensures(TailingReader::step, (&reader, &progress), r),
        progress.terminal == Some(Ok::<u64, String>(size)),
    ensures
        reader.pos >= size ==> r is Eof,
        reader.pos < size ==> (r matches TailStep::Read { offset, len } && offset == reader.pos && 0
            < len <= 512 * 1024 && offset + len <= size && (len == 512 * 1024 || offset + len
            == size)),
{
}

/// A reader of a download that has failed fails, wherever it is, and tells why.
pub proof fn law_failed_download_fails_its_readers(
    reader: TailingReader,
    progress: DownloadProgress,
    cause: String,
    r: TailStep,
)
    requires
        call_ensures(TailingReader::step, (&reader, &progress), r),
        progress.terminal == Some(Err::<u64, String>(cause)),
    ensures
        r matches TailStep::Fail(t) && t@ == "blob download failed: "@ + cause@,
{
}

/// What a read has brought is handed out, all of it and nothing else, and the reader moves on by
/// just that much.
pub proof fn law_read_bytes_are_handed_out()
    ensures
        forall|reader: &mut TailingReader, buf: Vec<u8>, n: usize, r: Option<bytes::Bytes>|
            #[trigger] call_ensures(TailingReader::read, (reader, buf, n), r) && n <= buf@.len()
                && reader.pos + n <= u64::MAX ==> {
                &&& final(reader).pos == reader.pos + n
                &&& n > 0 ==> (r matches Some(data) && held(data) == buf@.subrange(0, n as int))
                &&& n == 0 ==> r is None
            },
{
    assert forall|reader: &mut TailingReader, buf: Vec<u8>, n: usize, r: Option<bytes::Bytes>|
        #[trigger] call_ensures(TailingReader::read, (reader, buf, n), r) && n <= buf@.len()
            && reader.pos + n <= u64::MAX implies {
        &&& final(reader).pos == reader.pos + n
        &&& n > 0 ==> (r matches Some(data) && held(data) == buf@.subrange(0, n as int))
        &&& n == 0 ==> r is None
    } by {
        assert(buf@.take(n as int) =~= buf@.subrange(0, n as int));
    }
}

/// Both files of a blob are tried, each once, the one that is being written first.
pub proof fn law_both_files_are_tried(a: Option<BlobFile>, b: Option<BlobFile>, c: Option<BlobFile>)
    requires
        call_ensures(open_next, (None,), a),
        call_ensures(open_next, (a,), b),
        call_ensures(open_next, (b,), c),
    ensures
        a == Some(BlobFile::Temp),
        b == Some(BlobFile::Final),
        c is None,
{
}

/// Every reader starts at the first byte.
pub proof fn law_reader_starts_at_the_first_byte(reader: TailingReader)
    requires
        call_ensures(tailing_reader, (), reader),
    ensures
        reader.pos == 0,
{
}

} // verus!
