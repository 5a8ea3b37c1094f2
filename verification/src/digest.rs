//! The digest of a finished file.
//!
//! It is taken over the file and not inline over the stream: neither a resumed nor an
//! out-of-order segment can feed a sequential hasher.

use vstd::prelude::*;
use vstd::slice::slice_subrange;
use vstd::string::*;
use sha2::Digest;
use crate::error::StreamCacheError;
use crate::text::{has_prefix, joined_text, same_text};

verus! {

/// The most bytes that are hashed: the hasher counts their bits in 64 bits.
pub const MAX_HASHED: u64 = 0x1fff_ffff_ffff_ffff;

/// The streaming SHA-256 hasher.
#[verifier::external_type_specification]
#[verifier::external_body]
pub struct ExSha256(sha2::Sha256);

/// The bytes that a hasher has been fed, in order.
pub uninterp spec fn absorbed(hasher: sha2::Sha256) -> Seq<u8>;

/// The SHA-256 hash of a sequence of bytes.
pub uninterp spec fn sha256(data: Seq<u8>) -> Seq<u8>;

/// `sha2::Sha256::new`: a hasher that has been fed nothing.
#[verifier::external_body]
pub(crate) fn hasher_new() -> (h: sha2::Sha256)
    ensures
        absorbed(h) == Seq::<u8>::empty(),
{
    sha2::Sha256::new()
}

/// `sha2::Sha256::update`: feeds a hasher with more bytes, behind those it has been fed before.
/// The count of blocks inside the hasher stays in range as long as `finalize` accepts the total.
#[verifier::external_body]
pub(crate) fn hasher_update(h: &mut sha2::Sha256, data: &[u8])
    requires
        absorbed(*old(h)).len() + data@.len() <= MAX_HASHED,
    ensures
        absorbed(*final(h)) == absorbed(*old(h)) + data@,
{
    h.update(data)
}

/// `sha2::Sha256::finalize`: the hash of all the bytes that the hasher has been fed, which is 32
/// bytes long. The number of bits is computed in a `u64`, which bounds the number of bytes.
#[verifier::external_body]
pub(crate) fn hasher_finalize(h: sha2::Sha256) -> (r: Vec<u8>)
    requires
        absorbed(h).len() <= MAX_HASHED,
    ensures
        r@ == sha256(absorbed(h)),
        r@.len() == 32,
{
    h.finalize().to_vec()
}

/// Bytes as lowercase hexadecimal digits, two for each byte, the high half first.
pub open spec fn hex_lower(data: Seq<u8>) -> Seq<char> {
    Seq::new(
        2 * data.len(),
        |i: int|
            "0123456789abcdef"@[if i % 2 == 0 {
                data[i / 2] as int / 16
            } else {
                data[i / 2] as int % 16
            }],
    )
}

/// `hex::encode`: the bytes as lowercase hexadecimal digits.
#[verifier::external_body]
pub(crate) fn hex_encode(data: &[u8]) -> (s: String)
    ensures
        s@ == hex_lower(data@),
{
    hex::encode(data)
}

/// The digest by which a blob with this content is known.
pub open spec fn blob_digest(content: Seq<u8>) -> Seq<char> {
    "sha256:"@ + hex_lower(sha256(content))
}

/// The digest of a file, taken while the file is read from its start to its end.
#[derive(Debug)]
pub struct Sha256File {
    hasher: sha2::Sha256,
}

impl Sha256File {
    /// What has been read of the file.
    pub closed spec fn content(self) -> Seq<u8> {
        absorbed(self.hasher)
    }

    /// Starts before the first byte of a file.
    pub fn new() -> (f: Sha256File)
        ensures
            f.content() == Seq::<u8>::empty(),
    {
        Sha256File { hasher: hasher_new() }
    }

    /// Takes what a read has put at the front of `buf`. A read of nothing is the end of the file.
    pub fn absorb(&mut self, buf: &[u8], n: usize) -> (more: bool)
        requires
            n <= buf@.len(),
            old(self).content().len() + n <= MAX_HASHED,
        ensures
            more == (n != 0),
            final(self).content() == old(self).content() + buf@.take(n as int),
    {
        let ghost before = self.content();
        if n == 0 {
            assert(before + buf@.take(0) =~= before);
            return false;
        }
        let part = slice_subrange(buf, 0, n);
        assert(part@ =~= buf@.take(n as int));
        hasher_update(&mut self.hasher, part);
        true
    }

    /// The digest of what has been read.
    pub fn finish(self) -> (s: String)
        requires
            self.content().len() <= MAX_HASHED,
        ensures
            s@ == blob_digest(self.content()),
            s@.len() == 71,
    {
        proof {
            reveal_strlit("sha256:");
        }
        let hash = hasher_finalize(self.hasher);
        let digits = hex_encode(hash.as_slice());
        joined_text("sha256:", digits.as_str())
    }
}

/// A file with the digest `computed` may stand for the blob `digest`. Digests of another kind
/// than SHA-256 are not checked.
pub open spec fn digest_accepted(digest: Seq<char>, computed: Seq<char>) -> bool {
    "sha256:"@.is_prefix_of(digest) ==> computed == digest
}

/// The text of a digest that does not match.
pub open spec fn mismatch_text(digest: Seq<char>, computed: Seq<char>) -> Seq<char> {
    "digest mismatch: expected "@ + digest + ", got "@ + computed
}

/// Compares the digest of a finished file with the one that the blob was asked for by.
pub fn check_digest(digest: &str, computed: &str) -> (r: Result<(), StreamCacheError>)
    ensures
        r is Ok <==> digest_accepted(digest@, computed@),
        r matches Err(e) ==> (e matches StreamCacheError::Download(t) && t@ == mismatch_text(
            digest@,
            computed@,
        )),
{
    if has_prefix(digest, "sha256:") && !same_text(computed, digest) {
        let mut t = "digest mismatch: expected ".to_owned();
        t.append(digest);
        t.append(", got ");
        t.append(computed);
        return Err(StreamCacheError::Download(t));
    }
    Ok(())
}

/// A file is accepted for a SHA-256 digest exactly when its content has that digest.
pub proof fn law_accepted_content_has_the_digest(digest: Seq<char>, content: Seq<u8>)
    requires
        "sha256:"@.is_prefix_of(digest),
    ensures
        digest_accepted(digest, blob_digest(content)) <==> digest == blob_digest(content),
{
}

/// A digest of another kind than SHA-256 is accepted whatever the file holds.
pub proof fn law_other_digests_are_not_checked(digest: Seq<char>, content: Seq<u8>)
    requires
        !"sha256:"@.is_prefix_of(digest),
    ensures
        digest_accepted(digest, blob_digest(content)),
{
}

/// The digest of a content names the hash function, and then gives the hash of all of the content,
/// two digits for each byte of it: the digits give the hash back.
pub proof fn law_digest_gives_the_hash_back(content: Seq<u8>, i: int)
    requires
        0 <= i < sha256(content).len(),
    ensures
        "sha256:"@.is_prefix_of(blob_digest(content)),
        blob_digest(content).len() == 7 + 2 * sha256(content).len(),
        16 * digit_of(blob_digest(content)[7 + 2 * i]) + digit_of(blob_digest(content)[8 + 2 * i])
            == sha256(content)[i],
{
    reveal_strlit("sha256:");
    reveal_strlit("0123456789abcdef");
    let b = sha256(content)[i] as int;
    assert((2 * i) % 2 == 0 && (2 * i) / 2 == i);
    assert((2 * i + 1) % 2 == 1 && (2 * i + 1) / 2 == i);
    assert(blob_digest(content)[7 + 2 * i] == "0123456789abcdef"@[b / 16]);
    assert(blob_digest(content)[8 + 2 * i] == "0123456789abcdef"@[b % 16]);
}

/// The value of a hexadecimal digit.
pub open spec fn digit_of(c: char) -> int {
    if '0' <= c <= '9' {
        c as int - '0' as int
    } else {
        c as int - 'a' as int + 10
    }
}

/// The text of a mismatch tells both digests, the one that was asked for first.
pub proof fn law_mismatch_tells_both(digest: Seq<char>, computed: Seq<char>)
    ensures
        ("digest mismatch: expected "@ + digest + ", got "@).is_prefix_of(
            mismatch_text(digest, computed),
        ),
        mismatch_text(digest, computed).len() == ("digest mismatch: expected "@ + digest
            + ", got "@).len() + computed.len(),
        forall|i: int|
            0 <= i < computed.len() ==> #[trigger] computed[i] == mismatch_text(
                digest,
                computed,
            )[mismatch_text(digest, computed).len() - computed.len() + i],
{
}

/// A file that is read in parts has the digest of all of its bytes, and it is accepted under a
/// SHA-256 digest exactly if that is the one. A digest of another kind is not compared.
pub proof fn law_file_is_accepted_under_its_digest(
    file: Sha256File,
    computed: String,
    shown: &str,
    digest: &str,
    r: Result<(), StreamCacheError>,
)
    requires
        call_ensures(Sha256File::finish, (file,), computed),
        file.content().len() <= MAX_HASHED,
        shown@ == computed@,
        call_ensures(check_digest, (digest, shown), r),
    ensures
        computed@ == "sha256:"@ + hex_lower(sha256(file.content())),
        "sha256:"@.is_prefix_of(digest@) ==> (r is Ok <==> digest@ == "sha256:"@ + hex_lower(
            sha256(file.content()),
        )),
        !"sha256:"@.is_prefix_of(digest@) ==> r is Ok,
{
}

} // verus!
