//! Content hashing: a streaming 32-byte fingerprint over file content. The
//! digest itself comes from an outside hashing primitive; this module owns the
//! chunking, so that feeding content in pieces provably fingerprints the
//! concatenation.

use vstd::prelude::*;
use crate::entry::FileEntry;

verus! {

/// The 32-byte content digest of a byte string. The digest is a function of
/// the bytes alone: the same content always yields the same digest.
pub uninterp spec fn content_digest(bytes: Seq<u8>) -> Seq<u8>;

/// The bytes a streaming hasher has absorbed so far.
pub uninterp spec fn hasher_absorbed(h: blake3::Hasher) -> Seq<u8>;

#[verifier::external_type_specification]
#[verifier::external_body]
pub struct ExHasher(blake3::Hasher);

/// Relies on blake3::Hasher::new: a fresh hasher has absorbed nothing.
#[verifier::external_body]
fn hasher_new() -> (h: blake3::Hasher)
    ensures
        hasher_absorbed(h) == Seq::<u8>::empty(),
{
    blake3::Hasher::new()
}

/// Relies on blake3::Hasher::update: extends the absorbed input by the chunk.
#[verifier::external_body]
fn hasher_update(h: &mut blake3::Hasher, chunk: &[u8])
    ensures
        hasher_absorbed(*final(h)) == hasher_absorbed(*old(h)) + chunk@,
{
    h.update(chunk);
}

/// Relies on blake3::Hasher::finalize and blake3::Hash::as_bytes: the 32-byte
/// digest of the absorbed input, a function of those bytes alone.
#[verifier::external_body]
fn hasher_finalize(h: &blake3::Hasher) -> (r: [u8; 32])
    ensures
        r@ == content_digest(hasher_absorbed(*h)),
{
    *h.finalize().as_bytes()
}

/// Digest of `content`, streamed in 64 KiB chunks. Chunking does not affect
/// the result: the digest is that of the whole content.
pub fn compute_hash(content: &[u8]) -> (digest: [u8; 32])
    ensures
        digest@ == content_digest(content@),
{
    let mut hasher = hasher_new();
    let len = content.len();
    let mut i: usize = 0;
    proof {
        assert(content@.subrange(0, 0) =~= Seq::<u8>::empty());
    }
    while i < len
        invariant
            i <= len,
            len == content@.len(),
            hasher_absorbed(hasher) == content@.subrange(0, i as int),
        decreases len - i,
    {
        let end = if len - i < 65536 {
            len
        } else {
            i + 65536
        };
        let chunk = vstd::slice::slice_subrange(content, i, end);
        hasher_update(&mut hasher, chunk);
        proof {
            assert(content@.subrange(0, i as int) + content@.subrange(i as int, end as int)
                =~= content@.subrange(0, end as int));
        }
        i = end;
    }
    proof {
        assert(content@.subrange(0, len as int) =~= content@);
    }
    hasher_finalize(&hasher)
}

/// Cache the digest of `content` on `entry`; the caller read the entry's file
/// content and hands it in as bytes.
pub fn entry_with_hashed_content(entry: FileEntry, content: &[u8]) -> (r: FileEntry)
    ensures
        r.path == entry.path,
        r.size == entry.size,
        r.mtime == entry.mtime,
        r.permissions == entry.permissions,
        r.is_symlink == entry.is_symlink,
        r.symlink_target == entry.symlink_target,
        r.hash matches Some(h) && h@ == content_digest(content@),
{
    let digest = compute_hash(content);
    entry.with_hash(digest)
}

/// Hashing is deterministic: byte-identical content yields identical digests,
/// and hashing the same content twice yields the same digest.
pub proof fn lemma_hash_deterministic(a: Seq<u8>, b: Seq<u8>)
    requires
        a == b,
    ensures
        content_digest(a) == content_digest(b),
{
}

} // verus!
