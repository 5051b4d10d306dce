//! Content hashing.
//!
//! A file's digest is the BLAKE3 hash of its bytes, written as 64 lowercase
//! hexadecimal characters. The hash state is fed in chunks of any size; the
//! digest depends on the concatenation of the chunks alone, never on where
//! the chunk boundaries fall.

use crate::shard::is_digest;
use vstd::prelude::*;
use vstd::slice::slice_subrange;

verus! {

/// The digest of a byte sequence: the BLAKE3 hash of the bytes, encoded as
/// 64 lowercase hexadecimal characters. Its value is fixed by the BLAKE3
/// function; the library only relies on it being a function of the bytes.
pub uninterp spec fn blake3_hex_of(bytes: Seq<u8>) -> Seq<char>;

/// The bytes fed so far into a BLAKE3 hash state.
pub uninterp spec fn hasher_fed(h: blake3::Hasher) -> Seq<u8>;

#[verifier::external_type_specification]
#[verifier::external_body]
pub struct ExHasher(blake3::Hasher);

/// Relies on blake3::Hasher::new: a fresh hash state has been fed nothing.
#[verifier::external_body]
fn hasher_new() -> (h: blake3::Hasher)
    ensures
        hasher_fed(h) == Seq::<u8>::empty(),
{
    blake3::Hasher::new()
}

/// Relies on blake3::Hasher::update: it appends the input bytes to the
/// hash state's input stream.
#[verifier::external_body]
fn hasher_update(h: &mut blake3::Hasher, chunk: &[u8])
    ensures
        hasher_fed(*final(h)) == hasher_fed(*old(h)) + chunk@,
{
    h.update(chunk);
}

/// Relies on blake3::Hasher::finalize and blake3::Hash::to_hex: the digest
/// is a function of the fed bytes alone, encoded as 64 lowercase
/// hexadecimal characters.
#[verifier::external_body]
fn hasher_hex_digest(h: &blake3::Hasher) -> (r: String)
    ensures
        r@ == blake3_hex_of(hasher_fed(*h)),
        is_digest(r@),
        r@.len() == 64,
{
    h.finalize().to_hex().as_str().to_string()
}

/// An incremental content hasher. Bytes are fed in chunks; the digest is the
/// BLAKE3 hex digest of everything fed, regardless of chunk boundaries.
pub struct ContentHasher {
    inner: blake3::Hasher,
}

impl ContentHasher {
    /// The bytes fed so far.
    pub closed spec fn bytes_fed(&self) -> Seq<u8> {
        hasher_fed(self.inner)
    }

    /// A fresh hasher that has been fed nothing.
    pub fn new() -> (h: ContentHasher)
        ensures
            h.bytes_fed() == Seq::<u8>::empty(),
    {
        ContentHasher { inner: hasher_new() }
    }

    /// Feeds one chunk of bytes.
    pub fn update(&mut self, chunk: &[u8])
        ensures
            final(self).bytes_fed() == old(self).bytes_fed() + chunk@,
    {
        hasher_update(&mut self.inner, chunk);
    }

    /// The digest of everything fed so far: 64 lowercase hexadecimal
    /// characters, a function of the fed bytes alone.
    pub fn hex_digest(&self) -> (r: String)
        ensures
            r@ == blake3_hex_of(self.bytes_fed()),
            is_digest(r@),
            r@.len() == 64,
    {
        hasher_hex_digest(&self.inner)
    }
}

/// Hashes a byte string by feeding it through the hasher in chunks of
/// `chunk_size` bytes. The digest is the BLAKE3 hex digest of the whole
/// input: the chunk size never changes the result.
pub fn hash_bytes_chunked(data: &[u8], chunk_size: usize) -> (r: String)
    requires
        chunk_size > 0,
    ensures
        r@ == blake3_hex_of(data@),
        is_digest(r@),
        r@.len() == 64,
{
    let mut hasher = ContentHasher::new();
    let len = data.len();
    let mut i: usize = 0;
    while i < len
        invariant
            i <= len,
            len == data@.len(),
            chunk_size > 0,
            hasher.bytes_fed() == data@.take(i as int),
        decreases len - i,
    {
        let end = if len - i < chunk_size {
            len
        } else {
            i + chunk_size
        };
        let chunk = slice_subrange(data, i, end);
        hasher.update(chunk);
        proof {
            assert(data@.take(i as int) + data@.subrange(i as int, end as int) =~= data@.take(
                end as int,
            ));
        }
        i = end;
    }
    proof {
        assert(data@.take(len as int) =~= data@);
    }
    hasher.hex_digest()
}

/// The digest is deterministic: byte-identical content always yields the
/// identical digest string, whatever the files' sizes or origins.
pub proof fn lemma_digest_deterministic(a: Seq<u8>, b: Seq<u8>)
    requires
        a == b,
    ensures
        blake3_hex_of(a) == blake3_hex_of(b),
{
}

} // verus!
