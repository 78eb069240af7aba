//! Streamed content hashing through the XXH3 64-bit checksum.

use vstd::prelude::*;
use vstd::slice::slice_subrange;

verus! {

/// The digest that the XXH3 64-bit checksum (default seed) assigns to a byte
/// sequence. A function of the bytes alone: every process and machine agree.
pub uninterp spec fn xxh3_of(bytes: Seq<u8>) -> u64;

#[verifier::external_type_specification]
#[verifier::external_body]
pub struct ExXxHash3_64(twox_hash::XxHash3_64);

/// Size in bytes of one hashing chunk: files are streamed through the
/// checksum in pieces of at most this size, never loaded whole.
pub const CHUNK_SIZE: usize = 8192;

/// Running checksum state over the bytes fed so far. Order-dependent,
/// single pass; the view is the concatenation of every chunk written.
pub struct ContentHasher {
    inner: twox_hash::XxHash3_64,
    fed: Ghost<Seq<u8>>,
}

impl ContentHasher {
    /// The bytes fed to the checksum so far.
    pub closed spec fn view(&self) -> Seq<u8> {
        self.fed@
    }

    /// Relies on twox_hash::XxHash3_64::new: a hasher with the default seed
    /// and no input written yet.
    #[verifier::external_body]
    pub fn new() -> (r: Self)
        ensures
            r@ == Seq::<u8>::empty(),
    {
        ContentHasher { inner: twox_hash::XxHash3_64::new(), fed: Ghost(Seq::empty()) }
    }

    /// Relies on std::hash::Hasher::write for XxHash3_64: appends the chunk
    /// to the hashed stream.
    #[verifier::external_body]
    pub fn write(&mut self, chunk: &[u8])
        ensures
            final(self)@ == old(self)@ + chunk@,
    {
        std::hash::Hasher::write(&mut self.inner, chunk);
    }

    /// Relies on std::hash::Hasher::finish for XxHash3_64: the digest is a
    /// function of the bytes written so far alone, and reading it does not
    /// disturb the stream state.
    #[verifier::external_body]
    pub fn finish(&self) -> (r: u64)
        ensures
            r == xxh3_of(self@),
    {
        std::hash::Hasher::finish(&self.inner)
    }
}

/// Digest of a whole in-memory byte buffer, streamed through the running
/// checksum in fixed-size chunks exactly as a file would be.
pub fn digest_of_bytes(bytes: &[u8]) -> (r: u64)
    ensures
        r == xxh3_of(bytes@),
{
    let mut hasher = ContentHasher::new();
    let mut offset: usize = 0;
    while offset < bytes.len()
        invariant
            offset <= bytes@.len(),
            hasher@ == bytes@.take(offset as int),
        decreases bytes@.len() - offset,
    {
        let end: usize = if bytes.len() - offset < CHUNK_SIZE {
            bytes.len()
        } else {
            offset + CHUNK_SIZE
        };
        let chunk = slice_subrange(bytes, offset, end);
        hasher.write(chunk);
        assert(bytes@.take(offset as int) + bytes@.subrange(offset as int, end as int) =~= bytes@.take(
            end as int,
        ));
        offset = end;
    }
    assert(hasher@ =~= bytes@);
    hasher.finish()
}

} // verus!
