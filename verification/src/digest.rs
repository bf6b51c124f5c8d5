//! The whole-stream digest: one BLAKE3 hash over all bytes of an input.
//!
//! The hash itself is blake3's. This module feeds it, from a buffer in one
//! piece or from a stream read by read, and says what comes out in terms of
//! the bytes that went in.

use vstd::prelude::*;
use crate::error::Error;
use crate::stream::{buffered_reads, lemma_buffering_preserves_content, lemma_stream_ends, lemma_stream_step, pieces, stream_content};

verus! {

/// The length of a digest in bytes.
pub const DIGEST_LEN: usize = 32;

/// The size of the buffer through which a stream is read for its digest.
pub const READ_BUFFER_LEN: usize = 1048576;

/// The BLAKE3 hash of `input`, as `blake3::hash` computes it.
pub uninterp spec fn blake3_of(input: Seq<u8>) -> Seq<u8>;

/// `blake3::Hasher`, the running state of a hash.
#[verifier::external_type_specification]
#[verifier::external_body]
pub struct ExHasher(blake3::Hasher);

/// The bytes that a hasher has taken in since it was made, in order.
pub uninterp spec fn hasher_input(hasher: blake3::Hasher) -> Seq<u8>;

/// `blake3::hash`: the digest of a whole buffer, always 32 bytes.
#[verifier::external_body]
fn blake3_hash(input: &[u8]) -> (digest: Vec<u8>)
    ensures
        digest@ == blake3_of(input@),
        digest@.len() == DIGEST_LEN,
{
    blake3::hash(input).as_bytes().to_vec()
}

/// `blake3::Hasher::new`: a hasher that has taken in nothing yet.
#[verifier::external_body]
fn hasher_new() -> (hasher: blake3::Hasher)
    ensures
        hasher_input(hasher) == Seq::<u8>::empty(),
{
    blake3::Hasher::new()
}

/// `blake3::Hasher::update`: the hasher takes in `input` after what it
/// already holds. The hash is defined for up to `u64::MAX` bytes, so the
/// total is kept within that.
#[verifier::external_body]
fn hasher_update(hasher: &mut blake3::Hasher, input: &[u8])
    requires
        hasher_input(*old(hasher)).len() + input@.len() <= u64::MAX,
    ensures
        hasher_input(*final(hasher)) == hasher_input(*old(hasher)) + input@,
{
    hasher.update(input);
}

/// `blake3::Hasher::finalize`: the digest of everything taken in so far,
/// which is what `blake3::hash` gives for the same bytes in one piece.
#[verifier::external_body]
fn hasher_finalize(hasher: &blake3::Hasher) -> (digest: Vec<u8>)
    ensures
        digest@ == blake3_of(hasher_input(*hasher)),
        digest@.len() == DIGEST_LEN,
{
    hasher.finalize().as_bytes().to_vec()
}

/// The whole-stream digest of `content`: its BLAKE3 hash, which is defined
/// for up to `u64::MAX` bytes; longer content is refused as malformed.
pub open spec fn whole_digest(content: Seq<u8>) -> Result<Seq<u8>, Error> {
    if content.len() <= u64::MAX {
        Ok(blake3_of(content))
    } else {
        Err(Error::Malformed)
    }
}

/// A result that carries bytes, with the bytes taken by their view.
pub open spec fn bytes_outcome(result: Result<Vec<u8>, Error>) -> Result<Seq<u8>, Error> {
    match result {
        Ok(bytes) => Ok(bytes@),
        Err(e) => Err(e),
    }
}

/// The running state of a digest over a stream that arrives in pieces.
pub struct StreamDigest {
    hasher: blake3::Hasher,
    count: u64,
}

/// Where a digest over a stream stands after one read.
pub enum DigestStep {
    /// The read brought bytes: the state that has taken them in.
    More(StreamDigest),
    /// The read was empty, so the stream is exhausted: its digest.
    Done(Vec<u8>),
}

impl StreamDigest {
    #[verifier::type_invariant]
    spec fn well_formed(&self) -> bool {
        self.count as nat == hasher_input(self.hasher).len()
    }

    /// The bytes taken in so far.
    pub closed spec fn absorbed(&self) -> Seq<u8> {
        hasher_input(self.hasher)
    }

    /// A digest state that has taken in nothing.
    pub fn new() -> (state: Self)
        ensures
            state.absorbed() == Seq::<u8>::empty(),
    {
        StreamDigest { hasher: hasher_new(), count: 0 }
    }

    /// The state after one more piece of the stream. A piece that would carry
    /// the stream past `u64::MAX` bytes, beyond which the hash is not
    /// defined, is refused as malformed.
    pub fn absorb(self, block: &[u8]) -> (result: Result<Self, Error>)
        ensures
            self.absorbed().len() <= u64::MAX,
            match result {
                Ok(next) => {
                    &&& next.absorbed() == self.absorbed() + block@
                    &&& next.absorbed().len() <= u64::MAX
                },
                Err(e) => {
                    &&& e == Error::Malformed
                    &&& self.absorbed().len() + block@.len() > u64::MAX
                },
            },
    {
        proof {
            use_type_invariant(&self);
        }
        if block.len() as u64 > u64::MAX - self.count {
            return Err(Error::Malformed);
        }
        let mut hasher = self.hasher;
        hasher_update(&mut hasher, block);
        Ok(StreamDigest { hasher, count: self.count + block.len() as u64 })
    }

    /// The digest of everything taken in.
    pub fn finish(self) -> (digest: Vec<u8>)
        ensures
            whole_digest(self.absorbed()) == Ok::<Seq<u8>, Error>(digest@),
            digest@.len() == DIGEST_LEN,
    {
        proof {
            use_type_invariant(&self);
        }
        hasher_finalize(&self.hasher)
    }

    /// What one read of the source means for the digest: an empty read ends
    /// the stream and gives the digest, any other read is taken in.
    pub fn step(self, read: &[u8]) -> (result: Result<DigestStep, Error>)
        ensures
            match result {
                Ok(DigestStep::More(next)) => {
                    &&& read@.len() > 0
                    &&& next.absorbed() == self.absorbed() + read@
                    &&& next.absorbed().len() <= u64::MAX
                },
                Ok(DigestStep::Done(digest)) => {
                    &&& read@.len() == 0
                    &&& whole_digest(self.absorbed()) == Ok::<Seq<u8>, Error>(digest@)
                    &&& digest@.len() == DIGEST_LEN
                },
                Err(e) => {
                    &&& e == Error::Malformed
                    &&& self.absorbed().len() + read@.len() > u64::MAX
                },
            },
    {
        if read.len() == 0 {
            Ok(DigestStep::Done(self.finish()))
        } else {
            match self.absorb(read) {
                Ok(next) => Ok(DigestStep::More(next)),
                Err(e) => Err(e),
            }
        }
    }
}

/// The digest of a stream, given as the reads that its source answered
/// with. Reading stops at the first empty read; each read before it is fed
/// to one running hash, in order.
pub fn blake3_digest(reads: &Vec<Vec<u8>>) -> (result: Result<Vec<u8>, Error>)
    ensures
        bytes_outcome(result) == whole_digest(stream_content(pieces(reads@))),
        result matches Ok(digest) ==> digest@.len() == DIGEST_LEN,
{
    let ghost all = pieces(reads@);
    let mut state = StreamDigest::new();
    let mut i: usize = 0;
    assert(all.skip(0) == all);
    loop
        invariant
            i <= reads.len(),
            all == pieces(reads@),
            stream_content(all) == state.absorbed() + stream_content(all.skip(i as int)),
        decreases reads.len() - i,
    {
        if i >= reads.len() {
            proof {
                lemma_stream_ends(all, i as int);
            }
            return Ok(state.finish());
        }
        proof {
            if reads[i as int]@.len() == 0 {
                lemma_stream_ends(all, i as int);
            } else {
                lemma_stream_step(all, i as int);
            }
        }
        match state.step(reads[i].as_slice()) {
            Ok(DigestStep::More(next)) => {
                state = next;
            },
            Ok(DigestStep::Done(digest)) => {
                return Ok(digest);
            },
            Err(e) => {
                return Err(e);
            },
        }
        i += 1;
    }
}

/// The digest of a buffer that is already in memory.
pub fn hash_blake3(input: Vec<u8>) -> (result: Result<Vec<u8>, Error>)
    ensures
        result is Ok,
        bytes_outcome(result) == whole_digest(input@),
        result matches Ok(digest) ==> digest@.len() == DIGEST_LEN,
{
    let len: usize = input.len();
    assert(len <= u64::MAX);
    Ok(blake3_hash(input.as_slice()))
}

/// A stream and a buffer that hold the same bytes have the same digest,
/// whatever the size of the buffer through which the stream is read.
pub proof fn lemma_stream_digest_is_buffer_digest(content: Seq<u8>, width: nat)
    requires
        width > 0,
    ensures
        whole_digest(stream_content(buffered_reads(content, width))) == whole_digest(content),
{
    lemma_buffering_preserves_content(content, width);
}

/// The digest adds no collision of its own: inputs that BLAKE3 tells apart
/// have different digests here. This holds of a changed byte, of a prefix
/// and of an extension alike, wherever BLAKE3 gives them different hashes.
pub proof fn lemma_digests_differ_where_blake3_tells_apart(a: Seq<u8>, b: Seq<u8>)
    requires
        a.len() <= u64::MAX,
        b.len() <= u64::MAX,
        blake3_of(a) != blake3_of(b),
    ensures
        whole_digest(a) != whole_digest(b),
{
}

} // verus!
