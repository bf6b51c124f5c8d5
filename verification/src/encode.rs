//! The tree encoder: the outboard data and the root digest of a byte stream.
//!
//! The hashing and the layout of the tree are bao's. This module feeds the
//! encoder, block by block, and says what comes out in terms of the content
//! that went in.

use vstd::prelude::*;
use vstd::slice::slice_subrange;
use crate::digest::DIGEST_LEN;
use crate::error::Error;
use crate::format::{declared_len, outboard_len, MAX_CONTENT_LEN};
use crate::stream::{buffered_reads, lemma_buffering_preserves_content, lemma_stream_ends, lemma_stream_step, pieces, stream_content};

verus! {

/// The size of the blocks in which a buffer is handed to the encoder.
pub const ENCODE_BLOCK_LEN: usize = 262144;

/// The outboard data and the root digest of `content`, in this order: what
/// bao's encoder in outboard mode leaves in its sink and returns once it has
/// taken in `content` and was finalized.
pub uninterp spec fn outboard_encoding(content: Seq<u8>) -> (Seq<u8>, Seq<u8>);

/// bao's incremental encoder in outboard mode, together with its sink: a
/// cursor over a vector that the encoder owns and that grows as it writes.
#[verifier::external_body]
pub struct OutboardEncoder {
    inner: bao::encode::Encoder<std::io::Cursor<Vec<u8>>>,
}

/// The content bytes that an encoder has taken in since it was made, in
/// order.
pub uninterp spec fn encoder_input(encoder: OutboardEncoder) -> Seq<u8>;

/// `bao::encode::Encoder::new_outboard` over an empty sink: an encoder that
/// has taken in nothing.
#[verifier::external_body]
fn encoder_new() -> (encoder: OutboardEncoder)
    ensures
        encoder_input(encoder) == Seq::<u8>::empty(),
{
    OutboardEncoder { inner: bao::encode::Encoder::new_outboard(std::io::Cursor::new(Vec::new())) }
}

/// `std::io::Write::write_all` on the encoder: the encoder takes in all of
/// `input` after what it already held. The encoder's write fails only where
/// a write into its sink fails, and the sink is a vector in memory: bao's own
/// `encode::outboard` makes this call on such a sink and unwraps it. The
/// encoder counts its input in a `u64` and keeps one hash per level of the
/// tree in a fixed stack, so the total is kept within `MAX_CONTENT_LEN`.
#[verifier::external_body]
fn encoder_write_all(encoder: &mut OutboardEncoder, input: &[u8]) -> (result: Result<(), std::io::Error>)
    requires
        encoder_input(*old(encoder)).len() + input@.len() <= MAX_CONTENT_LEN,
    ensures
        result is Ok,
        encoder_input(*final(encoder)) == encoder_input(*old(encoder)) + input@,
{
    std::io::Write::write_all(&mut encoder.inner, input)
}

/// `bao::encode::Encoder::finalize`, then `into_inner` for the sink: the
/// outboard data and the 32-byte root digest of what the encoder took in.
/// The outboard data begins with the length of the content as 8
/// little-endian bytes and holds one 64-byte parent node for every chunk but
/// the first. The last step fails only where a write, a seek or a read on
/// the sink fails; on a vector in memory, within what the encoder itself
/// wrote, none does: bao's own `encode::outboard` makes this call on such a
/// sink and unwraps it.
#[verifier::external_body]
fn encoder_finish(encoder: OutboardEncoder) -> (result: Result<(Vec<u8>, Vec<u8>), std::io::Error>)
    requires
        encoder_input(encoder).len() <= MAX_CONTENT_LEN,
    ensures
        result is Ok,
        result matches Ok(pair) ==> {
            &&& (pair.0@, pair.1@) == outboard_encoding(encoder_input(encoder))
            &&& pair.1@.len() == DIGEST_LEN
            &&& pair.0@.len() == outboard_len(encoder_input(encoder).len())
            &&& declared_len(pair.0@) == encoder_input(encoder).len()
        },
{
    let mut inner = encoder.inner;
    let root = inner.finalize()?;
    Ok((inner.into_inner().into_inner(), root.as_bytes().to_vec()))
}

/// What the tree encoder gives for a content.
#[derive(Clone, Debug)]
pub struct BaoResult {
    /// The root digest: 32 bytes.
    pub hash: Vec<u8>,
    /// The outboard data: the header and the parent nodes of the tree.
    pub outboard: Vec<u8>,
}

/// Whether `encoded` is the tree encoding of `content`.
pub open spec fn encodes(encoded: BaoResult, content: Seq<u8>) -> bool {
    &&& (encoded.outboard@, encoded.hash@) == outboard_encoding(content)
    &&& encoded.hash@.len() == DIGEST_LEN
    &&& encoded.outboard@.len() == outboard_len(content.len())
    &&& declared_len(encoded.outboard@) == content.len()
}

/// The tree encoding of `content`: its outboard data and root digest, where
/// it is no longer than `MAX_CONTENT_LEN`; longer content is refused as
/// malformed.
pub open spec fn tree_encoding(content: Seq<u8>) -> Result<(Seq<u8>, Seq<u8>), Error> {
    if content.len() <= MAX_CONTENT_LEN {
        Ok(outboard_encoding(content))
    } else {
        Err(Error::Malformed)
    }
}

/// The result of an encoding, with the outboard data and the root digest, in
/// this order, taken by their views.
pub open spec fn encoding_view(result: Result<BaoResult, Error>) -> Result<(Seq<u8>, Seq<u8>), Error> {
    match result {
        Ok(encoded) => Ok((encoded.outboard@, encoded.hash@)),
        Err(e) => Err(e),
    }
}

/// Whether `result` is what encoding `content` comes to: its encoding, with
/// the lengths and the header that belong to it, exactly where the content
/// is no longer than `MAX_CONTENT_LEN`, and the refusal otherwise.
pub open spec fn encoding_result(result: Result<BaoResult, Error>, content: Seq<u8>) -> bool {
    &&& encoding_view(result) == tree_encoding(content)
    &&& result matches Ok(encoded) ==> encodes(encoded, content)
}

/// The result of the encoder's last step as the result of the encoding.
pub fn encoding_outcome(finished: Result<(Vec<u8>, Vec<u8>), std::io::Error>) -> (result: Result<BaoResult, Error>)
    ensures
        match finished {
            Ok(pair) => result matches Ok(encoded) && encoded.outboard == pair.0 && encoded.hash == pair.1,
            Err(_) => result == Err::<BaoResult, Error>(Error::EncodeFinalize),
        },
{
    match finished {
        Ok(pair) => Ok(BaoResult { hash: pair.1, outboard: pair.0 }),
        Err(_) => Err(Error::EncodeFinalize),
    }
}

/// The running state of a tree encoding over a stream that arrives in
/// pieces.
pub struct TreeEncoder {
    encoder: OutboardEncoder,
    count: u64,
}

/// Where a tree encoding over a stream stands after one read.
pub enum EncodeStep {
    /// The read brought bytes: the state that has taken them in.
    More(TreeEncoder),
    /// The read was empty, so the stream is exhausted: its encoding.
    Done(BaoResult),
}

impl TreeEncoder {
    #[verifier::type_invariant]
    spec fn well_formed(&self) -> bool {
        &&& self.count as nat == encoder_input(self.encoder).len()
        &&& self.count <= MAX_CONTENT_LEN
    }

    /// The content bytes taken in so far.
    pub closed spec fn consumed(&self) -> Seq<u8> {
        encoder_input(self.encoder)
    }

    /// An encoder that has taken in nothing.
    pub fn new() -> (state: Self)
        ensures
            state.consumed() == Seq::<u8>::empty(),
    {
        TreeEncoder { encoder: encoder_new(), count: 0 }
    }

    /// The state after one more piece of the stream. A piece that would carry
    /// the content past `MAX_CONTENT_LEN` is refused as malformed, and only
    /// such a piece is refused. Should a write into the sink fail, the
    /// encoding ends with `Error::Io`.
    pub fn absorb(self, block: &[u8]) -> (result: Result<Self, Error>)
        ensures
            self.consumed().len() <= MAX_CONTENT_LEN,
            match result {
                Ok(next) => {
                    &&& self.consumed().len() + block@.len() <= MAX_CONTENT_LEN
                    &&& next.consumed() == self.consumed() + block@
                },
                Err(e) => {
                    &&& e == Error::Malformed
                    &&& self.consumed().len() + block@.len() > MAX_CONTENT_LEN
                },
            },
    {
        proof {
            use_type_invariant(&self);
        }
        if block.len() as u64 > MAX_CONTENT_LEN - self.count {
            return Err(Error::Malformed);
        }
        let mut encoder = self.encoder;
        match encoder_write_all(&mut encoder, block) {
            Ok(_) => Ok(TreeEncoder { encoder, count: self.count + block.len() as u64 }),
            Err(_) => Err(Error::Io),
        }
    }

    /// The encoding of everything taken in. Should the encoder's last step
    /// fail, the encoding ends with `Error::EncodeFinalize`.
    pub fn finish(self) -> (result: Result<BaoResult, Error>)
        ensures
            self.consumed().len() <= MAX_CONTENT_LEN,
            encoding_result(result, self.consumed()),
    {
        proof {
            use_type_invariant(&self);
        }
        encoding_outcome(encoder_finish(self.encoder))
    }

    /// What one read of the source means for the encoding: an empty read
    /// ends the stream and finalizes the encoder, any other read is taken
    /// in.
    pub fn step(self, read: &[u8]) -> (result: Result<EncodeStep, Error>)
        ensures
            self.consumed().len() <= MAX_CONTENT_LEN,
            match result {
                Ok(EncodeStep::More(next)) => {
                    &&& read@.len() > 0
                    &&& self.consumed().len() + read@.len() <= MAX_CONTENT_LEN
                    &&& next.consumed() == self.consumed() + read@
                },
                Ok(EncodeStep::Done(encoded)) => {
                    &&& read@.len() == 0
                    &&& encoding_result(Ok(encoded), self.consumed())
                },
                Err(e) => {
                    &&& e == Error::Malformed
                    &&& self.consumed().len() + read@.len() > MAX_CONTENT_LEN
                },
            },
    {
        if read.len() == 0 {
            match self.finish() {
                Ok(encoded) => Ok(EncodeStep::Done(encoded)),
                Err(e) => Err(e),
            }
        } else {
            match self.absorb(read) {
                Ok(next) => Ok(EncodeStep::More(next)),
                Err(e) => Err(e),
            }
        }
    }
}

/// The tree encoding of a stream, given as the reads that its source
/// answered with. Reading stops at the first empty read; each read before it
/// is handed to one encoder, in order, which is then finalized.
pub fn hash_bao_file_internal(reads: &Vec<Vec<u8>>) -> (result: Result<BaoResult, Error>)
    ensures
        encoding_result(result, stream_content(pieces(reads@))),
{
    let ghost all = pieces(reads@);
    let mut state = TreeEncoder::new();
    let mut i: usize = 0;
    assert(all.skip(0) == all);
    loop
        invariant
            i <= reads.len(),
            all == pieces(reads@),
            stream_content(all) == state.consumed() + stream_content(all.skip(i as int)),
        decreases reads.len() - i,
    {
        if i >= reads.len() {
            proof {
                lemma_stream_ends(all, i as int);
            }
            return state.finish();
        }
        proof {
            if reads[i as int]@.len() == 0 {
                lemma_stream_ends(all, i as int);
            } else {
                lemma_stream_step(all, i as int);
            }
        }
        match state.step(reads[i].as_slice()) {
            Ok(EncodeStep::More(next)) => {
                state = next;
            },
            Ok(EncodeStep::Done(encoded)) => {
                return Ok(encoded);
            },
            Err(e) => {
                return Err(e);
            },
        }
        i += 1;
    }
}

/// The tree encoding of a buffer that is already in memory, handed to the
/// encoder in blocks of `ENCODE_BLOCK_LEN` bytes.
pub fn hash_bao_memory(bytes: Vec<u8>) -> (result: Result<BaoResult, Error>)
    ensures
        encoding_result(result, bytes@),
{
    let content = bytes.as_slice();
    let mut state = TreeEncoder::new();
    let mut done: usize = 0;
    assert(content@.take(0) == Seq::<u8>::empty());
    while done < content.len()
        invariant
            done <= content@.len(),
            content@ == bytes@,
            state.consumed() == content@.take(done as int),
        decreases content@.len() - done,
    {
        let left: usize = content.len() - done;
        let width: usize = if left < ENCODE_BLOCK_LEN { left } else { ENCODE_BLOCK_LEN };
        let block = slice_subrange(content, done, done + width);
        assert(content@.take(done as int) + block@ == content@.take(done + width));
        state = match state.absorb(block) {
            Ok(next) => next,
            Err(e) => {
                return Err(e);
            },
        };
        done = done + width;
    }
    assert(content@.take(done as int) == content@);
    state.finish()
}

/// A stream and a buffer that hold the same content have the same tree
/// encoding, byte for byte, whatever the size of the buffer through which
/// the stream is read.
pub proof fn lemma_stream_encoding_is_buffer_encoding(content: Seq<u8>, width: nat)
    requires
        width > 0,
    ensures
        tree_encoding(stream_content(buffered_reads(content, width))) == tree_encoding(content),
{
    lemma_buffering_preserves_content(content, width);
}

/// Two encodings of the same content are the same, byte for byte.
pub proof fn lemma_encodings_of_one_content_agree(first: BaoResult, second: BaoResult, content: Seq<u8>)
    requires
        encodes(first, content),
        encodes(second, content),
    ensures
        first.hash@ == second.hash@,
        first.outboard@ == second.outboard@,
{
}

/// The encoder adds no collision of its own: contents that bao gives
/// different root digests have different root digests here.
pub proof fn lemma_roots_differ_where_bao_tells_apart(first: BaoResult, second: BaoResult, a: Seq<u8>, b: Seq<u8>)
    requires
        encodes(first, a),
        encodes(second, b),
        outboard_encoding(a).1 != outboard_encoding(b).1,
    ensures
        first.hash@ != second.hash@,
{
}

} // verus!
