//! The slice verifier: is a range of bytes, claimed to start at an offset of
//! the content, the content that a root digest commits to?
//!
//! One verification goes through four steps. The request is checked for its
//! shape before anything is hashed. The nodes of the tree that vouch for the
//! window are cut out of the outboard data, together with the range, into a
//! slice. The slice is decoded against the root digest. What the decoder
//! hands out as verified is held against the range.

use vstd::prelude::*;
use crate::digest::DIGEST_LEN;
use crate::encode::{encodes, BaoResult};
use crate::error::Error;
use crate::format::{declared_len, offset_aligned, offset_in_bounds, outboard_len, outboard_len_of, read_declared_len, window_len, window_len_of, HEADER_LEN, MAX_CONTENT_LEN, SLICE_LEN};
use crate::seeker::FakeSeeker;

verus! {

/// What a successful verification returns.
pub const VERIFIED: u8 = 1;

/// Why the extractor or the decoder gave up.
#[derive(Clone, Copy, Debug, PartialEq, Eq, Structural)]
pub enum SliceFailure {
    /// A recomputed hash differs from the one that its parent or the root
    /// digest holds.
    HashMismatch,
    /// The bytes ended before the tree was complete.
    Truncated,
    /// Any other failure of a read.
    Other,
}

/// The slice that bao's extractor cuts for the window of `slice_len` bytes
/// at `slice_start`, reading `content` from a source that hands it out front
/// to back and ignores seeks, and the tree from `outboard`.
pub uninterp spec fn extracted_slice(content: Seq<u8>, outboard: Seq<u8>, slice_start: u64, slice_len: u64) -> Result<Seq<u8>, SliceFailure>;

/// The content that bao's slice decoder hands out as verified against
/// `root` when it reads `slice` to its end, for the window of `slice_len`
/// bytes at `slice_start`.
pub uninterp spec fn decoded_slice(slice: Seq<u8>, root: Seq<u8>, slice_start: u64, slice_len: u64) -> Result<Seq<u8>, SliceFailure>;

/// The result of an extraction or a decoding, with the bytes taken by their
/// view.
pub open spec fn slice_outcome(result: Result<Vec<u8>, SliceFailure>) -> Result<Seq<u8>, SliceFailure> {
    match result {
        Ok(bytes) => Ok(bytes@),
        Err(failure) => Err(failure),
    }
}

/// `flutter_rust_bridge::support::from_vec_to_array`: the 32 bytes of a
/// vector as an array. It panics on any other length, which is kept away.
#[verifier::external_body]
fn digest_array(bytes: Vec<u8>) -> (array: [u8; 32])
    requires
        bytes@.len() == DIGEST_LEN,
    ensures
        array@ == bytes@,
{
    flutter_rust_bridge::support::from_vec_to_array(bytes)
}

/// `bao::encode::SliceExtractor::new_outboard`, read to its end with
/// `std::io::Read::read_to_end`: the extractor is given `input` as its
/// content source and a cursor over `outboard`, and what it produces is
/// collected. The extractor takes nothing from `input` but the bytes that
/// it reads, so what comes back is a function of the unread bytes, the
/// outboard data and the window. A failed read is told apart by its
/// `std::io::ErrorKind`.
#[verifier::external_body]
fn extract_slice(input: FakeSeeker<'_>, outboard: &[u8], slice_start: u64, slice_len: u64) -> (result: Result<Vec<u8>, SliceFailure>)
    ensures
        slice_outcome(result) == extracted_slice(input.unread(), outboard@, slice_start, slice_len),
{
    let tree = std::io::Cursor::new(outboard);
    let mut extractor = bao::encode::SliceExtractor::new_outboard(input, tree, slice_start, slice_len);
    let mut slice = Vec::new();
    match std::io::Read::read_to_end(&mut extractor, &mut slice) {
        Ok(_) => Ok(slice),
        Err(e) => match e.kind() {
            std::io::ErrorKind::InvalidData => Err(SliceFailure::HashMismatch),
            std::io::ErrorKind::UnexpectedEof => Err(SliceFailure::Truncated),
            _ => Err(SliceFailure::Other),
        },
    }
}

/// `bao::decode::SliceDecoder::new` with the root digest made by
/// `bao::Hash::from`, read to its end with `std::io::Read::read_to_end`:
/// what the decoder hands out is collected, and is a function of the slice,
/// the root digest and the window. A failed read is told apart by its
/// `std::io::ErrorKind`. The decoder keeps one pending hash per level of the
/// tree in a stack of 54 entries, which a header that declares more than
/// `MAX_CONTENT_LEN` bytes can overrun: such a slice is kept away.
#[verifier::external_body]
fn decode_slice(slice: &[u8], root: &[u8; 32], slice_start: u64, slice_len: u64) -> (result: Result<Vec<u8>, SliceFailure>)
    requires
        slice@.len() >= HEADER_LEN ==> declared_len(slice@) <= MAX_CONTENT_LEN,
    ensures
        slice_outcome(result) == decoded_slice(slice@, root@, slice_start, slice_len),
{
    let hash = bao::Hash::from(*root);
    let mut decoder = bao::decode::SliceDecoder::new(slice, &hash, slice_start, slice_len);
    let mut content = Vec::new();
    match std::io::Read::read_to_end(&mut decoder, &mut content) {
        Ok(_) => Ok(content),
        Err(e) => match e.kind() {
            std::io::ErrorKind::InvalidData => Err(SliceFailure::HashMismatch),
            std::io::ErrorKind::UnexpectedEof => Err(SliceFailure::Truncated),
            _ => Err(SliceFailure::Other),
        },
    }
}

/// Whether a request has the shape of a window of some content: a root
/// digest of 32 bytes; outboard data with a whole header that declares no
/// more than `MAX_CONTENT_LEN` bytes and that is as long as the tree over
/// that many bytes; an offset that is a multiple of the slice width and
/// lies inside the declared content; and a range that is exactly as long as
/// the window at that offset.
pub open spec fn request_well_formed(range: Seq<u8>, offset: u64, outboard: Seq<u8>, root: Seq<u8>) -> bool {
    &&& root.len() == DIGEST_LEN
    &&& outboard.len() >= HEADER_LEN
    &&& declared_len(outboard) <= MAX_CONTENT_LEN
    &&& outboard.len() == outboard_len(declared_len(outboard))
    &&& offset_aligned(offset as nat)
    &&& offset_in_bounds(declared_len(outboard), offset as nat)
    &&& range.len() == window_len(declared_len(outboard), offset as nat)
}

/// The failure of the extractor or the decoder as an error of this crate: a
/// hash that does not match is a failed verification, bytes that end early
/// are malformed input, anything else is a failed read.
pub open spec fn failure_error(failure: SliceFailure) -> Error {
    match failure {
        SliceFailure::HashMismatch => Error::Verification,
        SliceFailure::Truncated => Error::Malformed,
        SliceFailure::Other => Error::Io,
    }
}

/// Whether a slice may be handed to the decoder: it declares no more than
/// `MAX_CONTENT_LEN` bytes, or is too short to declare anything.
pub open spec fn slice_decodable(slice: Seq<u8>) -> bool {
    slice.len() >= HEADER_LEN ==> declared_len(slice) <= MAX_CONTENT_LEN
}

/// What a decoding means for the range that was to be verified: success
/// where the decoder handed out exactly the range, a failed verification
/// where it handed out anything else, and its own failure otherwise.
pub open spec fn decoding_verdict(range: Seq<u8>, decoded: Result<Seq<u8>, SliceFailure>) -> Result<u8, Error> {
    match decoded {
        Ok(content) => if content == range {
            Ok(VERIFIED)
        } else {
            Err(Error::Verification)
        },
        Err(failure) => Err(failure_error(failure)),
    }
}

/// What an extraction means for the verification: its failure, a refusal of
/// a slice that cannot be decoded, or the verdict of decoding the slice
/// against `root`.
pub open spec fn extraction_verdict(range: Seq<u8>, offset: u64, root: Seq<u8>, extracted: Result<Seq<u8>, SliceFailure>) -> Result<u8, Error> {
    match extracted {
        Ok(slice) => if slice_decodable(slice) {
            decoding_verdict(range, decoded_slice(slice, root, offset, SLICE_LEN))
        } else {
            Err(Error::Malformed)
        },
        Err(failure) => Err(failure_error(failure)),
    }
}

/// The outcome of verifying `range` as the window at `offset`, with
/// `outboard` and `root`.
pub open spec fn integrity_verdict(range: Seq<u8>, offset: u64, outboard: Seq<u8>, root: Seq<u8>) -> Result<u8, Error> {
    if request_well_formed(range, offset, outboard, root) {
        extraction_verdict(range, offset, root, extracted_slice(range, outboard, offset, SLICE_LEN))
    } else {
        Err(Error::Malformed)
    }
}

/// Checks the shape of a request, before anything is hashed.
pub fn check_request(range: &[u8], offset: u64, outboard: &[u8], root: &[u8]) -> (result: Result<(), Error>)
    ensures
        result == (if request_well_formed(range@, offset, outboard@, root@) {
            Ok::<(), Error>(())
        } else {
            Err::<(), Error>(Error::Malformed)
        }),
{
    if root.len() != DIGEST_LEN {
        return Err(Error::Malformed);
    }
    let content_len: u64 = match read_declared_len(outboard) {
        Some(len) => len,
        None => {
            return Err(Error::Malformed);
        },
    };
    if content_len > MAX_CONTENT_LEN {
        return Err(Error::Malformed);
    }
    if outboard.len() as u64 != outboard_len_of(content_len) {
        return Err(Error::Malformed);
    }
    if offset % SLICE_LEN != 0 {
        return Err(Error::Malformed);
    }
    if !(offset < content_len || (offset == 0 && content_len == 0)) {
        return Err(Error::Malformed);
    }
    if range.len() as u64 != window_len_of(content_len, offset) {
        return Err(Error::Malformed);
    }
    Ok(())
}

/// The failure of the extractor or the decoder as an error of this crate.
pub fn error_of_failure(failure: SliceFailure) -> (error: Error)
    ensures
        error == failure_error(failure),
{
    match failure {
        SliceFailure::HashMismatch => Error::Verification,
        SliceFailure::Truncated => Error::Malformed,
        SliceFailure::Other => Error::Io,
    }
}

/// Whether two buffers hold the same bytes.
fn same_bytes(a: &[u8], b: &[u8]) -> (same: bool)
    ensures
        same == (a@ == b@),
{
    if a.len() != b.len() {
        return false;
    }
    let mut i: usize = 0;
    while i < a.len()
        invariant
            i <= a@.len(),
            a@.len() == b@.len(),
            forall|j: int| 0 <= j < i ==> a@[j] == b@[j],
        decreases a@.len() - i,
    {
        if a[i] != b[i] {
            return false;
        }
        i += 1;
    }
    assert(a@ =~= b@);
    true
}

/// The verdict on a range, given what the decoder made of its slice.
pub fn verdict_of_decoding(range: &[u8], decoded: Result<Vec<u8>, SliceFailure>) -> (result: Result<u8, Error>)
    ensures
        result == decoding_verdict(range@, slice_outcome(decoded)),
{
    match decoded {
        Ok(content) => if same_bytes(content.as_slice(), range) {
            Ok(VERIFIED)
        } else {
            Err(Error::Verification)
        },
        Err(failure) => Err(error_of_failure(failure)),
    }
}

/// The verdict on a range, given what the extractor made of it: the slice is
/// decoded against `root` for the window at `offset`, unless the extractor
/// failed or the slice cannot be decoded.
pub fn verdict_of_extraction(range: &[u8], offset: u64, root: &[u8; 32], extracted: Result<Vec<u8>, SliceFailure>) -> (result: Result<u8, Error>)
    ensures
        result == extraction_verdict(range@, offset, root@, slice_outcome(extracted)),
{
    match extracted {
        Ok(slice) => {
            let decodable = match read_declared_len(slice.as_slice()) {
                Some(len) => len <= MAX_CONTENT_LEN,
                None => true,
            };
            if decodable {
                verdict_of_decoding(range, decode_slice(slice.as_slice(), root, offset, SLICE_LEN))
            } else {
                Err(Error::Malformed)
            }
        },
        Err(failure) => Err(error_of_failure(failure)),
    }
}

/// Verifies that `chunk_bytes` is the window of the content that starts at
/// `offset`, against the outboard data of the content and its root digest.
/// Returns `VERIFIED` where every byte of the range is vouched for by the
/// root digest, and the reason otherwise; the inputs are only read.
pub fn verify_integrity(chunk_bytes: Vec<u8>, offset: u64, bao_outboard_bytes: Vec<u8>, blake3_hash: Vec<u8>) -> (result: Result<u8, Error>)
    ensures
        result == integrity_verdict(chunk_bytes@, offset, bao_outboard_bytes@, blake3_hash@),
{
    let range = chunk_bytes.as_slice();
    let outboard = bao_outboard_bytes.as_slice();
    match check_request(range, offset, outboard, blake3_hash.as_slice()) {
        Ok(_) => {},
        Err(e) => {
            return Err(e);
        },
    }
    let root = digest_array(blake3_hash);
    let input = FakeSeeker::new(range);
    assert(input.unread() == range@);
    let extracted = extract_slice(input, outboard, offset, SLICE_LEN);
    verdict_of_extraction(range, offset, &root, extracted)
}

/// The window of `content` that starts at `offset`.
pub open spec fn content_window(content: Seq<u8>, offset: nat) -> Seq<u8> {
    content.subrange(offset as int, (offset + window_len(content.len(), offset)) as int)
}

/// No window of an encoded content is refused for its shape: with the
/// outboard data and the root digest that the encoder gave for a content,
/// each window that starts inside the content, at a multiple of the slice
/// width, is a well-formed request.
pub proof fn lemma_encoded_windows_are_well_formed(encoded: BaoResult, content: Seq<u8>, offset: u64)
    requires
        encodes(encoded, content),
        content.len() <= MAX_CONTENT_LEN,
        offset_aligned(offset as nat),
        offset_in_bounds(content.len(), offset as nat),
    ensures
        request_well_formed(content_window(content, offset as nat), offset, encoded.outboard@, encoded.hash@),
{
}

/// A range that does not lie inside the content that the outboard data
/// declares, because it starts outside or reaches past the end, is refused
/// as malformed.
pub proof fn lemma_window_outside_content_is_malformed(range: Seq<u8>, offset: u64, outboard: Seq<u8>, root: Seq<u8>)
    requires
        !offset_in_bounds(declared_len(outboard), offset as nat) || offset + range.len() > declared_len(
            outboard,
        ),
    ensures
        integrity_verdict(range, offset, outboard, root) == Err::<u8, Error>(Error::Malformed),
{
}

/// An offset that is not a multiple of the slice width is refused as
/// malformed, whatever the rest of the request.
pub proof fn lemma_unaligned_offset_is_malformed(range: Seq<u8>, offset: u64, outboard: Seq<u8>, root: Seq<u8>)
    requires
        !offset_aligned(offset as nat),
    ensures
        integrity_verdict(range, offset, outboard, root) == Err::<u8, Error>(Error::Malformed),
{
}

/// A root digest that is not 32 bytes long is refused as malformed, whatever
/// the rest of the request.
pub proof fn lemma_root_of_wrong_length_is_malformed(range: Seq<u8>, offset: u64, outboard: Seq<u8>, root: Seq<u8>)
    requires
        root.len() != DIGEST_LEN,
    ensures
        integrity_verdict(range, offset, outboard, root) == Err::<u8, Error>(Error::Malformed),
{
}

/// Verification is all or nothing: it succeeds only with `VERIFIED`, and
/// only where the request is well formed, a slice was extracted for it, and
/// the decoder handed out exactly the range as verified against the root.
pub proof fn lemma_verified_means_decoded(range: Seq<u8>, offset: u64, outboard: Seq<u8>, root: Seq<u8>)
    requires
        integrity_verdict(range, offset, outboard, root) is Ok,
    ensures
        integrity_verdict(range, offset, outboard, root) == Ok::<u8, Error>(VERIFIED),
        request_well_formed(range, offset, outboard, root),
        extracted_slice(range, outboard, offset, SLICE_LEN) matches Ok(slice) && decoded_slice(
            slice,
            root,
            offset,
            SLICE_LEN,
        ) == Ok::<Seq<u8>, SliceFailure>(range),
{
}

/// The verifier adds no rejection of its own: a well-formed request whose
/// slice is extracted, can be decoded, and decodes to exactly the range is
/// verified.
pub proof fn lemma_decoded_means_verified(range: Seq<u8>, offset: u64, outboard: Seq<u8>, root: Seq<u8>, slice: Seq<u8>)
    requires
        request_well_formed(range, offset, outboard, root),
        extracted_slice(range, outboard, offset, SLICE_LEN) == Ok::<Seq<u8>, SliceFailure>(slice),
        slice_decodable(slice),
        decoded_slice(slice, root, offset, SLICE_LEN) == Ok::<Seq<u8>, SliceFailure>(range),
    ensures
        integrity_verdict(range, offset, outboard, root) == Ok::<u8, Error>(VERIFIED),
{
}

} // verus!
