//! The arithmetic of the outboard format: an 8-byte little-endian header
//! that declares the length of the content, then one 64-byte parent node for
//! every chunk of 1024 bytes but the first.

use vstd::prelude::*;

verus! {

/// The length of the header that declares the content's length.
pub const HEADER_LEN: usize = 8;

/// The number of content bytes under one leaf of the tree.
pub const CHUNK_LEN: u64 = 1024;

/// The length of one parent node: the hashes of its two children.
pub const PARENT_LEN: u64 = 64;

/// The width of the window that one verification covers.
pub const SLICE_LEN: u64 = 262144;

/// The longest content that is encoded or verified: 2^63 bytes. A tree over
/// this much content is 53 levels deep, which is as far as the decoder's
/// fixed stack of pending hashes reaches.
pub const MAX_CONTENT_LEN: u64 = 0x8000_0000_0000_0000;

/// The number that `bytes` spell in little-endian order.
pub open spec fn le_value(bytes: Seq<u8>) -> nat
    decreases bytes.len(),
{
    if bytes.len() == 0 {
        0
    } else {
        bytes[0] as nat + 256 * le_value(bytes.drop_first())
    }
}

/// The content length that the header of `encoded` declares.
pub open spec fn declared_len(encoded: Seq<u8>) -> nat {
    le_value(encoded.take(HEADER_LEN as int))
}

/// The number of chunks of a content: one for every started 1024 bytes, and
/// one for the empty content.
pub open spec fn chunk_count(content_len: nat) -> nat {
    if content_len == 0 {
        1
    } else {
        ((content_len + CHUNK_LEN - 1) / (CHUNK_LEN as int)) as nat
    }
}

/// The length of the outboard data of a content.
pub open spec fn outboard_len(content_len: nat) -> nat {
    (HEADER_LEN + (chunk_count(content_len) - 1) * PARENT_LEN) as nat
}

/// Whether a window may start at `offset`: inside the content, or at the
/// start of the empty content.
pub open spec fn offset_in_bounds(content_len: nat, offset: nat) -> bool {
    offset < content_len || (offset == 0 && content_len == 0)
}

/// Whether `offset` is the start of a window: a multiple of the slice width.
pub open spec fn offset_aligned(offset: nat) -> bool {
    offset % (SLICE_LEN as nat) == 0
}

/// The number of content bytes in the window that starts at `offset`: a full
/// slice, or what is left of the content.
pub open spec fn window_len(content_len: nat, offset: nat) -> nat {
    if offset >= content_len {
        0
    } else if content_len - offset < SLICE_LEN {
        (content_len - offset) as nat
    } else {
        SLICE_LEN as nat
    }
}

/// Eight bytes spell a number below 2^64.
pub proof fn lemma_le_value_of_eight(bytes: Seq<u8>)
    requires
        bytes.len() == 8,
    ensures
        le_value(bytes) == bytes[0] + 256 * (bytes[1] + 256 * (bytes[2] + 256 * (bytes[3] + 256 * (
            bytes[4] + 256 * (bytes[5] + 256 * (bytes[6] + 256 * bytes[7])))))),
        le_value(bytes) <= u64::MAX,
{
    let s1 = bytes.drop_first();
    let s2 = s1.drop_first();
    let s3 = s2.drop_first();
    let s4 = s3.drop_first();
    let s5 = s4.drop_first();
    let s6 = s5.drop_first();
    let s7 = s6.drop_first();
    let s8 = s7.drop_first();
    assert(le_value(s8) == 0);
    assert(le_value(s7) == bytes[7] as nat);
    assert(le_value(s6) == bytes[6] + 256 * le_value(s7));
    assert(le_value(s5) == bytes[5] + 256 * le_value(s6));
    assert(le_value(s4) == bytes[4] + 256 * le_value(s5));
    assert(le_value(s3) == bytes[3] + 256 * le_value(s4));
    assert(le_value(s2) == bytes[2] + 256 * le_value(s3));
    assert(le_value(s1) == bytes[1] + 256 * le_value(s2));
    assert(le_value(bytes) == bytes[0] + 256 * le_value(s1));
}

/// The content length that the header of `encoded` declares, where there is
/// a whole header.
pub fn read_declared_len(encoded: &[u8]) -> (len: Option<u64>)
    ensures
        match len {
            Some(n) => encoded@.len() >= HEADER_LEN && n == declared_len(encoded@),
            None => encoded@.len() < HEADER_LEN,
        },
{
    if encoded.len() < HEADER_LEN {
        return None;
    }
    proof {
        let header = encoded@.take(HEADER_LEN as int);
        lemma_le_value_of_eight(header);
        assert(forall|i: int| 0 <= i < 8 ==> header[i] == encoded@[i]);
    }
    let v7: u64 = encoded[7] as u64;
    let v6: u64 = encoded[6] as u64 + 256 * v7;
    let v5: u64 = encoded[5] as u64 + 256 * v6;
    let v4: u64 = encoded[4] as u64 + 256 * v5;
    let v3: u64 = encoded[3] as u64 + 256 * v4;
    let v2: u64 = encoded[2] as u64 + 256 * v3;
    let v1: u64 = encoded[1] as u64 + 256 * v2;
    let v0: u64 = encoded[0] as u64 + 256 * v1;
    Some(v0)
}

/// The number of chunks of a content of `content_len` bytes.
pub fn chunk_count_of(content_len: u64) -> (count: u64)
    ensures
        count == chunk_count(content_len as nat),
        1 <= count <= 0x40_0000_0000_0000,
{
    if content_len == 0 {
        1
    } else {
        let full: u64 = content_len / CHUNK_LEN;
        if content_len % CHUNK_LEN == 0 {
            full
        } else {
            full + 1
        }
    }
}

/// The length of the outboard data of a content of `content_len` bytes.
pub fn outboard_len_of(content_len: u64) -> (len: u64)
    ensures
        len == outboard_len(content_len as nat),
{
    HEADER_LEN as u64 + (chunk_count_of(content_len) - 1) * PARENT_LEN
}

/// The number of content bytes in the window that starts at `offset`.
pub fn window_len_of(content_len: u64, offset: u64) -> (len: u64)
    ensures
        len == window_len(content_len as nat, offset as nat),
        len <= SLICE_LEN,
{
    if offset >= content_len {
        0
    } else if content_len - offset < SLICE_LEN {
        content_len - offset
    } else {
        SLICE_LEN
    }
}

} // verus!
