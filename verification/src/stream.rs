//! Streams as the sequence of reads that a source answers with.
//!
//! A source is read into a buffer again and again until a read comes back
//! empty. Only the bytes delivered before that matter, not how they were cut.

use vstd::prelude::*;

verus! {

/// The views of the pieces that were read.
pub open spec fn pieces(reads: Seq<Vec<u8>>) -> Seq<Seq<u8>> {
    Seq::new(reads.len(), |i: int| reads[i]@)
}

/// The bytes that a source delivers: its reads joined in order, up to the
/// first empty read or, where there is none, up to the last read.
pub open spec fn stream_content(reads: Seq<Seq<u8>>) -> Seq<u8>
    decreases reads.len(),
{
    if reads.len() == 0 || reads[0].len() == 0 {
        Seq::empty()
    } else {
        reads[0] + stream_content(reads.drop_first())
    }
}

/// The reads with which a source answers a reader whose buffer holds `width`
/// bytes: full buffers, then what is left, then the empty read.
pub open spec fn buffered_reads(content: Seq<u8>, width: nat) -> Seq<Seq<u8>>
    decreases content.len(),
{
    if content.len() == 0 || width == 0 {
        seq![Seq::empty()]
    } else if content.len() <= width {
        seq![content, Seq::empty()]
    } else {
        seq![content.take(width as int)] + buffered_reads(content.skip(width as int), width)
    }
}

/// A stream whose next read is empty, or that has no next read, delivers
/// nothing more.
pub proof fn lemma_stream_ends(reads: Seq<Seq<u8>>, at: int)
    requires
        0 <= at <= reads.len(),
        at == reads.len() || reads[at].len() == 0,
    ensures
        stream_content(reads.skip(at)) == Seq::<u8>::empty(),
{
}

/// A stream whose next read is not empty delivers that read and then what
/// the reads after it deliver.
pub proof fn lemma_stream_step(reads: Seq<Seq<u8>>, at: int)
    requires
        0 <= at < reads.len(),
        reads[at].len() > 0,
    ensures
        stream_content(reads.skip(at)) == reads[at] + stream_content(reads.skip(at + 1)),
{
    assert(reads.skip(at).drop_first() == reads.skip(at + 1));
}

/// Whatever the size of the buffer, reading delivers exactly the content.
pub proof fn lemma_buffering_preserves_content(content: Seq<u8>, width: nat)
    requires
        width > 0,
    ensures
        stream_content(buffered_reads(content, width)) == content,
    decreases content.len(),
{
    let reads = buffered_reads(content, width);
    if content.len() == 0 {
        assert(content == Seq::<u8>::empty());
    } else if content.len() <= width {
        let rest = reads.drop_first();
        assert(rest == seq![Seq::<u8>::empty()]);
        assert(stream_content(rest) == Seq::<u8>::empty());
        assert(content + Seq::<u8>::empty() == content);
    } else {
        let head = content.take(width as int);
        let tail = content.skip(width as int);
        lemma_buffering_preserves_content(tail, width);
        assert(reads.drop_first() == buffered_reads(tail, width));
        assert(reads[0] == head);
        assert(head + tail == content);
    }
}

} // verus!
