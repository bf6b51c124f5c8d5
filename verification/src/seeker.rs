//! A forward-only byte source that stands in for a seekable one.
//!
//! The slice extractor asks its content source to seek, but the bytes of a
//! window are only ever consumed front to back. `FakeSeeker` hands its bytes
//! out in order, counts them, and answers every seek with that count without
//! moving.
//!
//! This is right for a reader that is content with the bytes in the order in
//! which they lie, as the extractor is: on its way to a window it asks for
//! the start of each subtree that it passes over, all before its first read,
//! and from the window's start it reads on without a gap. It is wrong for any
//! reader that needs to go back or to skip.

use vstd::prelude::*;

verus! {

/// `std::io::SeekFrom`, the position that a seek asks for.
#[verifier::external_type_specification]
pub struct ExSeekFrom(std::io::SeekFrom);

/// A byte source over a borrowed buffer that only moves forward.
pub struct FakeSeeker<'a> {
    reader: &'a [u8],
    bytes_read: usize,
}

impl<'a> FakeSeeker<'a> {
    #[verifier::type_invariant]
    spec fn well_formed(&self) -> bool {
        self.bytes_read <= self.reader@.len()
    }

    /// All bytes of the underlying buffer.
    pub closed spec fn source(&self) -> Seq<u8> {
        self.reader@
    }

    /// How many bytes have been handed out so far.
    pub closed spec fn position(&self) -> nat {
        self.bytes_read as nat
    }

    /// The bytes that are still to be handed out.
    pub open spec fn unread(&self) -> Seq<u8> {
        self.source().skip(self.position() as int)
    }

    /// A source at the start of `reader`.
    pub fn new(reader: &'a [u8]) -> (seeker: Self)
        ensures
            seeker.source() == reader@,
            seeker.position() == 0,
    {
        FakeSeeker { reader, bytes_read: 0 }
    }

    /// The number of bytes handed out so far.
    pub fn bytes_read(&self) -> (count: u64)
        ensures
            count == self.position(),
    {
        proof {
            use_type_invariant(self);
        }
        self.bytes_read as u64
    }
}

impl<'a> std::io::Read for FakeSeeker<'a> {
    /// Copies the next unread bytes to the front of `buf`, as many as fit,
    /// and advances by that number. Never fails.
    fn read(&mut self, buf: &mut [u8]) -> (result: Result<usize, std::io::Error>)
        ensures
            final(self).source() == old(self).source(),
            result matches Ok(n) && {
                &&& n == vstd::math::min(old(buf)@.len() as int, old(self).unread().len() as int)
                &&& final(self).position() == old(self).position() + n
                &&& final(buf)@ == old(self).unread().take(n as int) + old(buf)@.skip(n as int)
            },
    {
        proof {
            use_type_invariant(&*self);
        }
        let start: usize = self.bytes_read;
        let rest: usize = self.reader.len() - start;
        let n: usize = if buf.len() < rest { buf.len() } else { rest };
        let mut i: usize = 0;
        while i < n
            invariant
                i <= n,
                n <= buf@.len(),
                buf@.len() == old(buf)@.len(),
                start + n <= self.reader@.len(),
                self.reader@.len() <= usize::MAX,
                self.reader@ == old(self).reader@,
                self.bytes_read == start,
                forall|j: int| 0 <= j < i ==> buf@[j] == self.reader@[start + j],
                forall|j: int| i <= j < buf@.len() ==> buf@[j] == old(buf)@[j],
            decreases n - i,
        {
            buf[i] = self.reader[start + i];
            i += 1;
        }
        self.bytes_read = start + n;
        assert(buf@ =~= old(self).unread().take(n as int) + old(buf)@.skip(n as int));
        Ok(n)
    }
}

impl<'a> std::io::Seek for FakeSeeker<'a> {
    /// Leaves the source where it is, whatever position is asked for, and
    /// reports the number of bytes handed out so far.
    fn seek(&mut self, pos: std::io::SeekFrom) -> (result: Result<u64, std::io::Error>)
        ensures
            final(self).source() == old(self).source(),
            final(self).position() == old(self).position(),
            result matches Ok(at) && at == old(self).position(),
    {
        proof {
            use_type_invariant(&*self);
        }
        Ok(self.bytes_read as u64)
    }
}

} // verus!
