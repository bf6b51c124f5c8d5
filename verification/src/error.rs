//! The failures that the operations of this crate report.

use vstd::prelude::*;

verus! {

/// `std::io::Error`, the failure that std's readers and writers report. It
/// is only carried, never looked into.
#[verifier::external_type_specification]
#[verifier::external_body]
pub struct ExIoError(std::io::Error);

/// Why an operation did not produce its result.
#[derive(Clone, Copy, Debug, PartialEq, Eq, Structural)]
pub enum Error {
    /// A read from a source or a write into a sink failed.
    Io,
    /// The tree encoder could not produce its root digest.
    EncodeFinalize,
    /// A recomputed hash differs from the one that the tree or the root
    /// digest commits to.
    Verification,
    /// An input has the wrong shape: a digest that is not 32 bytes long,
    /// outboard data of the wrong length, an offset outside the content or
    /// off the grid of slices, a range of the wrong size, or more content
    /// than a digest or a tree is defined for.
    Malformed,
}

} // verus!
