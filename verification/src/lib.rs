//! Content-addressed integrity primitives for byte streams: a whole-stream
//! digest, a tree encoder that produces outboard data and a root digest, and
//! a verifier for one window of the content against both.

pub mod error;
pub mod format;
pub mod stream;
pub mod digest;
pub mod seeker;
pub mod encode;
pub mod verify;

pub use crate::digest::{blake3_digest, hash_blake3};
pub use crate::encode::{hash_bao_file_internal, hash_bao_memory, BaoResult};
pub use crate::error::Error;
pub use crate::seeker::FakeSeeker;
pub use crate::verify::verify_integrity;
