//! A byte-limited view of a stream that is reached through a mutable borrow.
//!
//! [`RefTake`] wraps `&mut R` together with a count of bytes that may still
//! pass. It yields at most that many bytes and then reports end of stream,
//! and when it is dropped the stream is back with its owner, positioned just
//! behind the last byte that the view let through.
//!
//! Streams are described by two capabilities, [`Readable`] and
//! [`BufferedReadable`], whose contracts are stated over the sequence of
//! bytes that a stream has yet to deliver. [`MemoryStream`] is a stream over
//! a byte slice that meets both.
pub mod laws;
pub mod memory;
pub mod stream;
pub mod take;

pub use memory::MemoryStream;
pub use stream::{BufferedReadable, Readable};
pub use take::{RefTake, RefTakeExt};
