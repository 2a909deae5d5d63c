//! A length-prefixed framing layer for serializable values on byte streams.
//!
//! Each frame on the wire is an 8-byte little-endian length header followed
//! by exactly that many payload bytes; a stream is a plain concatenation of
//! frames with no separators. The payload bytes themselves are produced and
//! consumed by an external binary codec; the framing layer treats them
//! opaquely and only guarantees that a reader recovers exactly the bytes
//! that one write produced.
//!
//! A clean end of stream is not distinguished from a stream truncated in the
//! middle of a frame: both surface as the same I/O error on the header read
//! or on the payload read.

pub mod codec;
pub mod error;
pub mod frame;
pub mod stream;

pub use error::Error;
pub use stream::InputStream;
pub use stream::OutputStream;
