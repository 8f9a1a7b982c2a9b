//! A client for version 3 of the SSH file transfer protocol, written without
//! any I/O of its own.
//!
//! The crate holds the wire codec, the table of requests that await a reply,
//! and the typed operations on top of them. A caller feeds it the bytes it
//! read from the server and writes out the frames it gets back.

pub mod attrs;
pub mod error;
pub mod file;
pub mod format;
pub mod requests;
pub mod responses;
pub mod session;
pub mod wire;

pub use attrs::{Extension, FileAttr};
pub use error::{Error, IoError, IoErrorKind};
pub use file::{File, OpenOptions, ReadDir, Seek, SeekFrom};
pub use responses::recv;
pub use session::Client;
