//! Framing of one-message-per-file mail into a single mbox archive.
//!
//! The library holds the rules of the conversion: how a message is framed,
//! which directory entries form a batch, how a batch is cut into chunks and
//! written in order, and which input paths are accepted. Reading and writing
//! files is left to the caller.

pub mod clock;
pub mod delimiter;
pub mod framer;
pub mod error;
pub mod batch;
pub mod writer;
pub mod route;
pub mod report;
