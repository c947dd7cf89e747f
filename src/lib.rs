//! Compressed tape-archive containers.
//!
//! An archive is a tar stream; a container wraps it in LZ4. The in-memory
//! container is the LZ4 block of the whole stream behind a little-endian
//! `u32` holding the stream's length. Its encoding and decoding live in
//! [`container`], with the laws that relate them; [`plan`] says how each
//! input path goes into the stream.

pub mod container;
pub mod plan;

pub use container::{decode_memory_container, encode_memory_container, ContainerError};
pub use plan::{plan_appends, AppendStep};
