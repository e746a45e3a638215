//! The functions of other crates that this one calls, each with the contract
//! that the rest of the crate relies on.
pub mod arrays;
pub mod bytes_buf;
pub mod digests;
pub mod encodings;
pub mod headers;
pub mod json;
pub mod lz4;
pub mod percent;
pub mod std_io;
