//! Storage, streaming and delivery of blobs.
//!
//! A blob is a sequence of bytes that is written once, under the hash of its
//! contents, and read many times, often in part. The modules below hold the
//! decisions of such a store; files, sockets and databases are reached by the
//! application, which carries out the steps that this crate hands it.
pub mod backend;
pub mod blob_access;
pub mod blob_codec;
pub mod blob_get;
pub mod blob_hash;
pub mod blob_id;
pub mod blob_lookup;
pub mod blob_store;
pub mod blob_writer;
pub mod byte_range;
pub mod file_node;
pub mod foreign;
pub mod frame;
pub mod helper_pipe;
pub mod http_request;
pub mod http_response;
pub mod io_error;
pub mod jumbo;
pub mod jumbo_laws;
pub mod jumbo_read_only;
pub mod jumbo_steps;
pub mod jumbo_sync;
pub mod stream;
pub mod stream_laws;
pub mod tape;
pub mod text;
