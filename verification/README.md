# blob_store

The blob storage of a mail server as a verified library: buffers that spill into
temporary files, streams and ranges of blobs, LZ4 blocks and frames, the rules of
the backends, HTTP bodies and responses, and blobs over JMAP.

The functions of `src/` have contracts that Verus proves. Where work has to be
done outside (a file, a socket, a database), the library says what to do next in a
step, and is told the outcome; `app/` carries the steps out with `tokio`, `hyper`,
the database drivers and the cloud clients.

- `src/tape.rs`, `src/byte_range.rs`, `src/text.rs`: the models that the contracts
  are stated over.
- `src/jumbo*.rs`: buffers in memory or in a file, writable, shared and blocking.
- `src/helper_pipe.rs`, `src/frame.rs`: LZ4 frames, piece by piece.
- `src/stream.rs`, `src/stream_laws.rs`: blobs as streams, ranges of them, and
  what whole runs of reads hand out.
- `src/blob_codec.rs`, `src/blob_writer.rs`, `src/blob_store.rs`,
  `src/backend.rs`: how blobs are stored, and where.
- `src/blob_hash.rs`, `src/file_node.rs`: hashes and files.
- `src/http_request.rs`, `src/http_response.rs`: HTTP.
- `src/blob_id.rs`, `src/blob_access.rs`, `src/blob_get.rs`,
  `src/blob_lookup.rs`: who may read a blob, and what clients are answered.
- `src/foreign/`: the outside functions that the library calls, each with what is
  taken to hold of it.

Public proof functions named `law_...` state what holds of several functions
together.
