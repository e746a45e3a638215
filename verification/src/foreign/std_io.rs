//! The I/O errors of the standard library.
use vstd::prelude::*;
use crate::io_error::{IoError, IoErrorKind};

verus! {

/// `std::io::Error`.
#[verifier::external_type_specification]
#[verifier::external_body]
pub struct ExIoError(std::io::Error);

/// `std::io::Error::kind` and `to_string`: the error in the crate's own terms.
/// Nothing is said of which kind and which text an error has.
#[verifier::external_body]
pub(crate) fn describe(error: &std::io::Error) -> (described: IoError) {
    let kind = match error.kind() {
        std::io::ErrorKind::BrokenPipe => IoErrorKind::BrokenPipe,
        std::io::ErrorKind::InvalidData => IoErrorKind::InvalidData,
        std::io::ErrorKind::InvalidInput => IoErrorKind::InvalidInput,
        std::io::ErrorKind::NotFound => IoErrorKind::NotFound,
        std::io::ErrorKind::UnexpectedEof => IoErrorKind::UnexpectedEof,
        std::io::ErrorKind::WouldBlock => IoErrorKind::WouldBlock,
        _ => IoErrorKind::Other,
    };
    IoError { kind, message: error.to_string() }
}

/// `std::io::Error::new` with the kind `WouldBlock` and the given text.
#[verifier::external_body]
pub(crate) fn would_block(text: &str) -> (error: std::io::Error) {
    std::io::Error::new(std::io::ErrorKind::WouldBlock, text)
}

} // verus!
