//! How clients refer to blobs.
use vstd::prelude::*;
use crate::blob_hash::BlobHash;

verus! {

/// The collections that a blob can be linked to, as far as they are told apart.
#[derive(Clone, Copy, Debug, PartialEq, Eq, Structural)]
pub enum Collection {
    Email,
    FileNode,
    ContactCard,
    CalendarEvent,
    Other(u8),
}

/// Why a blob is kept.
#[derive(Clone, Copy, Debug, PartialEq, Eq, Structural)]
pub enum BlobClass {
    /// A document refers to it.
    Linked { account_id: u32, collection: Collection, document_id: u32 },
    /// An account may still use it.
    Reserved { account_id: u32, expires: u64 },
}

/// A part of a blob, and how it is encoded there.
#[derive(Clone, Copy, Debug, PartialEq, Eq, Structural)]
pub struct BlobSection {
    pub offset_start: usize,
    pub size: usize,
    pub encoding: u8,
}

/// A blob, or a part of one.
#[derive(Clone, Copy, Debug)]
pub struct BlobId {
    pub hash: BlobHash,
    pub class: BlobClass,
    pub section: Option<BlobSection>,
}

} // verus!
