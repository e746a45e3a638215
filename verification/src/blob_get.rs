//! Answering requests for the properties of blobs.
use vstd::prelude::*;
use crate::blob_access::AccessStep;
use crate::blob_id::BlobId;
use crate::byte_range::ByteRange;
use crate::foreign::digests;
use crate::foreign::digests::{
    sha1_finish, sha1_start, sha1_update, sha256_finish, sha256_start, sha256_update, sha512_finish,
    sha512_start, sha512_update, Sha1State, Sha256State, Sha512State,
};
use crate::foreign::encodings;
use crate::foreign::encodings::{to_base64, to_text};
use crate::tape;

verus! {

/// A digest of a blob.
#[derive(Clone, Copy, Debug, PartialEq, Eq, Structural)]
pub enum DigestProperty {
    Sha,
    Sha256,
    Sha512,
}

/// A form of a blob's contents.
#[derive(Clone, Copy, Debug, PartialEq, Eq, Structural)]
pub enum DataProperty {
    AsText,
    AsBase64,
    /// Text if the contents are one, base64 otherwise.
    Either,
}

/// A property of a blob.
#[derive(Clone, Copy, Debug, PartialEq, Eq, Structural)]
pub enum BlobProperty {
    Id,
    Size,
    Digest(DigestProperty),
    Data(DataProperty),
    IsTruncated,
    IsEncodingProblem,
}

/// The value of a property.
#[derive(Debug)]
pub enum BlobValue {
    BlobId(BlobId),
    Number(u64),
    Text(String),
    Bool(bool),
    Null,
}

/// What a value says.
pub enum ValueView {
    BlobId(BlobId),
    Number(nat),
    Text(Seq<char>),
    Bool(bool),
    Null,
}

impl View for BlobValue {
    type V = ValueView;

    open spec fn view(&self) -> ValueView {
        match self {
            BlobValue::BlobId(id) => ValueView::BlobId(*id),
            BlobValue::Number(n) => ValueView::Number(*n as nat),
            BlobValue::Text(text) => ValueView::Text(text@),
            BlobValue::Bool(b) => ValueView::Bool(*b),
            BlobValue::Null => ValueView::Null,
        }
    }
}

/// How much of a blob is needed to answer a request.
#[derive(Clone, Copy, Debug, PartialEq, Eq, Structural)]
pub enum BlobDataRequest {
    Nothing,
    /// The contents, to be read once.
    Hash,
    /// The contents, all at once.
    Contents,
}

/// The properties that are returned where a request names none.
pub fn default_properties() -> (properties: Vec<BlobProperty>)
    ensures
        properties@ == seq![
            BlobProperty::Id,
            BlobProperty::Data(DataProperty::Either),
            BlobProperty::Size,
        ],
{
    let mut properties: Vec<BlobProperty> = Vec::new();
    properties.push(BlobProperty::Id);
    properties.push(BlobProperty::Data(DataProperty::Either));
    properties.push(BlobProperty::Size);
    properties
}

/// Whether any form of the contents is asked for.
pub open spec fn asks_for_data(properties: Seq<BlobProperty>) -> bool {
    exists|i: int| 0 <= i < properties.len() && #[trigger] properties[i] is Data
}

/// Whether any digest is asked for.
pub open spec fn asks_for_digest(properties: Seq<BlobProperty>) -> bool {
    exists|i: int| 0 <= i < properties.len() && #[trigger] properties[i] is Digest
}

/// Whether the given digest is asked for.
pub open spec fn asks_for(properties: Seq<BlobProperty>, digest: DigestProperty) -> bool {
    exists|i: int| 0 <= i < properties.len() && #[trigger] properties[i] == BlobProperty::Digest(digest)
}

/// How much of a blob is needed for the given properties.
pub open spec fn data_needed(properties: Seq<BlobProperty>) -> BlobDataRequest {
    if asks_for_data(properties) {
        BlobDataRequest::Contents
    } else if asks_for_digest(properties) {
        BlobDataRequest::Hash
    } else {
        BlobDataRequest::Nothing
    }
}

/// How much of a blob is needed for the given properties.
pub fn requested_data(properties: &[BlobProperty]) -> (requested: BlobDataRequest)
    ensures
        requested == data_needed(properties@),
{
    let mut requested = BlobDataRequest::Nothing;
    let mut i: usize = 0;
    while i < properties.len()
        invariant
            i <= properties@.len(),
            requested == if exists|j: int| 0 <= j < i && #[trigger] properties@[j] is Digest {
                BlobDataRequest::Hash
            } else {
                BlobDataRequest::Nothing
            },
            forall|j: int| 0 <= j < i ==> !(#[trigger] properties@[j] is Data),
        decreases properties@.len() - i,
    {
        match properties[i] {
            BlobProperty::Data(_) => {
                assert(properties@[i as int] is Data);
                return BlobDataRequest::Contents;
            },
            BlobProperty::Digest(_) => {
                assert(properties@[i as int] is Digest);
                requested = BlobDataRequest::Hash;
            },
            _ => {
                assert(!(properties@[i as int] is Digest));
            },
        }
        i = i + 1;
    }
    requested
}

/// The range of a blob that a request means.
pub open spec fn requested_range(offset: Option<usize>, length: Option<usize>) -> ByteRange {
    let start = match offset {
        Some(offset) => offset as u64,
        None => 0,
    };
    ByteRange {
        start,
        end: match length {
            Some(length) => if start + length > u64::MAX {
                u64::MAX
            } else {
                (start + length) as u64
            },
            None => u64::MAX,
        },
    }
}

/// Why a request is not answered.
#[derive(Clone, Copy, Debug, PartialEq, Eq, Structural)]
pub enum BlobGetError {
    /// The contents are too large to be part of an answer.
    RequestTooLarge,
}

impl BlobGetError {
    /// What the client is told.
    pub fn details(&self) -> (details: &'static str)
        ensures
            details@ == "Blob content is too large to serve inline. Use the download endpoint or request a smaller range."@,
    {
        "Blob content is too large to serve inline. Use the download endpoint or request a smaller range."
    }
}

/// What has to be done for the entry of a blob.
#[derive(Clone, Copy, Debug, PartialEq, Eq, Structural)]
pub enum EntryStep {
    /// Nothing: there is no blob that the client may know of.
    NotFound,
    /// Nothing: the entry needs no contents.
    Build,
    /// Read this range of the blob, all at once.
    ReadContents(ByteRange),
    /// Read this range of the blob, piece by piece.
    ReadStream(ByteRange),
}

/// The number of bytes of a blob of the given length that a range selects.
pub open spec fn served(length: u64, range: ByteRange) -> nat {
    let to = if length < range.end {
        length
    } else {
        range.end
    };
    if range.start <= to {
        (to - range.start) as nat
    } else {
        0
    }
}

/// The number of bytes that all blobs together contribute to an answer.
pub open spec fn total_served(lengths: Seq<Option<u64>>, range: ByteRange) -> nat
    decreases lengths.len(),
{
    if lengths.len() == 0 {
        0
    } else {
        total_served(lengths.drop_last(), range) + match lengths.last() {
            Some(length) => served(length, range),
            None => 0,
        }
    }
}

/// How to find out the length of a blob.
#[derive(Clone, Copy, Debug, PartialEq, Eq, Structural)]
pub enum LengthQuery {
    /// Ask this first, to decide whether the client may read the blob.
    Ask(AccessStep),
    /// Ask the store for the length of the blob.
    ReadLength,
    /// Nothing is left to ask: go on with the next blob.
    NextBlob,
}

/// A request for the properties of some blobs.
#[derive(Debug)]
pub struct BlobGet {
    pub range: ByteRange,
    pub requested: BlobDataRequest,
    /// The number of bytes of contents that an answer may hold.
    pub max_size: u64,
    pub buffered: u64,
    /// The lengths of the blobs, as far as the client may know of them.
    pub lengths: Vec<Option<u64>>,
}

/// Whether nothing is known yet about the blobs of a request.
pub open spec fn get_begins(
    get: BlobGet,
    properties: Seq<BlobProperty>,
    offset: Option<usize>,
    length: Option<usize>,
    max_size: u64,
) -> bool {
    &&& get.well_formed()
    &&& get.range == requested_range(offset, length)
    &&& get.max_size == max_size
    &&& get.lengths@.len() == 0
    &&& get.requested == data_needed(properties)
}

/// What becomes of a request when it is known whether the client may read the next blob.
pub open spec fn learns_access(
    before: BlobGet,
    after: BlobGet,
    access: AccessStep,
    step: LengthQuery,
) -> bool {
    &&& after.well_formed()
    &&& match access {
        AccessStep::Granted => {
            &&& step == LengthQuery::ReadLength
            &&& after == before
        },
        AccessStep::Denied => {
            &&& step == LengthQuery::NextBlob
            &&& takes_length(before, after, None, false)
        },
        _ => {
            &&& step == LengthQuery::Ask(access)
            &&& after == before
        },
    }
}

impl BlobGet {
    /// The contents that were let through are counted, and are not too many.
    pub open spec fn well_formed(self) -> bool {
        &&& self.requested == BlobDataRequest::Contents ==> {
            &&& self.buffered == tape::min_nat(
                total_served(self.lengths@, self.range),
                u64::MAX as nat,
            )
            &&& self.buffered <= self.max_size
        }
        &&& self.requested != BlobDataRequest::Contents ==> self.buffered == 0
    }

    /// Begins to answer a request.
    pub fn blob_get(
        properties: &[BlobProperty],
        offset: Option<usize>,
        length: Option<usize>,
        max_size: u64,
    ) -> (get: BlobGet)
        ensures
            get_begins(get, properties@, offset, length, max_size),
    {
        let start: u64 = match offset {
            Some(offset) => offset as u64,
            None => 0,
        };
        let end: u64 = match length {
            Some(length) => start.saturating_add(length as u64),
            None => u64::MAX,
        };
        BlobGet {
            range: ByteRange::new(start, end),
            requested: requested_data(properties),
            max_size,
            buffered: 0,
            lengths: Vec::new(),
        }
    }

    /// Takes in whether the client may read the next blob, and says how to go on. Of
    /// a blob that the client may not read no length is known.
    pub fn access_known(&mut self, access: AccessStep) -> (step: LengthQuery)
        requires
            old(self).well_formed(),
        ensures
            learns_access(*old(self), *final(self), access, step),
    {
        match access {
            AccessStep::Granted => LengthQuery::ReadLength,
            AccessStep::Denied => {
                proof {
                    assert(self.lengths@.push(None).drop_last() =~= self.lengths@);
                }
                self.lengths.push(None);
                LengthQuery::NextBlob
            },
            _ => LengthQuery::Ask(access),
        }
    }

    /// Takes in the length of the next blob, or that there is no such blob. A request
    /// is refused as soon as its contents become too large.
    pub fn length_known(&mut self, length: Option<u64>) -> (result: Result<(), BlobGetError>)
        requires
            old(self).well_formed(),
        ensures
            result is Ok ==> final(self).well_formed(),
            takes_length(*old(self), *final(self), length, result is Err),
    {
        proof {
            assert(self.lengths@.push(length).drop_last() =~= self.lengths@);
        }
        if let Some(length) = length {
            match self.requested {
                BlobDataRequest::Contents => {
                    let to: u64 = if length < self.range.end {
                        length
                    } else {
                        self.range.end
                    };
                    self.buffered = self.buffered.saturating_add(
                        to.saturating_sub(self.range.start),
                    );
                    if self.buffered > self.max_size {
                        return Err(BlobGetError::RequestTooLarge);
                    }
                },
                _ => {},
            }
        }
        self.lengths.push(length);
        Ok(())
    }

    /// What has to be done for the entry of a blob of the given length.
    pub open spec fn entry_need(self, length: Option<u64>) -> EntryStep {
        match length {
            None => EntryStep::NotFound,
            Some(_) => match self.requested {
                BlobDataRequest::Nothing => EntryStep::Build,
                BlobDataRequest::Hash => EntryStep::ReadStream(self.range),
                BlobDataRequest::Contents => EntryStep::ReadContents(self.range),
            },
        }
    }

    /// What has to be done for the entry of the blob at `index`.
    pub fn entry_step(&self, index: usize) -> (step: EntryStep)
        requires
            index < self.lengths@.len(),
        ensures
            step == self.entry_need(self.lengths@[index as int]),
    {
        match self.lengths[index] {
            None => EntryStep::NotFound,
            Some(_) => match self.requested {
                BlobDataRequest::Nothing => EntryStep::Build,
                BlobDataRequest::Hash => EntryStep::ReadStream(self.range),
                BlobDataRequest::Contents => EntryStep::ReadContents(self.range),
            },
        }
    }
}

/// Whether the contents of blobs of these lengths are too large to be part of an
/// answer. They are not counted beyond 64 bits.
pub open spec fn are_too_large(get: BlobGet, lengths: Seq<Option<u64>>) -> bool {
    &&& get.requested == BlobDataRequest::Contents
    &&& tape::min_nat(total_served(lengths, get.range), u64::MAX as nat) > get.max_size
}

/// How the length of the next blob, or that there is none that the client may know of,
/// is taken in.
pub open spec fn takes_length(
    before: BlobGet,
    after: BlobGet,
    length: Option<u64>,
    refused: bool,
) -> bool {
    &&& after.range == before.range
    &&& after.requested == before.requested
    &&& after.max_size == before.max_size
    &&& refused <==> length is Some && are_too_large(before, before.lengths@.push(length))
    &&& after.lengths@ == if refused {
        before.lengths@
    } else {
        before.lengths@.push(length)
    }
}

/// Whether the lengths of blobs are taken in one after the other, up to the last or to
/// the first that is refused.
pub open spec fn length_run(
    gets: Seq<BlobGet>,
    lengths: Seq<Option<u64>>,
    refused: bool,
) -> bool {
    &&& 1 <= gets.len() <= lengths.len() + 1
    &&& gets.len() == lengths.len() + 1 || refused
    &&& refused ==> gets.len() > 1
    &&& gets[0].well_formed()
    &&& gets[0].lengths@.len() == 0
    &&& forall|k: int|
        0 <= k < gets.len() - 1 ==> takes_length(
            gets[k],
            gets[k + 1],
            #[trigger] lengths[k],
            refused && k == gets.len() - 2,
        )
}

/// More blobs have no fewer bytes.
proof fn lemma_total_grows(lengths: Seq<Option<u64>>, n: int, range: ByteRange)
    requires
        0 <= n <= lengths.len(),
    ensures
        total_served(lengths.take(n), range) <= total_served(lengths, range),
    decreases lengths.len(),
{
    if n == lengths.len() {
        assert(lengths.take(n) =~= lengths);
    } else {
        lemma_total_grows(lengths.drop_last(), n, range);
        assert(lengths.drop_last().take(n) =~= lengths.take(n));
    }
}

/// As long as nothing is refused, the lengths are kept in order, and are not too large.
proof fn lemma_lengths_are_kept(gets: Seq<BlobGet>, lengths: Seq<Option<u64>>, n: int)
    requires
        0 <= n < gets.len(),
        n <= lengths.len(),
        gets[0].well_formed(),
        gets[0].lengths@.len() == 0,
        forall|k: int| 0 <= k < n ==> takes_length(gets[k], gets[k + 1], #[trigger] lengths[k], false),
    ensures
        gets[n].range == gets[0].range,
        gets[n].requested == gets[0].requested,
        gets[n].max_size == gets[0].max_size,
        gets[n].lengths@ == lengths.take(n),
        !are_too_large(gets[0], lengths.take(n)),
    decreases n,
{
    if n == 0 {
        assert(gets[0].lengths@ =~= lengths.take(0));
    } else {
        lemma_lengths_are_kept(gets, lengths, n - 1);
        assert(takes_length(gets[n - 1], gets[n], lengths[n - 1], false));
        assert(lengths.take(n - 1).push(lengths[n - 1]) =~= lengths.take(n));
        assert(lengths.take(n).drop_last() =~= lengths.take(n - 1));
    }
}

/// A request is refused just when the contents of all its blobs together are too large.
/// Otherwise the length of every blob is known, in order.
pub proof fn law_lengths_are_known(gets: Seq<BlobGet>, lengths: Seq<Option<u64>>, refused: bool)
    requires
        length_run(gets, lengths, refused),
    ensures
        refused <==> are_too_large(gets[0], lengths),
        !refused ==> gets.last().lengths@ == lengths,
        gets.last().range == gets[0].range,
        gets.last().requested == gets[0].requested,
{
    let n = gets.len() - 1;
    if refused {
        lemma_lengths_are_kept(gets, lengths, n - 1);
        assert(takes_length(gets[n - 1], gets[n], lengths[n - 1], true));
        assert(lengths.take(n - 1).push(lengths[n - 1]) =~= lengths.take(n));
        lemma_total_grows(lengths, n, gets[0].range);
    } else {
        lemma_lengths_are_kept(gets, lengths, n);
        assert(lengths.take(n) =~= lengths);
    }
}

/// An answer holds no more contents than it may.
pub proof fn law_contents_are_bounded(get: BlobGet)
    requires
        get.well_formed(),
        get.requested == BlobDataRequest::Contents,
        get.max_size < u64::MAX,
    ensures
        total_served(get.lengths@, get.range) <= get.max_size,
{
}

/// The number of bytes that a blob contributes is the number that its range
/// selects.
pub proof fn law_served_is_selected(data: Seq<u8>, range: ByteRange)
    requires
        data.len() <= u64::MAX,
    ensures
        served(data.len() as u64, range) == range.select(data).len(),
{
}

/// The digests of a blob, taken together while it is read once.
pub struct Hashers {
    sha1: Option<Sha1State>,
    sha256: Option<Sha256State>,
    sha512: Option<Sha512State>,
}

/// What becomes of digests when the next piece of a blob was read.
#[verifier::opaque]
pub open spec fn hashers_read_on(
    before: Hashers,
    after: Hashers,
    bytes: Seq<u8>,
) -> bool {
    &&& forall|digest: DigestProperty| #[trigger]
        after.takes(digest) == before.takes(digest)
    &&& forall|data: Seq<u8>| #[trigger]
        before.has_read(data) ==> after.has_read(data + bytes)
}

impl Hashers {
    /// Whether the given digest is taken.
    pub closed spec fn takes(self, digest: DigestProperty) -> bool {
        match digest {
            DigestProperty::Sha => self.sha1 is Some,
            DigestProperty::Sha256 => self.sha256 is Some,
            DigestProperty::Sha512 => self.sha512 is Some,
        }
    }

    /// Whether `data` is what was read so far.
    pub closed spec fn has_read(self, data: Seq<u8>) -> bool {
        &&& self.sha1 matches Some(state) ==> digests::sha1_absorbed(state) == data
        &&& self.sha256 matches Some(state) ==> digests::sha256_absorbed(state) == data
        &&& self.sha512 matches Some(state) ==> digests::sha512_absorbed(state) == data
    }

    /// The digests that the given properties need.
    pub fn new(properties: &[BlobProperty]) -> (hashers: Hashers)
        ensures
            hashers.has_read(Seq::empty()),
            forall|digest: DigestProperty| #[trigger]
                hashers.takes(digest) == asks_for(properties@, digest),
    {
        let mut hashers = Hashers { sha1: None, sha256: None, sha512: None };
        let mut i: usize = 0;
        while i < properties.len()
            invariant
                i <= properties@.len(),
                hashers.has_read(Seq::empty()),
                forall|digest: DigestProperty| #[trigger]
                    hashers.takes(digest) == asks_for(properties@.take(i as int), digest),
            decreases properties@.len() - i,
        {
            let ghost before = hashers;
            proof {
                assert forall|digest: DigestProperty| #[trigger]
                    asks_for(properties@.take(i + 1), digest) == (asks_for(
                        properties@.take(i as int),
                        digest,
                    ) || properties@[i as int] == BlobProperty::Digest(digest)) by {
                    let shorter = properties@.take(i as int);
                    let longer = properties@.take(i + 1);
                    if asks_for(shorter, digest) {
                        let j = choose|j: int|
                            0 <= j < shorter.len() && #[trigger] shorter[j]
                                == BlobProperty::Digest(digest);
                        assert(longer[j] == BlobProperty::Digest(digest));
                    }
                    if properties@[i as int] == BlobProperty::Digest(digest) {
                        assert(longer[i as int] == BlobProperty::Digest(digest));
                    }
                    if asks_for(longer, digest) {
                        let j = choose|j: int|
                            0 <= j < longer.len() && #[trigger] longer[j] == BlobProperty::Digest(
                                digest,
                            );
                        if j < i {
                            assert(shorter[j] == BlobProperty::Digest(digest));
                        }
                    }
                }
            }
            match properties[i] {
                BlobProperty::Digest(DigestProperty::Sha) => {
                    hashers.sha1 = Some(sha1_start());
                },
                BlobProperty::Digest(DigestProperty::Sha256) => {
                    hashers.sha256 = Some(sha256_start());
                },
                BlobProperty::Digest(DigestProperty::Sha512) => {
                    hashers.sha512 = Some(sha512_start());
                },
                _ => {},
            }
            proof {
                assert forall|digest: DigestProperty| #[trigger]
                    hashers.takes(digest) == asks_for(properties@.take(i + 1), digest) by {
                    assert(before.takes(digest) == asks_for(properties@.take(i as int), digest));
                }
            }
            i = i + 1;
        }
        assert(properties@.take(i as int) =~= properties@);
        hashers
    }

    /// Takes in the next piece of the blob.
    pub fn update(&mut self, bytes: &[u8])
        ensures
            hashers_read_on(*old(self), *final(self), bytes@),
    {
        reveal(hashers_read_on);
        if let Some(state) = &mut self.sha1 {
            sha1_update(state, bytes);
        }
        if let Some(state) = &mut self.sha256 {
            sha256_update(state, bytes);
        }
        if let Some(state) = &mut self.sha512 {
            sha512_update(state, bytes);
        }
    }

    /// The given digest of what was read, in base64.
    pub fn digest(&self, digest: DigestProperty) -> (text: String)
        requires
            self.takes(digest),
        ensures
            forall|data: Seq<u8>| #[trigger]
                self.has_read(data) ==> text@ == digest_text(digest, data),
    {
        match digest {
            DigestProperty::Sha => match &self.sha1 {
                Some(state) => to_base64(sha1_finish(state).as_slice()),
                None => String::new(),
            },
            DigestProperty::Sha256 => match &self.sha256 {
                Some(state) => to_base64(sha256_finish(state).as_slice()),
                None => String::new(),
            },
            DigestProperty::Sha512 => match &self.sha512 {
                Some(state) => to_base64(sha512_finish(state).as_slice()),
                None => String::new(),
            },
        }
    }
}

/// The given digest of `data`, in base64.
pub open spec fn digest_text(digest: DigestProperty, data: Seq<u8>) -> Seq<char> {
    encodings::base64_text(
        match digest {
            DigestProperty::Sha => digests::sha1_digest(data),
            DigestProperty::Sha256 => digests::sha256_digest(data),
            DigestProperty::Sha512 => digests::sha512_digest(data),
        },
    )
}

/// Whether a range reaches beyond a blob: it does not begin in it, or does not
/// end in it if it has an end.
pub open spec fn is_truncated(range: ByteRange, length: u64) -> bool {
    if range.end == u64::MAX {
        range.start > length
    } else {
        range.end > length
    }
}

/// What an entry says about one property: `data` is what the range selects.
pub open spec fn property_entries(
    property: BlobProperty,
    id: BlobId,
    length: u64,
    data: Seq<u8>,
) -> Seq<(BlobProperty, ValueView)> {
    match property {
        BlobProperty::Id => seq![(property, ValueView::BlobId(id))],
        BlobProperty::Size => seq![(property, ValueView::Number(length as nat))],
        BlobProperty::Digest(digest) => seq![
            (property, ValueView::Text(digest_text(digest, data))),
        ],
        BlobProperty::Data(DataProperty::AsText) => if vstd::utf8::valid_utf8(data) {
            seq![(property, ValueView::Text(vstd::utf8::decode_utf8(data)))]
        } else {
            seq![
                (BlobProperty::IsEncodingProblem, ValueView::Bool(true)),
                (property, ValueView::Null),
            ]
        },
        BlobProperty::Data(DataProperty::AsBase64) => seq![
            (property, ValueView::Text(encodings::base64_text(data))),
        ],
        BlobProperty::Data(DataProperty::Either) => if vstd::utf8::valid_utf8(data) {
            seq![
                (
                    BlobProperty::Data(DataProperty::AsText),
                    ValueView::Text(vstd::utf8::decode_utf8(data)),
                ),
            ]
        } else {
            seq![
                (BlobProperty::IsEncodingProblem, ValueView::Bool(true)),
                (
                    BlobProperty::Data(DataProperty::AsBase64),
                    ValueView::Text(encodings::base64_text(data)),
                ),
            ]
        },
        _ => seq![(property, ValueView::Null)],
    }
}

/// What an entry says about the given properties, in order.
pub open spec fn all_entries(
    properties: Seq<BlobProperty>,
    id: BlobId,
    length: u64,
    data: Seq<u8>,
) -> Seq<(BlobProperty, ValueView)>
    decreases properties.len(),
{
    if properties.len() == 0 {
        Seq::empty()
    } else {
        all_entries(properties.drop_last(), id, length, data) + property_entries(
            properties.last(),
            id,
            length,
            data,
        )
    }
}

/// What an entry says: first, whether the range reached beyond the blob.
pub open spec fn entry(
    properties: Seq<BlobProperty>,
    id: BlobId,
    length: u64,
    range: ByteRange,
    data: Seq<u8>,
) -> Seq<(BlobProperty, ValueView)> {
    (if is_truncated(range, length) {
        seq![(BlobProperty::IsTruncated, ValueView::Bool(true))]
    } else {
        Seq::empty()
    }) + all_entries(properties, id, length, data)
}

/// The properties and values of a list.
pub open spec fn entry_views(list: Seq<(BlobProperty, BlobValue)>) -> Seq<
    (BlobProperty, ValueView),
> {
    list.map_values(|e: (BlobProperty, BlobValue)| (e.0, e.1@))
}

/// Adds a property to an entry.
fn push_entry(list: &mut Vec<(BlobProperty, BlobValue)>, property: BlobProperty, value: BlobValue)
    ensures
        entry_views(final(list)@) == entry_views(old(list)@).push((property, value@)),
{
    list.push((property, value));
    assert(entry_views(list@) =~= entry_views(old(list)@).push((property, value@)));
}

/// Adds what an entry says about one property.
fn push_property(
    list: &mut Vec<(BlobProperty, BlobValue)>,
    property: BlobProperty,
    id: &BlobId,
    length: u64,
    contents: Option<&[u8]>,
    hashers: &Hashers,
)
    requires
        property matches BlobProperty::Digest(digest) ==> hashers.takes(digest),
        property is Data ==> contents is Some,
    ensures
        forall|data: Seq<u8>|
            (contents matches Some(bytes) ==> bytes@ == data) && #[trigger] hashers.has_read(data)
                ==> entry_views(final(list)@) == entry_views(old(list)@) + property_entries(
                property,
                *id,
                length,
                data,
            ),
{
    let ghost before = entry_views(list@);
    match property {
        BlobProperty::Id => {
            push_entry(list, property, BlobValue::BlobId(*id));
        },
        BlobProperty::Size => {
            push_entry(list, property, BlobValue::Number(length));
        },
        BlobProperty::Digest(digest) => {
            push_entry(list, property, BlobValue::Text(hashers.digest(digest)));
        },
        BlobProperty::Data(form) => {
            if let Some(bytes) = contents {
                match form {
                    DataProperty::AsText => match to_text(bytes) {
                        Some(text) => {
                            push_entry(list, property, BlobValue::Text(text));
                        },
                        None => {
                            push_entry(list, BlobProperty::IsEncodingProblem, BlobValue::Bool(true));
                            push_entry(list, property, BlobValue::Null);
                        },
                    },
                    DataProperty::AsBase64 => {
                        push_entry(list, property, BlobValue::Text(to_base64(bytes)));
                    },
                    DataProperty::Either => match to_text(bytes) {
                        Some(text) => {
                            push_entry(
                                list,
                                BlobProperty::Data(DataProperty::AsText),
                                BlobValue::Text(text),
                            );
                        },
                        None => {
                            push_entry(list, BlobProperty::IsEncodingProblem, BlobValue::Bool(true));
                            push_entry(
                                list,
                                BlobProperty::Data(DataProperty::AsBase64),
                                BlobValue::Text(to_base64(bytes)),
                            );
                        },
                    },
                }
            }
        },
        _ => {
            push_entry(list, property, BlobValue::Null);
        },
    }
    proof {
        assert forall|data: Seq<u8>|
            (contents matches Some(bytes) ==> bytes@ == data) && #[trigger] hashers.has_read(
                data,
            ) implies entry_views(list@) == before + property_entries(
            property,
            *id,
            length,
            data,
        ) by {
            assert(entry_views(list@) =~= before + property_entries(property, *id, length, data));
        }
    }
}

/// Makes the entry of a blob, from its length, what the range selects of it where
/// that was read all at once, and its digests.
pub fn build_entry(
    properties: &[BlobProperty],
    id: &BlobId,
    length: u64,
    range: ByteRange,
    contents: Option<&[u8]>,
    hashers: &Hashers,
) -> (list: Vec<(BlobProperty, BlobValue)>)
    requires
        forall|digest: DigestProperty|
            asks_for(properties@, digest) ==> #[trigger] hashers.takes(digest),
        asks_for_data(properties@) ==> contents is Some,
    ensures
        forall|data: Seq<u8>|
            (contents matches Some(bytes) ==> bytes@ == data) && #[trigger] hashers.has_read(data)
                ==> entry_views(list@) == entry(properties@, *id, length, range, data),
{
    let mut list: Vec<(BlobProperty, BlobValue)> = Vec::new();
    assert(entry_views(list@) =~= Seq::empty());
    let truncated: bool = if range.end == u64::MAX {
        range.start > length
    } else {
        range.end > length
    };
    if truncated {
        push_entry(&mut list, BlobProperty::IsTruncated, BlobValue::Bool(true));
    }
    let ghost head = entry_views(list@);
    assert(head =~= if is_truncated(range, length) {
        seq![(BlobProperty::IsTruncated, ValueView::Bool(true))]
    } else {
        Seq::empty()
    });
    let mut i: usize = 0;
    assert forall|data: Seq<u8>| #[trigger] hashers.has_read(data) implies entry_views(list@)
        == head + all_entries(properties@.take(0), *id, length, data) by {
        assert(head + all_entries(properties@.take(0), *id, length, data) =~= head);
    }
    while i < properties.len()
        invariant
            i <= properties@.len(),
            forall|digest: DigestProperty|
                asks_for(properties@, digest) ==> #[trigger] hashers.takes(digest),
            asks_for_data(properties@) ==> contents is Some,
            forall|data: Seq<u8>|
                (contents matches Some(bytes) ==> bytes@ == data) && #[trigger] hashers.has_read(
                    data,
                ) ==> entry_views(list@) == head + all_entries(
                    properties@.take(i as int),
                    *id,
                    length,
                    data,
                ),
        decreases properties@.len() - i,
    {
        let ghost before = entry_views(list@);
        assert(properties@[i as int] is Data ==> asks_for_data(properties@));
        assert(properties@[i as int] matches BlobProperty::Digest(digest) ==> asks_for(
            properties@,
            digest,
        ));
        push_property(&mut list, properties[i], id, length, contents, hashers);
        proof {
            assert(properties@.take(i + 1).drop_last() =~= properties@.take(i as int));
            assert forall|data: Seq<u8>|
                (contents matches Some(bytes) ==> bytes@ == data) && #[trigger] hashers.has_read(
                    data,
                ) implies entry_views(list@) == head + all_entries(
                properties@.take(i + 1),
                *id,
                length,
                data,
            ) by {
                assert(entry_views(list@) =~= head + all_entries(
                    properties@.take(i + 1),
                    *id,
                    length,
                    data,
                ));
            }
        }
        i = i + 1;
    }
    assert(properties@.take(i as int) =~= properties@);
    list
}

/// What was read of a blob.
pub enum BlobRead {
    /// Nothing, for nothing was needed.
    Unneeded,
    /// Nothing, for the blob is gone.
    Missing,
    /// What the range selects, all at once.
    Contents(Vec<u8>),
    /// What the range selects, piece by piece.
    Digested(Hashers),
}

/// The answer to a request.
#[derive(Debug)]
pub struct GetResponse {
    pub list: Vec<Vec<(BlobProperty, BlobValue)>>,
    pub not_found: Vec<BlobId>,
}

/// Whether `read` is what was read of a blob of which the range selects `data`, or which
/// is gone.
pub open spec fn is_read_of(read: BlobRead, data: Option<Seq<u8>>) -> bool {
    match read {
        BlobRead::Missing => data is None,
        BlobRead::Unneeded => data is Some,
        BlobRead::Contents(bytes) => data matches Some(data) && data == bytes@,
        BlobRead::Digested(hashers) => data matches Some(data) && hashers.has_read(data),
    }
}

/// How a blob of the given length is added to an answer: to those that were not found,
/// if there is none that the client may know of or it is gone, and to the list
/// otherwise.
pub open spec fn answers(
    length: Option<u64>,
    range: ByteRange,
    properties: Seq<BlobProperty>,
    before: GetResponse,
    after: GetResponse,
    id: BlobId,
    read: BlobRead,
) -> bool {
    if length is None || read is Missing {
        &&& after.list@ == before.list@
        &&& after.not_found@ == before.not_found@.push(id)
    } else {
        &&& after.not_found@ == before.not_found@
        &&& after.list@.len() == before.list@.len() + 1
        &&& after.list@.drop_last() == before.list@
        &&& forall|data: Seq<u8>|
            is_read_of(read, Some(data)) ==> #[trigger] entry(
                properties,
                id,
                length->0,
                range,
                data,
            ) == entry_views(after.list@.last()@)
    }
}

/// Entries that need nothing of a blob are the same whatever it holds.
proof fn lemma_nothing_needed(
    properties: Seq<BlobProperty>,
    id: BlobId,
    length: u64,
    a: Seq<u8>,
    b: Seq<u8>,
)
    requires
        data_needed(properties) == BlobDataRequest::Nothing,
    ensures
        all_entries(properties, id, length, a) == all_entries(properties, id, length, b),
    decreases properties.len(),
{
    if properties.len() > 0 {
        let shorter = properties.drop_last();
        assert forall|i: int| 0 <= i < shorter.len() implies !(#[trigger] shorter[i] is Data) && !(
        shorter[i] is Digest) by {
            assert(properties[i] == shorter[i]);
        }
        lemma_nothing_needed(shorter, id, length, a, b);
        assert(properties[properties.len() - 1] == properties.last());
    }
}

impl BlobGet {
    /// Whether `read` is what was to be read for a blob that is there.
    pub open spec fn fits(self, properties: Seq<BlobProperty>, read: BlobRead) -> bool {
        match read {
            BlobRead::Missing => self.requested != BlobDataRequest::Nothing,
            BlobRead::Unneeded => self.requested == BlobDataRequest::Nothing,
            BlobRead::Contents(_) => self.requested == BlobDataRequest::Contents,
            BlobRead::Digested(hashers) => self.requested == BlobDataRequest::Hash && forall|
                digest: DigestProperty,
            |
                asks_for(properties, digest) ==> #[trigger] hashers.takes(digest),
        }
    }

    /// Adds the next blob to the answer: to those that were not found, if the
    /// client may not know of it or it is gone, and to the list otherwise.
    pub fn answer(
        &self,
        response: &mut GetResponse,
        index: usize,
        id: &BlobId,
        properties: &[BlobProperty],
        read: BlobRead,
    )
        requires
            index < self.lengths@.len(),
            self.requested == data_needed(properties@),
            self.lengths@[index as int] is Some ==> self.fits(properties@, read),
        ensures
            answers(
                self.lengths@[index as int],
                self.range,
                properties@,
                *old(response),
                *final(response),
                *id,
                read,
            ),
    {
        let length: u64 = match self.lengths[index] {
            Some(length) => length,
            None => {
                response.not_found.push(*id);
                return;
            },
        };
        let list: Vec<(BlobProperty, BlobValue)> = match read {
            BlobRead::Missing => {
                response.not_found.push(*id);
                return;
            },
            BlobRead::Unneeded => {
                let hashers = Hashers::new(properties);
                proof {
                    assert forall|data: Seq<u8>| #[trigger]
                        entry(properties@, *id, length, self.range, data) == entry(
                            properties@,
                            *id,
                            length,
                            self.range,
                            Seq::empty(),
                        ) by {
                        lemma_nothing_needed(properties@, *id, length, data, Seq::empty());
                    }
                }
                build_entry(properties, id, length, self.range, None, &hashers)
            },
            BlobRead::Contents(bytes) => {
                let mut hashers = Hashers::new(properties);
                hashers.update(bytes.as_slice());
                reveal(hashers_read_on);
                assert(Seq::<u8>::empty() + bytes@ =~= bytes@);
                build_entry(properties, id, length, self.range, Some(bytes.as_slice()), &hashers)
            },
            BlobRead::Digested(hashers) => build_entry(
                properties,
                id,
                length,
                self.range,
                None,
                &hashers,
            ),
        };
        let ghost before = response.list@;
        response.list.push(list);
        assert(response.list@.drop_last() =~= before);
    }
}

/// What an answer lists, in the order of `ids`: an entry for each blob that the client
/// may know of and that is there.
pub open spec fn listed(
    properties: Seq<BlobProperty>,
    range: ByteRange,
    ids: Seq<BlobId>,
    lengths: Seq<Option<u64>>,
    blobs: Seq<Option<Seq<u8>>>,
) -> Seq<Seq<(BlobProperty, ValueView)>>
    decreases ids.len(),
{
    if ids.len() == 0 {
        Seq::empty()
    } else {
        let earlier = listed(
            properties,
            range,
            ids.drop_last(),
            lengths.drop_last(),
            blobs.drop_last(),
        );
        match (lengths.last(), blobs.last()) {
            (Some(length), Some(data)) => earlier.push(
                entry(properties, ids.last(), length, range, data),
            ),
            _ => earlier,
        }
    }
}

/// The blobs that an answer says were not found, in the order of `ids`.
pub open spec fn unlisted(
    ids: Seq<BlobId>,
    lengths: Seq<Option<u64>>,
    blobs: Seq<Option<Seq<u8>>>,
) -> Seq<BlobId>
    decreases ids.len(),
{
    if ids.len() == 0 {
        Seq::empty()
    } else {
        let earlier = unlisted(ids.drop_last(), lengths.drop_last(), blobs.drop_last());
        match (lengths.last(), blobs.last()) {
            (Some(_), Some(_)) => earlier,
            _ => earlier.push(ids.last()),
        }
    }
}

/// What the entries of a list say.
pub open spec fn list_views(list: Seq<Vec<(BlobProperty, BlobValue)>>) -> Seq<
    Seq<(BlobProperty, ValueView)>,
> {
    list.map_values(|e: Vec<(BlobProperty, BlobValue)>| entry_views(e@))
}

/// Whether blobs are added to an answer one after the other, each with what was read of
/// it; `blobs` is what the range selects of each. Before them the answer lists nothing.
pub open spec fn answer_run(
    properties: Seq<BlobProperty>,
    range: ByteRange,
    ids: Seq<BlobId>,
    lengths: Seq<Option<u64>>,
    blobs: Seq<Option<Seq<u8>>>,
    reads: Seq<BlobRead>,
    responses: Seq<GetResponse>,
) -> bool {
    &&& lengths.len() == ids.len()
    &&& blobs.len() == ids.len()
    &&& reads.len() == ids.len()
    &&& responses.len() == ids.len() + 1
    &&& responses[0].list@.len() == 0
    &&& forall|k: int|
        0 <= k < ids.len() ==> {
            &&& #[trigger] lengths[k] is Some ==> is_read_of(reads[k], blobs[k])
            &&& answers(
                lengths[k],
                range,
                properties,
                responses[k],
                responses[k + 1],
                ids[k],
                reads[k],
            )
        }
}

/// An answer speaks of every blob that was asked for, once and in order: the list holds
/// the entry of each that the client may know of and that is there, and the others are
/// added to those that were not found before.
pub proof fn law_every_blob_is_answered(
    properties: Seq<BlobProperty>,
    range: ByteRange,
    ids: Seq<BlobId>,
    lengths: Seq<Option<u64>>,
    blobs: Seq<Option<Seq<u8>>>,
    reads: Seq<BlobRead>,
    responses: Seq<GetResponse>,
)
    requires
        answer_run(properties, range, ids, lengths, blobs, reads, responses),
    ensures
        list_views(responses.last().list@) == listed(properties, range, ids, lengths, blobs),
        responses.last().not_found@ == responses[0].not_found@ + unlisted(ids, lengths, blobs),
    decreases ids.len(),
{
    if ids.len() == 0 {
        assert(list_views(responses[0].list@) =~= Seq::empty());
        assert(responses[0].not_found@ =~= responses[0].not_found@ + unlisted(ids, lengths, blobs));
    } else {
        let n = ids.len() - 1;
        let shorter = responses.drop_last();
        law_every_blob_is_answered(
            properties,
            range,
            ids.drop_last(),
            lengths.drop_last(),
            blobs.drop_last(),
            reads.drop_last(),
            shorter,
        );
        assert(lengths[n] == lengths.last());
        let before = responses[n];
        let after = responses[n + 1];
        assert(shorter.last() == before);
        assert(after.not_found@ =~= responses[0].not_found@ + unlisted(ids, lengths, blobs));
        if lengths[n] is Some && blobs[n] is Some {
            assert(entry(properties, ids[n], lengths[n]->0, range, blobs[n]->0) == entry_views(
                after.list@.last()@,
            ));
            assert(after.list@ =~= before.list@.push(after.list@.last()));
            assert(list_views(after.list@) =~= list_views(before.list@).push(
                entry_views(after.list@.last()@),
            ));
        }
    }
}

/// Contents that are returned as text are the contents: their bytes are those
/// that the range selects.
pub proof fn law_text_is_faithful(data: Seq<u8>)
    requires
        vstd::utf8::valid_utf8(data),
    ensures
        vstd::utf8::encode_utf8(vstd::utf8::decode_utf8(data)) == data,
{
    vstd::utf8::decode_utf8_encode_utf8(data);
}

/// Whatever is asked for is answered: every property has its entry, the contents
/// in either form where any would do.
pub proof fn law_every_property_is_answered(
    properties: Seq<BlobProperty>,
    id: BlobId,
    length: u64,
    range: ByteRange,
    data: Seq<u8>,
    i: int,
)
    requires
        0 <= i < properties.len(),
    ensures
        exists|j: int|
            0 <= j < entry(properties, id, length, range, data).len() && {
                let property = (#[trigger] entry(properties, id, length, range, data)[j]).0;
                property == properties[i] || properties[i] == BlobProperty::Data(
                    DataProperty::Either,
                ) && property is Data
            },
{
    lemma_property_is_answered(properties, id, length, data, i);
    let rest = all_entries(properties, id, length, data);
    let whole = entry(properties, id, length, range, data);
    let k = choose|k: int|
        0 <= k < rest.len() && {
            let property = (#[trigger] rest[k]).0;
            property == properties[i] || properties[i] == BlobProperty::Data(DataProperty::Either)
                && property is Data
        };
    let j = k + whole.len() - rest.len();
    assert(whole[j] == rest[k]);
}

/// Every property has its entry among those that follow the first.
proof fn lemma_property_is_answered(
    properties: Seq<BlobProperty>,
    id: BlobId,
    length: u64,
    data: Seq<u8>,
    i: int,
)
    requires
        0 <= i < properties.len(),
    ensures
        exists|k: int|
            0 <= k < all_entries(properties, id, length, data).len() && {
                let property = (#[trigger] all_entries(properties, id, length, data)[k]).0;
                property == properties[i] || properties[i] == BlobProperty::Data(
                    DataProperty::Either,
                ) && property is Data
            },
    decreases properties.len(),
{
    let shorter = all_entries(properties.drop_last(), id, length, data);
    let last = property_entries(properties.last(), id, length, data);
    let all = all_entries(properties, id, length, data);
    if i == properties.len() - 1 {
        let k = all.len() - 1;
        assert(all[k] == last[last.len() - 1]);
    } else {
        lemma_property_is_answered(properties.drop_last(), id, length, data, i);
        let k = choose|k: int|
            0 <= k < shorter.len() && {
                let property = (#[trigger] shorter[k]).0;
                property == properties.drop_last()[i] || properties.drop_last()[i]
                    == BlobProperty::Data(DataProperty::Either) && property is Data
            };
        assert(all[k] == shorter[k]);
    }
}

/// A request means the bytes from its offset on, as many as its length says, or all that
/// follow if it has none. A request without an offset means what one with the offset zero
/// does.
pub proof fn law_requested_bytes(
    offset: Option<usize>,
    length: Option<usize>,
    data: Seq<u8>,
    i: int,
)
    requires
        data.len() <= u64::MAX,
        0 <= i < data.len(),
    ensures
        ({
            let from = match offset {
                Some(offset) => offset as int,
                None => 0int,
            };
            let selected = requested_range(offset, length).select(data);
            let wanted = from <= i && (length matches Some(length) ==> i < from + length);
            &&& wanted ==> i - from < selected.len() && selected[i - from] == data[i]
            &&& i < selected.len() ==> from + i < data.len() && selected[i] == data[from + i]
            &&& i < selected.len() && length is Some ==> i < length->0
            &&& length matches Some(length) ==> selected.len() <= length
        }),
        requested_range(None, length) == requested_range(Some(0), length),
        requested_range(None, None).select(data) == data,
        offset matches Some(offset) && length is None && offset <= data.len() ==> requested_range(
            offset,
            length,
        ).select(data) == data.skip(offset->0 as int),
{
    assert(requested_range(None, None).select(data) =~= data);
    if offset is Some && length is None && offset->0 <= data.len() {
        assert(requested_range(offset, length).select(data) =~= data.skip(offset->0 as int));
    }
}

/// The contents are needed just if some form of them is asked for; to read them once
/// suffices where only digests are; and nothing is read where neither is.
pub proof fn law_no_more_is_read_than_needed(properties: Seq<BlobProperty>)
    ensures
        data_needed(properties) == BlobDataRequest::Contents <==> exists|i: int|
            0 <= i < properties.len() && (#[trigger] properties[i]) is Data,
        data_needed(properties) == BlobDataRequest::Nothing <==> forall|i: int|
            0 <= i < properties.len() ==> !((#[trigger] properties[i]) is Data)
                && !(properties[i] is Digest),
        data_needed(properties) == BlobDataRequest::Hash <==> {
            &&& forall|i: int| 0 <= i < properties.len() ==> !((#[trigger] properties[i]) is Data)
            &&& exists|i: int| 0 <= i < properties.len() && (#[trigger] properties[i]) is Digest
        },
{
}

/// A blob that the client may not know of is not read. Of any other the range of the
/// request is read, if anything of it is needed: piece by piece where it suffices to read
/// it once.
pub proof fn law_entries_read_the_range(get: BlobGet, length: Option<u64>)
    ensures
        get.entry_need(length) is NotFound <==> length is None,
        length is Some ==> {
            &&& get.entry_need(length) is Build <==> get.requested == BlobDataRequest::Nothing
            &&& get.entry_need(length) == EntryStep::ReadStream(get.range) <==> get.requested
                == BlobDataRequest::Hash
            &&& get.entry_need(length) == EntryStep::ReadContents(get.range) <==> get.requested
                == BlobDataRequest::Contents
        },
{
}

/// The bytes that blobs contribute to an answer are counted one blob after the other: each
/// adds what the range selects of it, and one that is not there adds nothing.
pub proof fn law_contents_are_counted(
    lengths: Seq<Option<u64>>,
    data: Seq<u8>,
    range: ByteRange,
    get: BlobGet,
)
    requires
        data.len() <= u64::MAX,
    ensures
        total_served(Seq::empty(), range) == 0,
        total_served(lengths.push(None), range) == total_served(lengths, range),
        total_served(lengths.push(Some(data.len() as u64)), range) == total_served(lengths, range)
            + range.select(data).len(),
        get.requested == BlobDataRequest::Contents && get.max_size < u64::MAX ==> (are_too_large(
            get,
            lengths,
        ) <==> total_served(lengths, get.range) > get.max_size),
        get.requested != BlobDataRequest::Contents ==> !are_too_large(get, lengths),
        get.max_size == u64::MAX ==> !are_too_large(get, lengths),
{
    let none = lengths.push(None);
    let some = lengths.push(Some(data.len() as u64));
    assert(none.drop_last() =~= lengths);
    assert(some.drop_last() =~= lengths);
}

/// An entry says that it is truncated just if the range ends behind the blob, or has no end
/// and begins behind it. A range that ends within a blob selects all it has positions for.
pub proof fn law_truncation_is_told(range: ByteRange, length: u64, data: Seq<u8>)
    requires
        data.len() == length,
    ensures
        range.end < u64::MAX ==> (is_truncated(range, length) <==> range.end > length),
        range.end == u64::MAX ==> (is_truncated(range, length) <==> range.start > length),
        !is_truncated(range, length) && range.start <= range.end < u64::MAX ==> range.select(
            data,
        ).len() == range.end - range.start,
{
}

/// What is said about the id, the size and the digests of a blob: the id that was asked
/// for, the size of the whole blob, and digests of what the range selects, in base64.
pub proof fn law_facts_are_told(id: BlobId, length: u64, data: Seq<u8>)
    ensures
        property_entries(BlobProperty::Id, id, length, data) == seq![
            (BlobProperty::Id, ValueView::BlobId(id)),
        ],
        property_entries(BlobProperty::Size, id, length, data) == seq![
            (BlobProperty::Size, ValueView::Number(length as nat)),
        ],
        property_entries(
            BlobProperty::Digest(DigestProperty::Sha),
            id,
            length,
            data,
        ).last().1 == ValueView::Text(encodings::base64_text(digests::sha1_digest(data))),
        property_entries(
            BlobProperty::Digest(DigestProperty::Sha256),
            id,
            length,
            data,
        ).last().1 == ValueView::Text(encodings::base64_text(digests::sha256_digest(data))),
        property_entries(
            BlobProperty::Digest(DigestProperty::Sha512),
            id,
            length,
            data,
        ).last().1 == ValueView::Text(encodings::base64_text(digests::sha512_digest(data))),
        forall|digest: DigestProperty|
            (#[trigger] property_entries(BlobProperty::Digest(digest), id, length, data)).len()
                == 1 && property_entries(BlobProperty::Digest(digest), id, length, data)[0].0
                == BlobProperty::Digest(digest),
{
}

/// Contents that are a text are returned as that text, wherever a text is asked for or any
/// form will do, and no problem is told of.
pub proof fn law_text_is_returned(id: BlobId, length: u64, text: Seq<char>)
    ensures
        ({
            let data = vstd::utf8::encode_utf8(text);
            let answer = seq![(BlobProperty::Data(DataProperty::AsText), ValueView::Text(text))];
            &&& property_entries(BlobProperty::Data(DataProperty::AsText), id, length, data)
                == answer
            &&& property_entries(BlobProperty::Data(DataProperty::Either), id, length, data)
                == answer
        }),
{
    vstd::utf8::encode_utf8_valid_utf8(text);
    vstd::utf8::encode_utf8_decode_utf8(text);
}

/// Contents that are no text are told to be a problem wherever a text was asked for or any
/// form would do: in the first case they are left out, in the other they come in base64.
/// Asked for in base64 they come in it, whatever they are, and that is no problem.
pub proof fn law_bytes_are_returned(id: BlobId, length: u64, data: Seq<u8>)
    ensures
        property_entries(BlobProperty::Data(DataProperty::AsBase64), id, length, data) == seq![
            (
                BlobProperty::Data(DataProperty::AsBase64),
                ValueView::Text(encodings::base64_text(data)),
            ),
        ],
        !vstd::utf8::valid_utf8(data) ==> {
            &&& property_entries(BlobProperty::Data(DataProperty::AsText), id, length, data)
                == seq![
                (BlobProperty::IsEncodingProblem, ValueView::Bool(true)),
                (BlobProperty::Data(DataProperty::AsText), ValueView::Null),
            ]
            &&& property_entries(BlobProperty::Data(DataProperty::Either), id, length, data)
                == seq![
                (BlobProperty::IsEncodingProblem, ValueView::Bool(true)),
                (
                    BlobProperty::Data(DataProperty::AsBase64),
                    ValueView::Text(encodings::base64_text(data)),
                ),
            ]
        },
{
}

/// An entry says what is asked for, property by property and in order, and nothing else:
/// one more property adds what is said about it, and the first thing said is whether the
/// range reached beyond the blob.
pub proof fn law_entry_is_told_in_order(
    properties: Seq<BlobProperty>,
    property: BlobProperty,
    id: BlobId,
    length: u64,
    range: ByteRange,
    data: Seq<u8>,
)
    ensures
        entry(Seq::empty(), id, length, range, data) == (if is_truncated(range, length) {
            seq![(BlobProperty::IsTruncated, ValueView::Bool(true))]
        } else {
            Seq::empty()
        }),
        entry(properties.push(property), id, length, range, data) == entry(
            properties,
            id,
            length,
            range,
            data,
        ) + property_entries(property, id, length, data),
{
    assert(properties.push(property).drop_last() =~= properties);
    assert(entry(properties.push(property), id, length, range, data) =~= entry(
        properties,
        id,
        length,
        range,
        data,
    ) + property_entries(property, id, length, data));
}

/// Every id that was asked for is either listed or said not to be found, and only once. It
/// is listed just if the client may know of the blob and that is there.
pub proof fn law_ids_are_answered_once(
    properties: Seq<BlobProperty>,
    range: ByteRange,
    ids: Seq<BlobId>,
    lengths: Seq<Option<u64>>,
    blobs: Seq<Option<Seq<u8>>>,
    id: BlobId,
    length: u64,
    data: Seq<u8>,
)
    requires
        lengths.len() == ids.len(),
        blobs.len() == ids.len(),
    ensures
        listed(properties, range, ids, lengths, blobs).len() + unlisted(ids, lengths, blobs).len()
            == ids.len(),
        listed(
            properties,
            range,
            ids.push(id),
            lengths.push(Some(length)),
            blobs.push(Some(data)),
        ) == listed(properties, range, ids, lengths, blobs).push(
            entry(properties, id, length, range, data),
        ),
        unlisted(ids.push(id), lengths.push(None), blobs.push(Some(data))) == unlisted(
            ids,
            lengths,
            blobs,
        ).push(id),
        unlisted(ids.push(id), lengths.push(Some(length)), blobs.push(None)) == unlisted(
            ids,
            lengths,
            blobs,
        ).push(id),
    decreases ids.len(),
{
    assert(ids.push(id).drop_last() =~= ids);
    assert(lengths.push(Some(length)).drop_last() =~= lengths);
    assert(lengths.push(None).drop_last() =~= lengths);
    assert(blobs.push(Some(data)).drop_last() =~= blobs);
    assert(blobs.push(None).drop_last() =~= blobs);
    if ids.len() > 0 {
        law_ids_are_answered_once(
            properties,
            range,
            ids.drop_last(),
            lengths.drop_last(),
            blobs.drop_last(),
            id,
            length,
            data,
        );
    }
}

/// A request is answered over the bytes it means: at most as many of any blob as its length
/// says, from its offset on. It is refused just when these bytes of all its blobs together
/// are more than an answer may hold, and it asks for contents.
pub proof fn law_request_is_answered_over_its_range(
    get: BlobGet,
    properties: Seq<BlobProperty>,
    offset: Option<usize>,
    length: Option<usize>,
    max_size: u64,
    data: Seq<u8>,
    lengths: Seq<Option<u64>>,
)
    requires
        get_begins(get, properties, offset, length, max_size),
        data.len() <= u64::MAX,
        max_size < u64::MAX,
    ensures
        ({
            let from = match offset {
                Some(offset) => offset as int,
                None => 0int,
            };
            let served = get.range.select(data);
            &&& length matches Some(length) ==> served.len() <= length
            &&& from <= data.len() && length is None ==> served == data.skip(from)
            &&& length is Some && from + length->0 <= data.len() ==> served == data.subrange(
                from,
                from + length->0,
            )
            &&& length is Some && from <= data.len() < from + length->0 ==> served == data.skip(
                from,
            )
            &&& from >= data.len() ==> served.len() == 0
        }),
        are_too_large(get, lengths) <==> total_served(lengths, get.range) > max_size && exists|i:
            int| 0 <= i < properties.len() && (#[trigger] properties[i]) is Data,
{
    let from = match offset {
        Some(offset) => offset as int,
        None => 0int,
    };
    let served = get.range.select(data);
    if from <= data.len() {
        if length is None || data.len() < from + length->0 {
            assert(served =~= data.skip(from));
        } else {
            assert(served =~= data.subrange(from, from + length->0));
        }
    }
}

/// The length of a blob is asked for just if the client may read it. Of one that the client
/// may not read no length is known, and the request goes on with the next; and as long as
/// that is not decided, what decides it is asked.
pub proof fn law_lengths_are_for_readers(
    before: BlobGet,
    after: BlobGet,
    access: AccessStep,
    step: LengthQuery,
)
    requires
        learns_access(before, after, access, step),
    ensures
        step is ReadLength <==> access is Granted,
        step is NextBlob <==> access is Denied,
        step matches LengthQuery::Ask(asked) ==> asked == access,
        access is Denied ==> after.lengths@ == before.lengths@.push(None),
        !(access is Denied) ==> after == before,
{
}

/// One more piece is digested.
proof fn lemma_reads_on(
    before: Hashers,
    after: Hashers,
    bytes: Seq<u8>,
    data: Seq<u8>,
    digest: DigestProperty,
)
    requires
        hashers_read_on(before, after, bytes),
        before.has_read(data),
    ensures
        after.has_read(data + bytes),
        after.takes(digest) == before.takes(digest),
{
    reveal(hashers_read_on);
}

/// Digests that are taken piece by piece are those of all the pieces together, and no
/// digest is begun or given up on the way.
pub proof fn law_pieces_are_digested_together(
    states: Seq<Hashers>,
    pieces: Seq<Seq<u8>>,
    digest: DigestProperty,
)
    requires
        states.len() == pieces.len() + 1,
        states[0].has_read(Seq::empty()),
        forall|k: int|
            0 <= k < pieces.len() ==> hashers_read_on(
                states[k],
                states[k + 1],
                #[trigger] pieces[k],
            ),
    ensures
        states.last().has_read(pieces.flatten()),
        states.last().takes(digest) == states[0].takes(digest),
    decreases pieces.len(),
{
    if pieces.len() == 0 {
        assert(pieces =~= Seq::<Seq<u8>>::empty());
    } else {
        let n = pieces.len() - 1;
        let fewer = pieces.drop_last();
        let earlier = states.drop_last();
        assert forall|k: int| 0 <= k < fewer.len() implies hashers_read_on(
            earlier[k],
            earlier[k + 1],
            #[trigger] fewer[k],
        ) by {
            assert(fewer[k] == pieces[k]);
        }
        law_pieces_are_digested_together(earlier, fewer, digest);
        assert(earlier.last() == states[n]);
        assert(pieces =~= fewer.push(pieces[n]));
        fewer.lemma_flatten_push(pieces[n]);
        lemma_reads_on(states[n], states[n + 1], pieces[n], fewer.flatten(), digest);
    }
}

/// What was read of a blob stands for all that the range selects of it: contents for
/// themselves, digests for what they were taken of. A blob that is gone stands for none,
/// and what was not needed for whatever is there.
pub proof fn law_reads_stand_for_the_blob(
    bytes: Vec<u8>,
    hashers: Hashers,
    data: Option<Seq<u8>>,
    some: Seq<u8>,
)
    ensures
        is_read_of(BlobRead::Contents(bytes), data) <==> data is Some && data->0 == bytes@,
        is_read_of(BlobRead::Missing, data) <==> data is None,
        is_read_of(BlobRead::Unneeded, data) <==> data is Some,
        is_read_of(BlobRead::Digested(hashers), Some(some)) <==> hashers.has_read(some),
        !is_read_of(BlobRead::Digested(hashers), None),
{
}

/// A digest is asked for just if it is among the properties.
pub proof fn law_digests_are_asked_for(properties: Seq<BlobProperty>, digest: DigestProperty)
    ensures
        asks_for(properties, digest) <==> properties.contains(BlobProperty::Digest(digest)),
{
    if properties.contains(BlobProperty::Digest(digest)) {
        let i = choose|i: int|
            0 <= i < properties.len() && properties[i] == BlobProperty::Digest(digest);
        assert(properties[i] == BlobProperty::Digest(digest));
    }
}

} // verus!
