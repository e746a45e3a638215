//! Who may read a blob, and what they are given.
use vstd::prelude::*;
use crate::blob_id::{BlobClass, BlobSection, Collection};
use crate::byte_range::ByteRange;
use crate::foreign::encodings::encoding_none;

verus! {

/// What is known about a request for a blob. What has to be fetched is `None`
/// until it was.
#[derive(Clone, Copy, Debug, PartialEq, Eq, Structural)]
pub struct AccessFacts {
    /// The blob is of a kind that superusers may read.
    pub superuser_class: bool,
    /// The user may fetch any blob.
    pub may_fetch_any: bool,
    /// The user is a member of the account that the blob belongs to.
    pub member: bool,
    /// The store has the blob under that class.
    pub stored: Option<bool>,
    /// The document that the blob is linked to is shared with the user.
    pub shared: Option<bool>,
}

/// What has to be asked to decide whether a user may read a blob.
#[derive(Clone, Copy, Debug, PartialEq, Eq, Structural)]
pub enum AccessStep {
    Granted,
    Denied,
    /// Whether the store has the blob under its class.
    AskStore,
    /// Whether a message is shared with the user.
    AskMessages { account_id: u32, document_id: u32 },
    /// Whether a file, a contact or an event is shared with the user.
    AskResources { account_id: u32, collection: Collection, document_id: u32 },
}

/// Whether documents of a collection can be shared.
pub open spec fn is_shareable(collection: Collection) -> bool {
    !(collection is Other)
}

/// Whether a user may read a blob: superusers may read those meant for them; for
/// others the blob has to be there, and to belong to an account of theirs or to
/// a document that is shared with them.
pub open spec fn may_read(
    class: BlobClass,
    superuser_class: bool,
    may_fetch_any: bool,
    member: bool,
    stored: bool,
    shared: bool,
) -> bool {
    ||| superuser_class && may_fetch_any
    ||| stored && match class {
        BlobClass::Linked { collection, .. } => member || is_shareable(collection) && shared,
        BlobClass::Reserved { .. } => member,
    }
}

/// Whether what is known suffices to grant access.
pub open spec fn is_granted(class: BlobClass, facts: AccessFacts) -> bool {
    ||| facts.superuser_class && facts.may_fetch_any
    ||| facts.stored == Some(true) && match class {
        BlobClass::Linked { collection, .. } => facts.member || is_shareable(collection)
            && facts.shared == Some(true),
        BlobClass::Reserved { .. } => facts.member,
    }
}

/// Whether what is known suffices to deny access.
pub open spec fn is_denied(class: BlobClass, facts: AccessFacts) -> bool {
    &&& !(facts.superuser_class && facts.may_fetch_any)
    &&& facts.stored == Some(false) || facts.stored == Some(true) && !facts.member && match class {
        BlobClass::Linked { collection, .. } => !is_shareable(collection) || facts.shared == Some(
            false,
        ),
        BlobClass::Reserved { .. } => true,
    }
}

/// What has to be asked next, or what was decided: nothing is asked that could not
/// change the answer, and the store before anything else.
pub open spec fn access_step(class: BlobClass, facts: AccessFacts) -> AccessStep {
    if is_granted(class, facts) {
        AccessStep::Granted
    } else if is_denied(class, facts) {
        AccessStep::Denied
    } else if facts.stored is None {
        AccessStep::AskStore
    } else {
        match class {
            BlobClass::Linked { account_id, collection: Collection::Email, document_id } => {
                AccessStep::AskMessages { account_id, document_id }
            },
            BlobClass::Linked { account_id, collection, document_id } => AccessStep::AskResources {
                account_id,
                collection,
                document_id,
            },
            BlobClass::Reserved { .. } => AccessStep::Denied,
        }
    }
}

/// Decides whether a user may read a blob, or says what is left to ask.
///
/// Nothing is asked that could not change the answer.
pub fn has_access_blob(class: &BlobClass, facts: &AccessFacts) -> (step: AccessStep)
    ensures
        step == access_step(*class, *facts),
        step is Granted <==> is_granted(*class, *facts),
        step is Denied <==> is_denied(*class, *facts),
{
    if facts.superuser_class && facts.may_fetch_any {
        return AccessStep::Granted;
    }
    match facts.stored {
        None => {
            return AccessStep::AskStore;
        },
        Some(stored) => {
            if !stored {
                return AccessStep::Denied;
            }
        },
    }
    if facts.member {
        return AccessStep::Granted;
    }
    match *class {
        BlobClass::Reserved { .. } => AccessStep::Denied,
        BlobClass::Linked { account_id, collection, document_id } => match collection {
            Collection::Other(_) => AccessStep::Denied,
            _ => match facts.shared {
                Some(true) => AccessStep::Granted,
                Some(false) => AccessStep::Denied,
                None => match collection {
                    Collection::Email => AccessStep::AskMessages { account_id, document_id },
                    _ => AccessStep::AskResources { account_id, collection, document_id },
                },
            },
        },
    }
}

/// Whether the answers are those that are known.
pub open spec fn agrees(facts: AccessFacts, stored: bool, shared: bool) -> bool {
    &&& facts.stored matches Some(known) ==> known == stored
    &&& facts.shared matches Some(known) ==> known == shared
}

/// Access is granted or denied rightly: whatever the answers are that were not
/// asked for, the user may read the blob, or may not.
pub proof fn law_access_is_right(class: BlobClass, facts: AccessFacts, stored: bool, shared: bool)
    requires
        agrees(facts, stored, shared),
    ensures
        is_granted(class, facts) ==> may_read(
            class,
            facts.superuser_class,
            facts.may_fetch_any,
            facts.member,
            stored,
            shared,
        ),
        is_denied(class, facts) ==> !may_read(
            class,
            facts.superuser_class,
            facts.may_fetch_any,
            facts.member,
            stored,
            shared,
        ),
{
}

/// Once all was asked, access is granted or denied.
pub proof fn law_access_is_decided(class: BlobClass, facts: AccessFacts)
    requires
        facts.stored is Some,
        facts.shared is Some,
    ensures
        is_granted(class, facts) || is_denied(class, facts),
        !(is_granted(class, facts) && is_denied(class, facts)),
{
    assert(facts.stored == Some(facts.stored->0));
    assert(facts.shared == Some(facts.shared->0));
}

/// Members of an account may read what is reserved for it, and others may not:
/// sharing does not enter into it.
pub proof fn law_reserved_blobs_are_for_members(
    account_id: u32,
    expires: u64,
    member: bool,
    shared: bool,
)
    ensures
        may_read(BlobClass::Reserved { account_id, expires }, false, false, member, true, shared)
            == member,
{
}

/// Where the data of a blob comes from.
#[derive(Clone, Copy, Debug, PartialEq, Eq, Structural)]
pub enum DownloadStep {
    /// Ask this first, to decide whether the user may read the blob.
    Ask(AccessStep),
    /// Answer as if there were no such blob.
    NotFound,
    /// Read this range of the blob.
    Stream(ByteRange),
    /// Read and decode the section.
    Decode(BlobSection),
    /// Read all of the blob.
    Whole,
    /// Read all of the blob. It is a message: ask for its metadata.
    WholeMessage { account_id: u32, document_id: u32 },
}

/// The range of a section that is not encoded. A section of the largest size
/// reaches to the end.
pub open spec fn section_range(section: BlobSection) -> ByteRange {
    ByteRange {
        start: section.offset_start as u64,
        end: if section.size == usize::MAX || section.offset_start + section.size > u64::MAX {
            u64::MAX
        } else {
            (section.offset_start + section.size) as u64
        },
    }
}

/// Where the data of a blob comes from, for a user who may read it.
pub open spec fn download_source(class: BlobClass, section: Option<BlobSection>) -> DownloadStep {
    match section {
        Some(section) => if section.encoding == 0 {
            DownloadStep::Stream(section_range(section))
        } else {
            DownloadStep::Decode(section)
        },
        None => match class {
            BlobClass::Linked { account_id, collection: Collection::Email, document_id } => {
                DownloadStep::WholeMessage { account_id, document_id }
            },
            _ => DownloadStep::Whole,
        },
    }
}

/// Where the data of a blob comes from, or what is left to ask. To a user who may
/// not read a blob it is not there.
pub open spec fn download_step(
    class: BlobClass,
    section: Option<BlobSection>,
    facts: AccessFacts,
) -> DownloadStep {
    match access_step(class, facts) {
        AccessStep::Granted => download_source(class, section),
        AccessStep::Denied => DownloadStep::NotFound,
        asked => DownloadStep::Ask(asked),
    }
}

/// Decides where the data of a blob comes from, or says what is left to ask.
pub fn blob_download(
    class: &BlobClass,
    section: &Option<BlobSection>,
    facts: &AccessFacts,
) -> (step: DownloadStep)
    ensures
        step == download_step(*class, *section, *facts),
{
    match has_access_blob(class, facts) {
        AccessStep::Granted => {},
        AccessStep::Denied => {
            return DownloadStep::NotFound;
        },
        asked => {
            return DownloadStep::Ask(asked);
        },
    }
    match section {
        Some(section) => {
            if section.encoding == encoding_none() {
                let start: u64 = section.offset_start as u64;
                let end: u64 = if section.size == usize::MAX {
                    u64::MAX
                } else {
                    start.saturating_add(section.size as u64)
                };
                DownloadStep::Stream(ByteRange::new(start, end))
            } else {
                DownloadStep::Decode(*section)
            }
        },
        None => match *class {
            BlobClass::Linked { account_id, collection: Collection::Email, document_id } => {
                DownloadStep::WholeMessage { account_id, document_id }
            },
            _ => DownloadStep::Whole,
        },
    }
}

/// A download that is refused is answered as a missing blob is, whatever section was
/// asked for, and whether the blob is there or not.
pub proof fn law_refused_download_is_missing(
    class: BlobClass,
    section: Option<BlobSection>,
    facts: AccessFacts,
    stored: bool,
    shared: bool,
)
    requires
        agrees(facts, stored, shared),
        !may_read(
            class,
            facts.superuser_class,
            facts.may_fetch_any,
            facts.member,
            stored,
            shared,
        ),
    ensures
        download_step(class, section, facts) is NotFound || download_step(
            class,
            section,
            facts,
        ) is Ask,
        facts.stored is Some && facts.shared is Some ==> download_step(class, section, facts)
            == DownloadStep::NotFound,
{
    law_access_is_right(class, facts, stored, shared);
    if facts.stored is Some && facts.shared is Some {
        law_access_is_decided(class, facts);
    }
}

/// What is kept about a message: its headers as they were received, and where
/// its body begins in the message and in the blob.
#[derive(Debug)]
pub struct MessageHeaders {
    pub raw_headers: Vec<u8>,
    pub offset_body: u32,
    pub blob_body_offset: u32,
}

/// Whether a blob holds a message with other headers than it was received with.
pub open spec fn has_other_headers(metadata: Option<MessageHeaders>) -> bool {
    metadata matches Some(m) && m.offset_body != m.blob_body_offset
}

/// Whether a blob holds a message with other headers than it was received with.
pub fn needs_headers(metadata: &Option<MessageHeaders>) -> (needed: bool)
    ensures
        needed == has_other_headers(*metadata),
{
    match metadata {
        Some(metadata) => metadata.offset_body != metadata.blob_body_offset,
        None => false,
    }
}

/// A message with the headers it was received with, before the body that the
/// blob holds. A body that begins behind the end is empty.
pub open spec fn received_message(raw_headers: Seq<u8>, blob: Seq<u8>, body: nat) -> Seq<u8> {
    raw_headers + (if body <= blob.len() {
        blob.skip(body as int)
    } else {
        Seq::empty()
    })
}

/// A message that is rebuilt from what is kept about it and its blob.
pub open spec fn rebuilt(metadata: MessageHeaders, blob: Seq<u8>) -> Seq<u8> {
    received_message(metadata.raw_headers@, blob, metadata.blob_body_offset as nat)
}

/// Puts the headers that a message was received with before its body.
pub fn rebuild_message(metadata: &MessageHeaders, blob: &[u8]) -> (message: Vec<u8>)
    ensures
        message@ == rebuilt(*metadata, blob@),
{
    let mut message = metadata.raw_headers.clone();
    assert(message@ =~= metadata.raw_headers@);
    let size: usize = blob.len();
    if (metadata.blob_body_offset as u64) < size as u64 {
        let from: usize = metadata.blob_body_offset as usize;
        message.extend_from_slice(vstd::slice::slice_subrange(blob, from, size));
    }
    assert(message@ =~= received_message(
        metadata.raw_headers@,
        blob@,
        metadata.blob_body_offset as nat,
    ));
    message
}

/// A user who may fetch any blob reads those of the kinds that superusers may read, and
/// needs nothing else. For all others, and for all other kinds, the right to fetch any
/// blob changes nothing.
pub proof fn law_superusers_read_their_kinds(
    class: BlobClass,
    superuser_class: bool,
    may_fetch_any: bool,
    member: bool,
    stored: bool,
    shared: bool,
)
    ensures
        may_read(class, true, true, member, stored, shared),
        !(superuser_class && may_fetch_any) ==> may_read(
            class,
            superuser_class,
            may_fetch_any,
            member,
            stored,
            shared,
        ) == may_read(class, false, false, member, stored, shared),
{
}

/// For other users: a blob that is not there is read by nobody; one that is there by every
/// member of its account; and by others just if it belongs to a message, a file, a contact
/// or an event that is shared with them.
pub proof fn law_members_and_sharers_read(
    account_id: u32,
    collection: Collection,
    document_id: u32,
    class: BlobClass,
    member: bool,
    shared: bool,
)
    ensures
        !may_read(class, false, false, member, false, shared),
        may_read(class, false, false, true, true, shared),
        may_read(
            BlobClass::Linked { account_id, collection, document_id },
            false,
            false,
            false,
            true,
            shared,
        ) <==> shared && (collection == Collection::Email || collection == Collection::FileNode
            || collection == Collection::ContactCard || collection == Collection::CalendarEvent),
{
}

/// Access is granted or denied only where it is right whatever the answers are that were
/// not asked for. A document is asked about only if its answer decides, and the store is
/// asked before anyone else, unless the user needs nobody's answer.
pub proof fn law_only_what_matters_is_asked(
    class: BlobClass,
    facts: AccessFacts,
    stored: bool,
    shared: bool,
)
    requires
        agrees(facts, stored, shared),
    ensures
        ({
            let (kind, any, member) = (facts.superuser_class, facts.may_fetch_any, facts.member);
            let step = access_step(class, facts);
            &&& step is Granted ==> may_read(class, kind, any, member, stored, shared)
            &&& step is Denied ==> !may_read(class, kind, any, member, stored, shared)
            &&& step is AskMessages || step is AskResources ==> {
                &&& facts.stored == Some(true)
                &&& facts.shared is None
                &&& may_read(class, kind, any, member, true, true)
                &&& !may_read(class, kind, any, member, true, false)
            }
            &&& step is AskStore <==> facts.stored is None && !(kind && any)
            &&& facts.stored is Some && facts.shared is Some ==> step is Granted || step is Denied
        }),
{
    law_access_is_right(class, facts, stored, shared);
    if facts.stored is Some {
        assert(facts.stored == Some(stored));
    }
    if facts.shared is Some {
        assert(facts.shared == Some(shared));
    }
}

/// It is asked about the document that the blob is linked to, in the account that it
/// belongs to: a message where that is one, and a document of its collection otherwise.
pub proof fn law_the_linked_document_is_asked_about(class: BlobClass, facts: AccessFacts)
    ensures
        access_step(class, facts) matches AccessStep::AskMessages { account_id, document_id }
            ==> class == (BlobClass::Linked {
            account_id,
            collection: Collection::Email,
            document_id,
        }),
        access_step(class, facts) matches AccessStep::AskResources {
            account_id,
            collection,
            document_id,
        } ==> class == (BlobClass::Linked { account_id, collection, document_id }) && collection
            != Collection::Email,
        class is Reserved ==> !(access_step(class, facts) is AskMessages) && !(access_step(
            class,
            facts,
        ) is AskResources),
{
}

/// For a user who may read a blob, a section is streamed as it is stored just if it is not
/// encoded, and decoded if it is. What is streamed is the section: as many bytes as it has,
/// from its offset on, or all that follow where it is of the largest size.
pub proof fn law_sections_are_served(
    class: BlobClass,
    section: BlobSection,
    facts: AccessFacts,
    blob: Seq<u8>,
    i: int,
)
    requires
        is_granted(class, facts),
        blob.len() <= u64::MAX,
        0 <= i < blob.len(),
    ensures
        download_step(class, Some(section), facts) is Stream <==> section.encoding == 0,
        section.encoding != 0 ==> download_step(class, Some(section), facts)
            == DownloadStep::Decode(section),
        download_step(class, Some(section), facts) matches DownloadStep::Stream(range) ==> {
            let from = section.offset_start;
            let served = range.select(blob);
            &&& from <= i && (section.size == usize::MAX || i < from + section.size) ==> i - from
                < served.len() && served[i - from] == blob[i]
            &&& i < served.len() ==> from + i < blob.len() && served[i] == blob[from + i]
            &&& section.size < usize::MAX ==> served.len() <= section.size
        },
{
    if section.size == usize::MAX {
        assert(section_range(section).end == u64::MAX);
    }
}

/// For a user who may read a blob, all of it is read where no section was asked for. A
/// message's blob is a message, whose headers may have to be put back, and no other is.
pub proof fn law_whole_blobs_are_served(class: BlobClass, facts: AccessFacts)
    requires
        is_granted(class, facts),
    ensures
        download_step(class, None, facts) is Whole || download_step(
            class,
            None,
            facts,
        ) is WholeMessage,
        download_step(class, None, facts) matches DownloadStep::WholeMessage {
            account_id,
            document_id,
        } ==> class == (BlobClass::Linked {
            account_id,
            collection: Collection::Email,
            document_id,
        }),
        (class matches BlobClass::Linked { collection, .. } && collection == Collection::Email)
            ==> download_step(class, None, facts) is WholeMessage,
{
}

/// Nobody is served, or told that a blob is missing, before it is decided whether they may
/// read it; what is asked is what decides that.
pub proof fn law_downloads_are_decided_first(
    class: BlobClass,
    section: Option<BlobSection>,
    facts: AccessFacts,
)
    ensures
        download_step(class, section, facts) is NotFound <==> is_denied(class, facts) && !is_granted(
            class,
            facts,
        ),
        download_step(class, section, facts) matches DownloadStep::Ask(asked) ==> asked
            == access_step(class, facts) && !is_granted(class, facts) && !is_denied(class, facts),
        !is_granted(class, facts) && !is_denied(class, facts) ==> download_step(
            class,
            section,
            facts,
        ) is Ask,
{
    if let Some(stored) = facts.stored {
        assert(facts.stored == Some(true) || facts.stored == Some(false));
    }
    if let Some(shared) = facts.shared {
        assert(facts.shared == Some(true) || facts.shared == Some(false));
    }
}

/// A message is rebuilt from the headers it was received with and the body that its blob
/// holds: the headers come first and as they are, and the body follows them to the end.
pub proof fn law_message_is_rebuilt(raw_headers: Seq<u8>, stored_headers: Seq<u8>, body: Seq<u8>)
    ensures
        received_message(raw_headers, stored_headers + body, stored_headers.len()) == raw_headers
            + body,
        received_message(raw_headers, stored_headers, (stored_headers.len() + 1 + body.len()) as nat)
            == raw_headers,
{
    assert((stored_headers + body).skip(stored_headers.len() as int) =~= body);
    assert(raw_headers + Seq::<u8>::empty() =~= raw_headers);
}

/// The headers have to be put back just if the body begins elsewhere in the blob than it
/// did in the message.
pub proof fn law_headers_are_put_back(raw_headers: Vec<u8>, offset_body: u32, blob_body_offset: u32)
    ensures
        has_other_headers(Some(MessageHeaders { raw_headers, offset_body, blob_body_offset }))
            <==> offset_body != blob_body_offset,
        !has_other_headers(None),
{
}

/// A message is rebuilt from its own headers, and from the body as the blob holds it: what
/// the blob holds before the body is left out.
pub proof fn law_body_is_taken_from_the_blob(metadata: MessageHeaders, blob: Seq<u8>)
    requires
        metadata.blob_body_offset <= blob.len(),
    ensures
        metadata.raw_headers@.is_prefix_of(rebuilt(metadata, blob)),
        rebuilt(metadata, blob).skip(metadata.raw_headers@.len() as int) == blob.skip(
            metadata.blob_body_offset as int,
        ),
{
    let message = rebuilt(metadata, blob);
    let headers = metadata.raw_headers@;
    assert(headers =~= message.take(headers.len() as int));
    assert(message.skip(headers.len() as int) =~= blob.skip(metadata.blob_body_offset as int));
}

} // verus!
