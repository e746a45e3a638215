//! Finding the objects that refer to blobs.
use vstd::prelude::*;
use crate::blob_id::{BlobClass, BlobId, Collection};

verus! {

/// The types of objects, as far as they are told apart.
#[derive(Clone, Copy, Debug, PartialEq, Eq, Structural)]
pub enum DataType {
    Email,
    Mailbox,
    Thread,
    Other(u8),
}

/// The id of an object: its document, and before it, for some, another one.
#[derive(Clone, Copy, Debug, PartialEq, Eq, Structural)]
pub struct Id {
    pub prefix_id: u32,
    pub document_id: u32,
}

impl Id {
    /// The id of a document.
    pub open spec fn spec_of(document_id: u32) -> Id {
        Id { prefix_id: 0, document_id }
    }

    /// The id of a document.
    pub fn of(document_id: u32) -> (id: Id)
        ensures
            id == Id::spec_of(document_id),
    {
        Id { prefix_id: 0, document_id }
    }
}

/// Why a request is not answered.
#[derive(Clone, Copy, Debug, PartialEq, Eq, Structural)]
pub enum BlobLookupError {
    /// A type is not known.
    UnknownDataType,
}

/// The types of objects that are looked for.
#[derive(Debug)]
pub struct LookupTypes {
    pub types: Vec<DataType>,
    pub include_email: bool,
    pub include_mailbox: bool,
    pub include_thread: bool,
}

/// Whether a type is among those that are looked for.
pub open spec fn has_type(types: Seq<DataType>, wanted: DataType) -> bool {
    exists|i: int| 0 <= i < types.len() && #[trigger] types[i] == wanted
}

/// What the types that a request names come to.
pub open spec fn names_types(
    names: Seq<Option<DataType>>,
    result: Result<LookupTypes, BlobLookupError>,
) -> bool {
    &&& result is Ok <==> forall|i: int| 0 <= i < names.len() ==> #[trigger] names[i] is Some
    &&& result matches Ok(lookup) ==> {
        &&& lookup.well_formed()
        &&& lookup.types@.len() == names.len()
        &&& forall|i: int|
            0 <= i < names.len() ==> #[trigger] names[i] == Some(lookup.types@[i])
    }
}

impl LookupTypes {
    /// The flags say which of the types are looked for.
    pub open spec fn well_formed(self) -> bool {
        &&& self.include_email == has_type(self.types@, DataType::Email)
        &&& self.include_mailbox == has_type(self.types@, DataType::Mailbox)
        &&& self.include_thread == has_type(self.types@, DataType::Thread)
    }

    /// The types that a request names, unless one of them is not known.
    pub fn new(names: &[Option<DataType>]) -> (result: Result<LookupTypes, BlobLookupError>)
        ensures
            names_types(names@, result),
    {
        let mut lookup = LookupTypes {
            types: Vec::new(),
            include_email: false,
            include_mailbox: false,
            include_thread: false,
        };
        let mut i: usize = 0;
        while i < names.len()
            invariant
                i <= names@.len(),
                lookup.well_formed(),
                lookup.types@.len() == i,
                forall|j: int| 0 <= j < i ==> #[trigger] names@[j] == Some(lookup.types@[j]),
            decreases names@.len() - i,
        {
            match names[i] {
                None => {
                    assert(names@[i as int] is None);
                    return Err(BlobLookupError::UnknownDataType);
                },
                Some(data_type) => {
                    match data_type {
                        DataType::Email => {
                            lookup.include_email = true;
                        },
                        DataType::Mailbox => {
                            lookup.include_mailbox = true;
                        },
                        DataType::Thread => {
                            lookup.include_thread = true;
                        },
                        _ => {},
                    }
                    let ghost before = lookup.types@;
                    lookup.types.push(data_type);
                    proof {
                        assert forall|wanted: DataType| #[trigger]
                            has_type(lookup.types@, wanted) == (has_type(before, wanted)
                                || data_type == wanted) by {
                            lemma_has_type_push(before, data_type, wanted);
                        }
                    }
                },
            }
            i = i + 1;
        }
        Ok(lookup)
    }

    /// Whether a type is among those that are looked for.
    pub fn contains(&self, wanted: DataType) -> (found: bool)
        ensures
            found == has_type(self.types@, wanted),
    {
        let mut i: usize = 0;
        while i < self.types.len()
            invariant
                i <= self.types@.len(),
                forall|j: int| 0 <= j < i ==> #[trigger] self.types@[j] != wanted,
            decreases self.types@.len() - i,
        {
            if self.types[i] == wanted {
                assert(self.types@[i as int] == wanted);
                return true;
            }
            i = i + 1;
        }
        false
    }
}

/// One more type is one more that is looked for.
proof fn lemma_has_type_push(types: Seq<DataType>, added: DataType, wanted: DataType)
    ensures
        has_type(types.push(added), wanted) == (has_type(types, wanted) || added == wanted),
{
    let longer = types.push(added);
    if has_type(types, wanted) {
        let i = choose|i: int| 0 <= i < types.len() && #[trigger] types[i] == wanted;
        assert(longer[i] == wanted);
    }
    if added == wanted {
        assert(longer[types.len() as int] == wanted);
    }
    if has_type(longer, wanted) {
        let i = choose|i: int| 0 <= i < longer.len() && #[trigger] longer[i] == wanted;
        if i < types.len() {
            assert(types[i] == wanted);
        }
    }
}

/// What is known of a message.
#[derive(Debug)]
pub struct MessageData {
    pub thread_id: u32,
    pub mailboxes: Vec<u32>,
}

/// The objects that refer to a blob, by their type.
#[derive(Debug)]
pub struct BlobInfo {
    pub id: BlobId,
    pub matched_ids: Vec<(DataType, Vec<Id>)>,
}

/// What has to be asked to find the objects that refer to a blob.
#[derive(Clone, Copy, Debug, PartialEq, Eq, Structural)]
pub enum LookupStep {
    /// Nothing: the account has no such blob.
    NotFound,
    /// Nothing: the blob is there, and no object refers to it.
    Unreferenced,
    /// The message with this document.
    AskMessage(u32),
    /// Nothing: the document of the collection refers to it.
    Document { collection: Collection, document_id: u32 },
}

/// What has to be asked to find the objects of an account that refer to a blob.
pub open spec fn lookup_step(account_id: u32, class: BlobClass) -> LookupStep {
    match class {
        BlobClass::Linked { account_id: owner, collection, document_id } => if owner
            != account_id {
            LookupStep::NotFound
        } else if collection == Collection::Email {
            LookupStep::AskMessage(document_id)
        } else {
            LookupStep::Document { collection, document_id }
        },
        BlobClass::Reserved { account_id: owner, .. } => if owner != account_id {
            LookupStep::NotFound
        } else {
            LookupStep::Unreferenced
        },
    }
}

/// Decides what has to be asked to find the objects of an account that refer to
/// a blob.
pub fn blob_lookup(account_id: u32, class: &BlobClass) -> (step: LookupStep)
    ensures
        step == lookup_step(account_id, *class),
{
    match *class {
        BlobClass::Linked { account_id: owner, collection, document_id } => {
            if owner != account_id {
                LookupStep::NotFound
            } else {
                match collection {
                    Collection::Email => LookupStep::AskMessage(document_id),
                    _ => LookupStep::Document { collection, document_id },
                }
            }
        },
        BlobClass::Reserved { account_id: owner, .. } => {
            if owner != account_id {
                LookupStep::NotFound
            } else {
                LookupStep::Unreferenced
            }
        },
    }
}

/// The objects of some types, with their ids.
pub open spec fn matches_view(list: Seq<(DataType, Vec<Id>)>) -> Seq<(DataType, Seq<Id>)> {
    list.map_values(|m: (DataType, Vec<Id>)| (m.0, m.1@))
}

/// One object of a type, if that is looked for.
pub open spec fn match_if(wanted: bool, data_type: DataType, ids: Seq<Id>) -> Seq<
    (DataType, Seq<Id>),
> {
    if wanted {
        seq![(data_type, ids)]
    } else {
        Seq::empty()
    }
}

/// The objects that refer to a message's blob: the message, its thread and its
/// mailboxes, as far as they are looked for. A message that is gone has none.
pub open spec fn message_matches(
    types: Seq<DataType>,
    document_id: u32,
    message: Option<MessageData>,
) -> Seq<(DataType, Seq<Id>)> {
    match message {
        None => Seq::empty(),
        Some(message) => match_if(
            has_type(types, DataType::Email),
            DataType::Email,
            seq![Id { prefix_id: message.thread_id, document_id }],
        ) + match_if(
            has_type(types, DataType::Thread),
            DataType::Thread,
            seq![Id::spec_of(message.thread_id)],
        ) + match_if(
            has_type(types, DataType::Mailbox),
            DataType::Mailbox,
            message.mailboxes@.map_values(|mailbox: u32| Id::spec_of(mailbox)),
        ),
    }
}

/// Adds the objects of a type.
fn push_match(list: &mut Vec<(DataType, Vec<Id>)>, data_type: DataType, ids: Vec<Id>)
    ensures
        matches_view(final(list)@) == matches_view(old(list)@) + seq![(data_type, ids@)],
{
    list.push((data_type, ids));
    assert(matches_view(list@) =~= matches_view(old(list)@) + seq![(data_type, ids@)]);
}

/// Finds the objects that refer to a message's blob.
pub fn match_message(lookup: &LookupTypes, document_id: u32, message: &Option<MessageData>) -> (list:
    Vec<(DataType, Vec<Id>)>)
    requires
        lookup.well_formed(),
    ensures
        matches_view(list@) == message_matches(lookup.types@, document_id, *message),
{
    let mut list: Vec<(DataType, Vec<Id>)> = Vec::new();
    assert(matches_view(list@) =~= Seq::empty());
    if let Some(message) = message {
        if lookup.include_email {
            let mut ids: Vec<Id> = Vec::new();
            ids.push(Id { prefix_id: message.thread_id, document_id });
            assert(ids@ =~= seq![Id { prefix_id: message.thread_id, document_id }]);
            push_match(&mut list, DataType::Email, ids);
        }
        if lookup.include_thread {
            let mut ids: Vec<Id> = Vec::new();
            ids.push(Id::of(message.thread_id));
            assert(ids@ =~= seq![Id::spec_of(message.thread_id)]);
            push_match(&mut list, DataType::Thread, ids);
        }
        if lookup.include_mailbox {
            let ids = mailbox_ids(&message.mailboxes);
            push_match(&mut list, DataType::Mailbox, ids);
        }
        assert(matches_view(list@) =~= message_matches(
            lookup.types@,
            document_id,
            Some(*message),
        ));
    }
    list
}

/// The ids of mailboxes.
fn mailbox_ids(mailboxes: &Vec<u32>) -> (ids: Vec<Id>)
    ensures
        ids@ == mailboxes@.map_values(|mailbox: u32| Id::spec_of(mailbox)),
{
    let mut ids: Vec<Id> = Vec::new();
    let mut i: usize = 0;
    while i < mailboxes.len()
        invariant
            i <= mailboxes@.len(),
            ids@ == mailboxes@.take(i as int).map_values(|mailbox: u32| Id::spec_of(mailbox)),
        decreases mailboxes@.len() - i,
    {
        ids.push(Id::of(mailboxes[i]));
        i = i + 1;
        assert(ids@ =~= mailboxes@.take(i as int).map_values(|mailbox: u32| Id::spec_of(mailbox)));
    }
    assert(mailboxes@.take(i as int) =~= mailboxes@);
    ids
}

/// The object that refers to another document's blob.
pub open spec fn document_matches(
    types: Seq<DataType>,
    document_id: u32,
    data_type: Option<DataType>,
) -> Seq<(DataType, Seq<Id>)> {
    match data_type {
        Some(data_type) => match_if(
            has_type(types, data_type),
            data_type,
            seq![Id::spec_of(document_id)],
        ),
        None => Seq::empty(),
    }
}

/// Finds the object that refers to another document's blob: the document, if its
/// collection has a type and that is looked for.
pub fn match_document(
    lookup: &LookupTypes,
    document_id: u32,
    data_type: Option<DataType>,
) -> (list: Vec<(DataType, Vec<Id>)>)
    ensures
        matches_view(list@) == document_matches(lookup.types@, document_id, data_type),
{
    let mut list: Vec<(DataType, Vec<Id>)> = Vec::new();
    assert(matches_view(list@) =~= Seq::empty());
    if let Some(data_type) = data_type {
        if lookup.contains(data_type) {
            let mut ids: Vec<Id> = Vec::new();
            ids.push(Id::of(document_id));
            assert(ids@ =~= seq![Id::spec_of(document_id)]);
            push_match(&mut list, data_type, ids);
            assert(matches_view(list@) =~= seq![(data_type, seq![Id::spec_of(document_id)])]);
        }
    }
    list
}

/// The objects of an account that refer to a blob, once all was asked: `message`
/// is the message that the blob is linked to, `data_type` the type of the
/// collection that it is linked to. None if the account has no such blob.
pub open spec fn blob_matches(
    account_id: u32,
    types: Seq<DataType>,
    class: BlobClass,
    message: Option<MessageData>,
    data_type: Option<DataType>,
) -> Option<Seq<(DataType, Seq<Id>)>> {
    match class {
        BlobClass::Linked { account_id: owner, collection, document_id } => if owner
            != account_id {
            None
        } else if collection == Collection::Email {
            Some(message_matches(types, document_id, message))
        } else {
            Some(document_matches(types, document_id, data_type))
        },
        BlobClass::Reserved { account_id: owner, .. } => if owner != account_id {
            None
        } else {
            Some(Seq::empty())
        },
    }
}

/// Whether `info` is the answer for a blob.
pub open spec fn tells_of(
    account_id: u32,
    types: Seq<DataType>,
    id: BlobId,
    message: Option<MessageData>,
    data_type: Option<DataType>,
    info: Option<BlobInfo>,
) -> bool {
    &&& match blob_matches(account_id, types, id.class, message, data_type) {
        Some(matches) => {
            &&& info matches Some(info)
            &&& info.id == id
            &&& matches_view(info.matched_ids@) == matches
        },
        None => info is None,
    }
}

/// Makes the answer for a blob, once all was asked. None if the account has no
/// such blob.
pub fn blob_info(
    account_id: u32,
    lookup: &LookupTypes,
    id: &BlobId,
    message: &Option<MessageData>,
    data_type: Option<DataType>,
) -> (info: Option<BlobInfo>)
    requires
        lookup.well_formed(),
    ensures
        tells_of(account_id, lookup.types@, *id, *message, data_type, info),
{
    let matched_ids: Vec<(DataType, Vec<Id>)> = match blob_lookup(account_id, &id.class) {
        LookupStep::NotFound => {
            return None;
        },
        LookupStep::Unreferenced => {
            let matched_ids: Vec<(DataType, Vec<Id>)> = Vec::new();
            assert(matches_view(matched_ids@) =~= Seq::empty());
            matched_ids
        },
        LookupStep::AskMessage(document_id) => match_message(lookup, document_id, message),
        LookupStep::Document { document_id, .. } => match_document(lookup, document_id, data_type),
    };
    Some(BlobInfo { id: *id, matched_ids })
}

/// A blob of another account is never found.
pub proof fn law_other_accounts_are_hidden(
    account_id: u32,
    types: Seq<DataType>,
    class: BlobClass,
    message: Option<MessageData>,
    data_type: Option<DataType>,
)
    ensures
        blob_matches(account_id, types, class, message, data_type) is Some <==> account_id
            == match class {
            BlobClass::Linked { account_id, .. } => account_id,
            BlobClass::Reserved { account_id, .. } => account_id,
        },
{
}

/// Only what is looked for is found.
pub proof fn law_only_wanted_types_match(
    types: Seq<DataType>,
    document_id: u32,
    message: Option<MessageData>,
    i: int,
)
    requires
        0 <= i < message_matches(types, document_id, message).len(),
    ensures
        has_type(types, message_matches(types, document_id, message)[i].0),
{
}

/// Every type among messages, threads and mailboxes that is looked for has its entry for a
/// message that is there, whatever other types are looked for: the message with its thread,
/// the thread, and all the mailboxes in order. Each has only one, and there are no others.
pub proof fn law_wanted_types_match(
    types: Seq<DataType>,
    document_id: u32,
    message: MessageData,
    i: int,
)
    requires
        0 <= i < types.len(),
    ensures
        ({
            let matches = message_matches(types, document_id, Some(message));
            &&& types[i] == DataType::Email ==> matches.contains(
                (
                    DataType::Email,
                    seq![Id { prefix_id: message.thread_id, document_id }],
                ),
            )
            &&& types[i] == DataType::Thread ==> matches.contains(
                (DataType::Thread, seq![Id { prefix_id: 0, document_id: message.thread_id }]),
            )
            &&& types[i] == DataType::Mailbox ==> exists|k: int|
                0 <= k < matches.len() && (#[trigger] matches[k]).0 == DataType::Mailbox
                    && lists_mailboxes(matches[k].1, message.mailboxes@)
            &&& forall|j: int, k: int|
                0 <= j < k < matches.len() ==> (#[trigger] matches[j]).0 != (
                #[trigger] matches[k]).0
            &&& forall|j: int|
                0 <= j < matches.len() ==> {
                    ||| (#[trigger] matches[j]).0 == DataType::Email
                    ||| matches[j].0 == DataType::Thread
                    ||| matches[j].0 == DataType::Mailbox
                }
        }),
        message_matches(types, document_id, None).len() == 0,
{
    let matches = message_matches(types, document_id, Some(message));
    let email = match_if(
        has_type(types, DataType::Email),
        DataType::Email,
        seq![Id { prefix_id: message.thread_id, document_id }],
    );
    let thread = match_if(
        has_type(types, DataType::Thread),
        DataType::Thread,
        seq![Id::spec_of(message.thread_id)],
    );
    let mailbox = match_if(
        has_type(types, DataType::Mailbox),
        DataType::Mailbox,
        message.mailboxes@.map_values(|mailbox: u32| Id::spec_of(mailbox)),
    );
    assert(has_type(types, types[i]));
    assert(matches =~= email + thread + mailbox);
    if types[i] == DataType::Email {
        assert(matches[0] == email[0]);
    }
    if types[i] == DataType::Thread {
        assert(matches[email.len() as int] == thread[0]);
    }
    if types[i] == DataType::Mailbox {
        let k = (email.len() + thread.len()) as int;
        assert(matches[k] == mailbox[0]);
        assert(lists_mailboxes(matches[k].1, message.mailboxes@));
    }
}

/// Whether these are the ids of these mailboxes, in order.
pub open spec fn lists_mailboxes(ids: Seq<Id>, mailboxes: Seq<u32>) -> bool {
    &&& ids.len() == mailboxes.len()
    &&& forall|i: int|
        0 <= i < ids.len() ==> (#[trigger] ids[i]) == (Id {
            prefix_id: 0,
            document_id: mailboxes[i],
        })
}

/// A document other than a message is found just if its type is looked for, and then it is
/// the only thing that is.
pub proof fn law_wanted_documents_match(
    types: Seq<DataType>,
    document_id: u32,
    data_type: DataType,
)
    ensures
        types.contains(data_type) ==> document_matches(types, document_id, Some(data_type))
            == seq![(data_type, seq![Id { prefix_id: 0, document_id }])],
        !types.contains(data_type) ==> document_matches(types, document_id, Some(data_type)).len()
            == 0,
        document_matches(types, document_id, None).len() == 0,
{
    if types.contains(data_type) {
        let i = choose|i: int| 0 <= i < types.len() && types[i] == data_type;
        assert(has_type(types, data_type));
    }
}

/// A blob that is reserved for the account is there though no object refers to it; one that
/// is linked to a message or to another document of the account is asked about by that
/// document; and none is asked about for another account.
pub proof fn law_documents_are_looked_up(
    account_id: u32,
    owner: u32,
    collection: Collection,
    document_id: u32,
    expires: u64,
)
    ensures
        owner != account_id ==> lookup_step(
            account_id,
            BlobClass::Linked { account_id: owner, collection, document_id },
        ) is NotFound && lookup_step(
            account_id,
            BlobClass::Reserved { account_id: owner, expires },
        ) is NotFound,
        lookup_step(account_id, BlobClass::Reserved { account_id, expires }) is Unreferenced,
        lookup_step(
            account_id,
            BlobClass::Linked { account_id, collection: Collection::Email, document_id },
        ) == LookupStep::AskMessage(document_id),
        collection != Collection::Email ==> lookup_step(
            account_id,
            BlobClass::Linked { account_id, collection, document_id },
        ) == (LookupStep::Document { collection, document_id }),
{
}

/// What is found for a blob of the account is what its document gives: the objects of a
/// message for a message, the document for any other, and nothing for a blob that is only
/// reserved.
pub proof fn law_lookup_gives_what_refers(
    account_id: u32,
    types: Seq<DataType>,
    collection: Collection,
    document_id: u32,
    expires: u64,
    message: Option<MessageData>,
    data_type: Option<DataType>,
)
    ensures
        blob_matches(
            account_id,
            types,
            BlobClass::Linked { account_id, collection: Collection::Email, document_id },
            message,
            data_type,
        ) == Some(message_matches(types, document_id, message)),
        collection != Collection::Email ==> blob_matches(
            account_id,
            types,
            BlobClass::Linked { account_id, collection, document_id },
            message,
            data_type,
        ) == Some(document_matches(types, document_id, data_type)),
        blob_matches(
            account_id,
            types,
            BlobClass::Reserved { account_id, expires },
            message,
            data_type,
        ) == Some(Seq::<(DataType, Seq<Id>)>::empty()),
{
}

/// A type is looked for just if it was named.
pub proof fn law_named_types_are_looked_for(types: Seq<DataType>, wanted: DataType)
    ensures
        has_type(types, wanted) <==> types.contains(wanted),
{
    if types.contains(wanted) {
        let i = choose|i: int| 0 <= i < types.len() && types[i] == wanted;
        assert(types[i] == wanted);
    }
}

/// A request is refused just if it names a type that is not known. Otherwise what is looked
/// for is what it names, in order, and of messages, mailboxes and threads it is known
/// whether they are.
pub proof fn law_types_are_named(
    names: Seq<Option<DataType>>,
    result: Result<LookupTypes, BlobLookupError>,
    wanted: DataType,
)
    requires
        names_types(names, result),
    ensures
        result is Err <==> names.contains(None),
        result matches Ok(lookup) ==> {
            &&& lookup.types@.len() == names.len()
            &&& forall|i: int|
                0 <= i < names.len() ==> Some(#[trigger] lookup.types@[i]) == names[i]
            &&& lookup.include_email <==> names.contains(Some(DataType::Email))
            &&& lookup.include_mailbox <==> names.contains(Some(DataType::Mailbox))
            &&& lookup.include_thread <==> names.contains(Some(DataType::Thread))
        },
{
    if let Ok(lookup) = result {
        assert forall|i: int| 0 <= i < names.len() implies Some(#[trigger] lookup.types@[i])
            == names[i] by {
            assert(names[i] is Some);
        }
        lemma_named(names, lookup.types@, DataType::Email);
        lemma_named(names, lookup.types@, DataType::Mailbox);
        lemma_named(names, lookup.types@, DataType::Thread);
    }
}

/// A type is among those that were named just if it is looked for.
proof fn lemma_named(names: Seq<Option<DataType>>, types: Seq<DataType>, wanted: DataType)
    requires
        types.len() == names.len(),
        forall|i: int| 0 <= i < names.len() ==> Some(#[trigger] types[i]) == names[i],
    ensures
        has_type(types, wanted) <==> names.contains(Some(wanted)),
{
    if has_type(types, wanted) {
        let i = choose|i: int| 0 <= i < types.len() && #[trigger] types[i] == wanted;
        assert(names[i] == Some(wanted));
    }
    if names.contains(Some(wanted)) {
        let i = choose|i: int| 0 <= i < names.len() && names[i] == Some(wanted);
        assert(types[i] == wanted);
    }
}

/// There is an answer for a blob just if the account owns it, and it is about that blob.
pub proof fn law_answer_is_about_the_blob(
    account_id: u32,
    types: Seq<DataType>,
    id: BlobId,
    message: Option<MessageData>,
    data_type: Option<DataType>,
    info: Option<BlobInfo>,
)
    requires
        tells_of(account_id, types, id, message, data_type, info),
    ensures
        info is Some <==> account_id == match id.class {
            BlobClass::Linked { account_id, .. } => account_id,
            BlobClass::Reserved { account_id, .. } => account_id,
        },
        info matches Some(info) ==> info.id == id,
        info matches Some(info) ==> (id.class is Reserved ==> info.matched_ids@.len() == 0),
{
    if let Some(info) = info {
        assert(matches_view(info.matched_ids@).len() == info.matched_ids@.len());
    }
}

} // verus!
