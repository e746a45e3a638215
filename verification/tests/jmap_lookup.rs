use blob_store::blob_hash::BlobHash;
use blob_store::blob_id::{BlobClass, BlobId, Collection};
use blob_store::blob_lookup::{
    blob_info, blob_lookup, match_document, match_message, BlobLookupError, DataType, Id,
    LookupStep, LookupTypes, MessageData,
};

fn linked_to(account_id: u32, collection: Collection) -> BlobClass {
    BlobClass::Linked { account_id, collection, document_id: 9 }
}

#[test]
fn unknown_types_are_refused() {
    assert!(matches!(
        LookupTypes::new(&[Some(DataType::Email), None]),
        Err(BlobLookupError::UnknownDataType)
    ));
    let lookup = LookupTypes::new(&[Some(DataType::Other(4)), Some(DataType::Thread)]).unwrap();
    assert_eq!(lookup.types, [DataType::Other(4), DataType::Thread]);
    assert!(lookup.include_thread);
    assert!(!lookup.include_email);
    assert!(!lookup.include_mailbox);
    assert!(lookup.contains(DataType::Other(4)));
    assert!(!lookup.contains(DataType::Other(5)));
}

#[test]
fn lookups_depend_on_the_class() {
    assert_eq!(blob_lookup(7, &linked_to(7, Collection::Email)), LookupStep::AskMessage(9));
    assert_eq!(blob_lookup(8, &linked_to(7, Collection::Email)), LookupStep::NotFound);
    assert_eq!(
        blob_lookup(7, &linked_to(7, Collection::FileNode)),
        LookupStep::Document { collection: Collection::FileNode, document_id: 9 }
    );
    let reserved = BlobClass::Reserved { account_id: 7, expires: 1 };
    assert_eq!(blob_lookup(7, &reserved), LookupStep::Unreferenced);
    assert_eq!(blob_lookup(8, &reserved), LookupStep::NotFound);
}

#[test]
fn messages_match_by_type() {
    let message = Some(MessageData { thread_id: 3, mailboxes: vec![5, 6] });
    let all = LookupTypes::new(&[
        Some(DataType::Mailbox),
        Some(DataType::Email),
        Some(DataType::Thread),
    ])
    .unwrap();
    let id = |prefix_id, document_id| Id { prefix_id, document_id };
    assert_eq!(
        match_message(&all, 9, &message),
        [
            (DataType::Email, vec![id(3, 9)]),
            (DataType::Thread, vec![id(0, 3)]),
            (DataType::Mailbox, vec![id(0, 5), id(0, 6)]),
        ]
    );
    assert_eq!(match_message(&all, 9, &None), []);
    let none = LookupTypes::new(&[Some(DataType::Other(1))]).unwrap();
    assert_eq!(match_message(&none, 9, &message), []);
}

#[test]
fn documents_match_their_type() {
    let lookup = LookupTypes::new(&[Some(DataType::Other(4))]).unwrap();
    assert_eq!(
        match_document(&lookup, 9, Some(DataType::Other(4))),
        [(DataType::Other(4), vec![Id { prefix_id: 0, document_id: 9 }])]
    );
    assert_eq!(match_document(&lookup, 9, Some(DataType::Other(5))), []);
    assert_eq!(match_document(&lookup, 9, None), []);
}

#[test]
fn blobs_of_other_accounts_are_hidden() {
    let lookup = LookupTypes::new(&[Some(DataType::Email), Some(DataType::Other(4))]).unwrap();
    let id = |class| BlobId { hash: BlobHash::default(), class, section: None };
    let message = Some(MessageData { thread_id: 3, mailboxes: Vec::new() });
    let email = id(linked_to(7, Collection::Email));
    assert!(blob_info(8, &lookup, &email, &message, None).is_none());
    let info = blob_info(7, &lookup, &email, &message, None).unwrap();
    assert_eq!(info.matched_ids.len(), 1);
    let file = id(linked_to(7, Collection::FileNode));
    let info = blob_info(7, &lookup, &file, &None, Some(DataType::Other(4))).unwrap();
    assert_eq!(info.matched_ids[0].0, DataType::Other(4));
    let reserved = id(BlobClass::Reserved { account_id: 7, expires: 1 });
    assert!(blob_info(7, &lookup, &reserved, &message, None).unwrap().matched_ids.is_empty());
}
