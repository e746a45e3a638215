use blob_store::blob_access::{
    blob_download, has_access_blob, needs_headers, rebuild_message, AccessFacts, AccessStep,
    DownloadStep, MessageHeaders,
};
use blob_store::blob_id::{BlobClass, BlobSection, Collection};
use blob_store::byte_range::ByteRange;

fn linked(collection: Collection) -> BlobClass {
    BlobClass::Linked { account_id: 7, collection, document_id: 9 }
}

const RESERVED: BlobClass = BlobClass::Reserved { account_id: 7, expires: 100 };

const STRANGER: AccessFacts = AccessFacts {
    superuser_class: false,
    may_fetch_any: false,
    member: false,
    stored: None,
    shared: None,
};

const GRANTED: AccessFacts = AccessFacts {
    superuser_class: false,
    may_fetch_any: false,
    member: true,
    stored: Some(true),
    shared: None,
};

#[test]
fn superusers_are_asked_nothing() {
    let facts = AccessFacts { superuser_class: true, may_fetch_any: true, ..STRANGER };
    assert_eq!(has_access_blob(&RESERVED, &facts), AccessStep::Granted);
    let facts = AccessFacts { superuser_class: true, ..STRANGER };
    assert_eq!(has_access_blob(&RESERVED, &facts), AccessStep::AskStore);
    let facts = AccessFacts { may_fetch_any: true, stored: Some(false), ..STRANGER };
    assert_eq!(has_access_blob(&RESERVED, &facts), AccessStep::Denied);
}

#[test]
fn members_read_what_is_stored() {
    let member = AccessFacts { member: true, ..STRANGER };
    assert_eq!(has_access_blob(&RESERVED, &member), AccessStep::AskStore);
    for (stored, step) in [(true, AccessStep::Granted), (false, AccessStep::Denied)] {
        let facts = AccessFacts { stored: Some(stored), ..member };
        assert_eq!(has_access_blob(&RESERVED, &facts), step);
        assert_eq!(has_access_blob(&linked(Collection::Other(3)), &facts), step);
    }
}

#[test]
fn strangers_read_what_is_shared() {
    let facts = AccessFacts { stored: Some(true), ..STRANGER };
    assert_eq!(has_access_blob(&RESERVED, &facts), AccessStep::Denied);
    assert_eq!(has_access_blob(&linked(Collection::Other(3)), &facts), AccessStep::Denied);
    assert_eq!(
        has_access_blob(&linked(Collection::Email), &facts),
        AccessStep::AskMessages { account_id: 7, document_id: 9 }
    );
    for collection in [Collection::FileNode, Collection::ContactCard, Collection::CalendarEvent] {
        assert_eq!(
            has_access_blob(&linked(collection), &facts),
            AccessStep::AskResources { account_id: 7, collection, document_id: 9 }
        );
        let shared = AccessFacts { shared: Some(true), ..facts };
        assert_eq!(has_access_blob(&linked(collection), &shared), AccessStep::Granted);
        let private = AccessFacts { shared: Some(false), ..facts };
        assert_eq!(has_access_blob(&linked(collection), &private), AccessStep::Denied);
    }
    let other = AccessFacts { shared: Some(true), ..facts };
    assert_eq!(has_access_blob(&linked(Collection::Other(3)), &other), AccessStep::Denied);
    assert_eq!(has_access_blob(&RESERVED, &other), AccessStep::Denied);
}

#[test]
fn sections_are_streamed_unless_encoded() {
    let class = linked(Collection::Email);
    let section = |offset_start, size, encoding| {
        Some(BlobSection { offset_start, size, encoding })
    };
    assert_eq!(
        blob_download(&class, &section(10, 5, 0), &GRANTED),
        DownloadStep::Stream(ByteRange::new(10, 15))
    );
    assert_eq!(
        blob_download(&class, &section(10, usize::MAX, 0), &GRANTED),
        DownloadStep::Stream(ByteRange::new(10, u64::MAX))
    );
    assert_eq!(
        blob_download(&class, &section(10, usize::MAX - 1, 0), &GRANTED),
        DownloadStep::Stream(ByteRange::new(10, u64::MAX))
    );
    assert!(matches!(
        blob_download(&class, &section(10, 5, 2), &GRANTED),
        DownloadStep::Decode(BlobSection { encoding: 2, .. })
    ));
    assert_eq!(
        blob_download(&class, &None, &GRANTED),
        DownloadStep::WholeMessage { account_id: 7, document_id: 9 }
    );
    assert_eq!(blob_download(&linked(Collection::FileNode), &None, &GRANTED), DownloadStep::Whole);
    assert_eq!(blob_download(&RESERVED, &None, &GRANTED), DownloadStep::Whole);
}

#[test]
fn messages_get_their_headers_back() {
    let metadata = |offset_body, blob_body_offset| MessageHeaders {
        raw_headers: b"Old: 1\r\n\r\n".to_vec(),
        offset_body,
        blob_body_offset,
    };
    assert!(!needs_headers(&None));
    assert!(!needs_headers(&Some(metadata(5, 5))));
    assert!(needs_headers(&Some(metadata(5, 6))));
    assert_eq!(rebuild_message(&metadata(0, 4), b"New\nbody"), b"Old: 1\r\n\r\nbody");
    assert_eq!(rebuild_message(&metadata(0, 8), b"New\nbody"), b"Old: 1\r\n\r\n");
    assert_eq!(rebuild_message(&metadata(0, 99), b"New\nbody"), b"Old: 1\r\n\r\n");
}

#[test]
fn refused_downloads_are_missing() {
    let class = linked(Collection::Email);
    let section = Some(BlobSection { offset_start: 1, size: 2, encoding: 0 });
    for section in [None, section] {
        assert_eq!(
            blob_download(&class, &section, &STRANGER),
            DownloadStep::Ask(AccessStep::AskStore)
        );
        let there = AccessFacts { stored: Some(true), ..STRANGER };
        assert_eq!(
            blob_download(&class, &section, &there),
            DownloadStep::Ask(AccessStep::AskMessages { account_id: 7, document_id: 9 })
        );
        let private = AccessFacts { shared: Some(false), ..there };
        assert_eq!(blob_download(&class, &section, &private), DownloadStep::NotFound);
        let gone = AccessFacts { stored: Some(false), ..STRANGER };
        assert_eq!(blob_download(&class, &section, &gone), DownloadStep::NotFound);
        assert_eq!(blob_download(&RESERVED, &section, &there), DownloadStep::NotFound);
    }
}
