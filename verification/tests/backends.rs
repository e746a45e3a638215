use blob_store::backend::{
    select_value, AzureCredentials, AzureRange, AzureReply, AzureStore, FsStore,
};
use blob_store::blob_store::StoreError;
use blob_store::byte_range::ByteRange;
use blob_store::jumbo_read_only::JumboBytes;
use blob_store::stream::BlobReadStream;

#[test]
fn values_are_cut_to_the_range() {
    let value = b"abcdef".to_vec();
    assert_eq!(select_value(value.clone(), ByteRange::full()), value);
    assert_eq!(select_value(value.clone(), ByteRange::new(2, 4)), b"cd");
    assert_eq!(select_value(value.clone(), ByteRange::new(4, 400)), b"ef");
    assert_eq!(select_value(value.clone(), ByteRange::new(7, 9)), b"");
    assert_eq!(select_value(value, ByteRange::new(3, 2)), b"");
}

#[test]
fn paths_have_a_directory_per_level() {
    let store = FsStore::open(String::from("/blobs"), 2);
    assert_eq!(
        store.build_path(&[0x0a, 0xff, 0x10], String::from("name")),
        ["/blobs", "a", "ff", "name"]
    );
    let deep = FsStore::open(String::from("/blobs"), 99);
    assert_eq!(deep.build_path(&[0; 9], String::from("n")).len(), 7);
    assert_eq!(deep.build_path(&[1, 2], String::from("n")), ["/blobs", "1", "2", "n"]);
    let flat = FsStore::open(String::from("/blobs"), 0);
    assert_eq!(flat.build_path(&[1, 2], String::from("n")), ["/blobs", "n"]);
    assert_ne!(
        flat.build_path(&[1], String::from("a")),
        flat.build_path(&[1], String::from("b"))
    );
}

#[test]
fn files_are_read_written_and_removed() {
    assert!(matches!(FsStore::get_blob(ByteRange::full()), (None, BlobReadStream::File)));
    assert!(matches!(
        FsStore::get_blob(ByteRange::new(5, u64::MAX)),
        (Some(5), BlobReadStream::File)
    ));
    assert!(matches!(
        FsStore::get_blob(ByteRange::new(5, 8)),
        (Some(5), BlobReadStream::FileSegment { limit: 3 })
    ));
    assert!(FsStore::put_blob(None, 3));
    assert!(FsStore::put_blob(Some(4), 3));
    assert!(!FsStore::put_blob(Some(3), 3));
    assert!(FsStore::delete_blob(Some(0)));
    assert!(!FsStore::delete_blob(None));
}

#[test]
fn exactly_one_credential_is_needed() {
    let key = || Some(String::from("key"));
    let token = || Some(String::from("token"));
    assert!(matches!(
        AzureStore::choose_credentials(key(), None),
        Ok(AzureCredentials::AccessKey(k)) if k == "key"
    ));
    assert!(matches!(
        AzureStore::choose_credentials(None, token()),
        Ok(AzureCredentials::SasToken(t)) if t == "token"
    ));
    let text = "Failed to create credentials: exactly one of 'azure-access-key' and 'sas-token' \
                must be specified";
    assert_eq!(AzureStore::choose_credentials(None, None).unwrap_err(), text);
    assert_eq!(AzureStore::choose_credentials(key(), token()).unwrap_err(), text);
    assert_eq!(AzureStore::retries(3), 6);
}

#[test]
fn names_in_the_service_have_the_prefix() {
    assert_eq!(AzureStore::open(None).build_key("abc"), "abc");
    assert_eq!(AzureStore::open(Some(String::from("p/"))).build_key("abc"), "p/abc");
    let store = AzureStore::open(Some(String::from("p/")));
    assert_ne!(store.build_key("abc"), store.build_key("abd"));
}

#[test]
fn replies_of_the_service_are_told_apart() {
    assert_eq!(AzureStore::get_blob(ByteRange::new(4, u64::MAX)), AzureRange::From(4));
    assert_eq!(
        AzureStore::get_blob(ByteRange::new(4, 9)),
        AzureRange::Bounded { start: 4, end: 9 }
    );
    assert!(matches!(AzureStore::get_blob_length(AzureReply::Done(7)), Ok(Some(7))));
    assert!(matches!(AzureStore::get_blob_length(AzureReply::NotFound), Ok(None)));
    assert!(matches!(
        AzureStore::get_blob_length(AzureReply::Failed(String::from("no"))),
        Err(StoreError::AzureError(text)) if text == "no"
    ));
    assert!(matches!(AzureStore::delete_blob(AzureReply::Done(())), Ok(true)));
    assert!(matches!(AzureStore::delete_blob(AzureReply::NotFound), Ok(false)));
    assert!(AzureStore::delete_blob(AzureReply::Failed(String::new())).is_err());
    assert!(AzureStore::put_blob(&mut JumboBytes::opened(3, 0)).is_none());
}
