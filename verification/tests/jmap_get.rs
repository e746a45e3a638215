use blob_store::blob_access::AccessStep;
use blob_store::blob_get::{
    default_properties, BlobDataRequest, BlobGet, BlobGetError, BlobProperty, BlobRead, BlobValue,
    DataProperty, DigestProperty, EntryStep, GetResponse, Hashers,
    LengthQuery,
};
use blob_store::blob_hash::BlobHash;
use blob_store::blob_id::{BlobClass, BlobId};
use blob_store::byte_range::ByteRange;

fn blob_id(seed: u8) -> BlobId {
    BlobId {
        hash: BlobHash::generate(&[seed]),
        class: BlobClass::Reserved { account_id: seed as u32, expires: 0 },
        section: None,
    }
}

fn empty() -> GetResponse {
    GetResponse { list: Vec::new(), not_found: Vec::new() }
}

fn text_of(value: &BlobValue) -> &str {
    match value {
        BlobValue::Text(text) => text,
        other => panic!("{other:?}"),
    }
}

fn answer(properties: &[BlobProperty], length: u64, range: (usize, usize), data: &[u8]) -> GetResponse {
    let mut get = BlobGet::blob_get(properties, Some(range.0), Some(range.1), 1000);
    get.length_known(Some(length)).unwrap();
    let read = match get.entry_step(0) {
        EntryStep::Build => BlobRead::Unneeded,
        EntryStep::ReadContents(_) => BlobRead::Contents(data.to_vec()),
        EntryStep::ReadStream(_) => {
            let mut hashers = Hashers::new(properties);
            for piece in data.chunks(2) {
                hashers.update(piece);
            }
            BlobRead::Digested(hashers)
        }
        EntryStep::NotFound => BlobRead::Missing,
    };
    let mut response = empty();
    get.answer(&mut response, 0, &blob_id(1), properties, read);
    response
}

const TEXT: BlobProperty = BlobProperty::Data(DataProperty::AsText);
const BASE64: BlobProperty = BlobProperty::Data(DataProperty::AsBase64);
const EITHER: BlobProperty = BlobProperty::Data(DataProperty::Either);
const SHA: BlobProperty = BlobProperty::Digest(DigestProperty::Sha);
const SHA256: BlobProperty = BlobProperty::Digest(DigestProperty::Sha256);
const SHA512: BlobProperty = BlobProperty::Digest(DigestProperty::Sha512);

#[test]
fn requests_say_how_much_is_needed() {
    let requested = |properties: &[BlobProperty]| {
        BlobGet::blob_get(properties, None, None, 10).requested
    };
    assert_eq!(requested(&default_properties()), BlobDataRequest::Contents);
    assert_eq!(requested(&[BlobProperty::Size, SHA]), BlobDataRequest::Hash);
    assert_eq!(requested(&[SHA, BASE64]), BlobDataRequest::Contents);
    assert_eq!(requested(&[BlobProperty::Id]), BlobDataRequest::Nothing);
    assert_eq!(requested(&[]), BlobDataRequest::Nothing);
    assert_eq!(default_properties(), [BlobProperty::Id, EITHER, BlobProperty::Size]);
}

#[test]
fn requests_mean_a_range() {
    let range = |offset, length| BlobGet::blob_get(&[], offset, length, 10).range;
    assert_eq!(range(None, None), ByteRange::full());
    assert_eq!(range(Some(5), None), ByteRange::new(5, u64::MAX));
    assert_eq!(range(Some(5), Some(6)), ByteRange::new(5, 11));
    assert_eq!(range(Some(5), Some(usize::MAX)), ByteRange::new(5, u64::MAX));
}

#[test]
fn contents_of_an_answer_are_bounded() {
    let mut get = BlobGet::blob_get(&[TEXT], Some(10), Some(40), 100);
    assert!(get.length_known(Some(1000)).is_ok());
    assert!(get.length_known(None).is_ok());
    assert!(get.length_known(Some(5)).is_ok());
    assert!(get.length_known(Some(70)).is_ok());
    assert_eq!(get.buffered, 80);
    let refused = get.length_known(Some(31));
    assert_eq!(refused, Err(BlobGetError::RequestTooLarge));
    assert_eq!(
        refused.unwrap_err().details(),
        "Blob content is too large to serve inline. Use the download endpoint or request a \
         smaller range."
    );
    let mut hashes = BlobGet::blob_get(&[SHA], None, None, 100);
    assert!(hashes.length_known(Some(u64::MAX)).is_ok());
}

#[test]
fn unknown_blobs_are_not_found() {
    let properties = [TEXT];
    let mut get = BlobGet::blob_get(&properties, None, None, 100);
    get.length_known(None).unwrap();
    get.length_known(Some(3)).unwrap();
    assert_eq!(get.entry_step(0), EntryStep::NotFound);
    assert_eq!(get.entry_step(1), EntryStep::ReadContents(ByteRange::full()));
    let mut response = empty();
    get.answer(&mut response, 0, &blob_id(1), &properties, BlobRead::Unneeded);
    get.answer(&mut response, 1, &blob_id(2), &properties, BlobRead::Missing);
    assert_eq!(response.list.len(), 0);
    assert_eq!(response.not_found.len(), 2);
    assert_eq!(response.not_found[1].hash, blob_id(2).hash);
}

#[test]
fn every_blob_is_answered_in_order() {
    let properties = [BlobProperty::Id, TEXT];
    let mut get = BlobGet::blob_get(&properties, None, None, 100);
    let lengths = [Some(1), None, Some(2), Some(3), None];
    for length in lengths {
        get.length_known(length).unwrap();
    }
    assert_eq!(get.lengths, lengths);
    let reads = [
        BlobRead::Contents(b"a".to_vec()),
        BlobRead::Missing,
        BlobRead::Missing,
        BlobRead::Contents(b"ddd".to_vec()),
        BlobRead::Missing,
    ];
    let mut response = empty();
    for (index, read) in reads.into_iter().enumerate() {
        get.answer(&mut response, index, &blob_id(index as u8), &properties, read);
    }
    let texts: Vec<&str> = response.list.iter().map(|entry| text_of(&entry[1].1)).collect();
    assert_eq!(texts, ["a", "ddd"]);
    let missing: Vec<BlobHash> = response.not_found.iter().map(|id| id.hash).collect();
    assert_eq!(missing, [blob_id(1).hash, blob_id(2).hash, blob_id(4).hash]);
}

#[test]
fn text_is_returned_as_text() {
    let response = answer(&default_properties(), 5, (0, 3), b"abc");
    let entry = &response.list[0];
    assert_eq!(entry.len(), 3);
    assert!(matches!(entry[0], (BlobProperty::Id, BlobValue::BlobId(id)) if id.hash == blob_id(1).hash));
    assert_eq!((entry[1].0, text_of(&entry[1].1)), (TEXT, "abc"));
    assert!(matches!(entry[2], (BlobProperty::Size, BlobValue::Number(5))));
}

#[test]
fn other_contents_are_returned_in_base64() {
    let response = answer(&[EITHER], 3, (0, 3), &[0xff, 0xfe, 0x41]);
    let entry = &response.list[0];
    assert!(matches!(entry[0], (BlobProperty::IsEncodingProblem, BlobValue::Bool(true))));
    assert_eq!((entry[1].0, text_of(&entry[1].1)), (BASE64, "//5B"));
    let response = answer(&[TEXT], 3, (0, 3), &[0xff, 0xfe, 0x41]);
    let entry = &response.list[0];
    assert!(matches!(entry[0], (BlobProperty::IsEncodingProblem, BlobValue::Bool(true))));
    assert!(matches!(entry[1], (TEXT, BlobValue::Null)));
}

#[test]
fn base64_is_padded() {
    for (data, expected) in [
        (&b""[..], ""),
        (b"f", "Zg=="),
        (b"fo", "Zm8="),
        (b"foo", "Zm9v"),
        (b"foob", "Zm9vYg=="),
        (&[0xfb, 0xff, 0xbf][..], "+/+/"),
    ] {
        let response = answer(&[BASE64], data.len() as u64, (0, data.len()), data);
        assert_eq!(text_of(&response.list[0][0].1), expected);
    }
    let long = vec![0u8; 300];
    let response = answer(&[BASE64], 300, (0, 300), &long);
    assert_eq!(text_of(&response.list[0][0].1), "A".repeat(400));
}

#[test]
fn digests_are_taken_while_reading() {
    let expected = [
        "qZk+NkcGgWq6PiVxeFDCbJzQ2J0=",
        "ungWv48Bz+pBQUDeXa4iI7ADYaOWF3qctBD/YfIAFa0=",
        "3a81oZNherrMQXNJriBBMRLm+k6JqX6iCp7u5ktV05ohkpkqJ0/BqDa6PCOj/uu9RU1EI2Q86A4qmslPpUyknw==",
    ];
    let response = answer(&[SHA, SHA256, SHA512, SHA], 3, (0, 3), b"abc");
    let entry = &response.list[0];
    assert_eq!(entry.len(), 4);
    for i in 0..3 {
        assert_eq!(text_of(&entry[i].1), expected[i]);
    }
    assert_eq!(text_of(&entry[3].1), expected[0]);
    let response = answer(&[SHA256, TEXT], 3, (0, 3), b"abc");
    assert_eq!(text_of(&response.list[0][0].1), expected[1]);
    assert_eq!(text_of(&response.list[0][1].1), "abc");
}

#[test]
fn ranges_beyond_the_blob_are_marked() {
    let truncated = |offset: Option<usize>, length: Option<usize>| {
        let properties = [BlobProperty::Size];
        let mut get = BlobGet::blob_get(&properties, offset, length, 10);
        get.length_known(Some(10)).unwrap();
        let mut response = empty();
        get.answer(&mut response, 0, &blob_id(1), &properties, BlobRead::Unneeded);
        matches!(response.list[0][0], (BlobProperty::IsTruncated, BlobValue::Bool(true)))
    };
    assert!(!truncated(None, None));
    assert!(!truncated(Some(0), Some(10)));
    assert!(truncated(Some(0), Some(11)));
    assert!(truncated(Some(11), None));
    assert!(!truncated(Some(10), None));
}

#[test]
fn other_properties_are_null() {
    let response = answer(&[BlobProperty::IsTruncated], 3, (0, 3), b"");
    assert!(matches!(response.list[0][0], (BlobProperty::IsTruncated, BlobValue::Null)));
}

#[test]
fn refused_blobs_are_not_found() {
    let mut get = BlobGet::blob_get(&default_properties(), None, None, 10);
    assert_eq!(
        get.access_known(AccessStep::AskStore),
        LengthQuery::Ask(AccessStep::AskStore)
    );
    assert_eq!(get.access_known(AccessStep::Denied), LengthQuery::NextBlob);
    assert_eq!(get.access_known(AccessStep::Granted), LengthQuery::ReadLength);
    get.length_known(Some(3)).unwrap();
    assert_eq!(get.lengths, vec![None, Some(3)]);
    assert_eq!(get.entry_step(0), EntryStep::NotFound);
}
