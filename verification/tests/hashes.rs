use blob_store::blob_hash::{BlobHash, HashStep, BLOB_HASH_LEN, HASH_CHUNK_LEN};

#[test]
fn largest_hash_is_all_ones() {
    assert_eq!(BlobHash::new_max().as_slice(), &[255u8; 32][..]);
}

#[test]
fn default_hash_is_empty() {
    let hash = BlobHash::default();
    assert!(hash.is_empty());
    assert_eq!(hash.to_hex(), "0".repeat(64));
    let mut bytes = [0u8; 32];
    bytes[31] = 1;
    assert!(!BlobHash(bytes).is_empty());
}

#[test]
fn hash_of_known_inputs() {
    assert_eq!(
        BlobHash::generate(b"").to_hex(),
        "af1349b9f5f9a1a6a0404dea36dcc9499bcb25c9adc112b7cc9a93cae41f3262"
    );
    assert_eq!(
        BlobHash::generate(b"abc").to_hex(),
        "6437b3ac38465133ffb63b75273a8db548c558465d79db03fd359c6cd5bd9d85"
    );
}

#[test]
fn hash_of_stream_is_hash_of_its_bytes() {
    let mut hasher = BlobHash::generate_from_stream();
    assert!(matches!(hasher.rewound(), HashStep::Read(HASH_CHUNK_LEN)));
    assert!(matches!(hasher.chunk_read(b"a"), HashStep::Read(HASH_CHUNK_LEN)));
    assert!(matches!(hasher.chunk_read(b"bc"), HashStep::Read(HASH_CHUNK_LEN)));
    match hasher.chunk_read(b"") {
        HashStep::Rewind(hash) => assert_eq!(hash, BlobHash::generate(b"abc")),
        HashStep::Read(_) => panic!("the stream has ended"),
    }
}

#[test]
fn hash_from_slice_needs_its_length() {
    let bytes: Vec<u8> = (0u8..32).collect();
    let hash = BlobHash::try_from_hash_slice(&bytes).unwrap();
    assert_eq!(hash.as_slice(), &bytes[..]);
    assert_eq!(hash.into_vec(), bytes);
    assert_eq!(hash.as_slice().len(), BLOB_HASH_LEN);
    assert!(BlobHash::try_from_hash_slice(&bytes[1..]).is_err());
    assert!(BlobHash::try_from_hash_slice(&[0u8; 33]).is_err());
}

#[test]
fn hex_keeps_leading_zeroes() {
    let mut bytes = [0u8; 32];
    bytes[0] = 0x0a;
    bytes[1] = 0xb0;
    assert_eq!(&BlobHash(bytes).to_hex()[..6], "0ab000");
    assert_ne!(BlobHash(bytes).to_hex(), BlobHash([0u8; 32]).to_hex());
}
