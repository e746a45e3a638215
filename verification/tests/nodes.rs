use blob_store::blob_hash::BlobHash;
use blob_store::file_node::{
    AclGrant, ArchivedFileNode, ArchivedUpgradableFileProperties, DeadProperty, FileNode,
    FileProperties, FilePropertyConverter, IndexValue, SyncCollection, UpgradableFileProperties,
};

fn properties(size: u64, media_type: Option<&str>) -> FileProperties {
    FileProperties {
        blob_hash: BlobHash::generate(b"contents"),
        size,
        media_type: media_type.map(String::from),
        executable: true,
    }
}

fn archive(file: &Option<FileProperties>) -> ArchivedUpgradableFileProperties {
    FilePropertyConverter::resolve_with(FilePropertyConverter::serialize_with(file))
}

fn node(file: Option<FileProperties>) -> FileNode {
    FileNode {
        parent_id: 1,
        name: String::from("r\u{e9}sum\u{e9}"),
        display_name: Some(String::from("abc")),
        file,
        created: 2,
        modified: 3,
        dead_properties: DeadProperty { size: 11 },
        acls: vec![AclGrant { account_id: 4, grants: 5 }],
    }
}

#[test]
fn written_properties_are_read_back() {
    for size in [0, u32::MAX as u64, u32::MAX as u64 + 1, u64::MAX] {
        for media_type in [None, Some("text/plain")] {
            let archived = archive(&Some(properties(size, media_type)));
            let read = FilePropertyConverter::deserialize_with(&archived).unwrap();
            assert_eq!(read.size, size);
            assert_eq!(read.media_type.as_deref(), media_type);
            assert_eq!(read.blob_hash, BlobHash::generate(b"contents"));
            assert!(read.executable);
            assert_eq!(archived.size(), Some(size));
            assert_eq!(archived.executable(), Some(true));
            assert_eq!(archived.blob_hash(), Some(BlobHash::generate(b"contents")));
            assert!(!archived.is_none());
        }
    }
    assert!(archive(&None).get().is_none());
}

#[test]
fn small_files_keep_the_old_form() {
    let small = UpgradableFileProperties::from_properties(&Some(properties(u32::MAX as u64, None)));
    assert!(matches!(
        small,
        UpgradableFileProperties::Small { _padding: [0, 0, 0], size: u32::MAX, .. }
    ));
    let large = UpgradableFileProperties::from_properties(&Some(properties(1 << 32, None)));
    assert!(matches!(large, UpgradableFileProperties::Large { size: 4294967296, .. }));
    assert!(matches!(
        UpgradableFileProperties::from_properties(&None),
        UpgradableFileProperties::Absent
    ));
}

#[test]
fn media_type_has_a_default() {
    assert_eq!(archive(&Some(properties(1, Some("a/b")))).media_type(), Some("a/b"));
    assert_eq!(
        archive(&Some(properties(1, None))).media_type(),
        Some("application/octet-stream")
    );
    assert_eq!(archive(&None).media_type(), None);
    assert_eq!(archive(&None).size(), None);
    assert_eq!(archive(&None).blob_hash(), None);
    assert_eq!(archive(&None).executable(), None);
    assert!(archive(&None).is_none());
}

#[test]
fn nodes_take_what_they_hold() {
    let base = 200;
    assert_eq!(node(None).size(200), base + 8 + 3 + 11);
    assert_eq!(node(Some(properties(1000, None))).size(200), base + 8 + 3 + 11 + 1000);
    let mut unnamed = node(None);
    unnamed.display_name = None;
    assert_eq!(unnamed.size(200), base + 8 + 11);
    let archived = ArchivedFileNode {
        parent_id: 1,
        name: String::from("r\u{e9}sum\u{e9}"),
        display_name: Some(String::from("abc")),
        file: archive(&Some(properties(1000, None))),
        created: 2,
        modified: 3,
        dead_properties: DeadProperty { size: 11 },
        acls: Vec::new(),
    };
    assert_eq!(archived.size(200), node(Some(properties(1000, None))).size(200));
    assert_eq!(archived.index_values(200).len(), 4);
    assert!(FileNode::is_versioned());
}

#[test]
fn nodes_are_indexed() {
    let file = node(Some(properties(1000, None)));
    let values = file.index_values(200);
    assert_eq!(values.len(), 4);
    assert!(matches!(&values[0], IndexValue::Acl { value } if value[0].grants == 5));
    assert!(matches!(
        values[1],
        IndexValue::LogItem { prefix: None, sync_collection: SyncCollection::FileNode }
    ));
    assert!(matches!(values[2], IndexValue::Quota { used } if used == file.size(200)));
    assert!(
        matches!(values[3], IndexValue::Blob { value } if value == BlobHash::generate(b"contents"))
    );
    assert_eq!(node(None).index_values(200).len(), 3);
}

#[test]
fn archived_nodes_are_indexed_alike() {
    for file in [None, Some(properties(1000, None))] {
        let written = node(file);
        let archived = ArchivedFileNode {
            parent_id: written.parent_id,
            name: written.name.clone(),
            display_name: written.display_name.clone(),
            file: archive(&written.file),
            created: written.created,
            modified: written.modified,
            dead_properties: DeadProperty { size: 11 },
            acls: written.acls.clone(),
        };
        let values = written.index_values(200);
        let archived_values = archived.index_values(200);
        assert_eq!(format!("{values:?}"), format!("{archived_values:?}"));
        assert_eq!(values.len(), if written.file.is_some() { 4 } else { 3 });
    }
}

#[test]
fn archived_small_files_are_padded_with_zeroes() {
    assert!(matches!(
        archive(&Some(properties(7, None))),
        ArchivedUpgradableFileProperties::Small { _padding: [0, 0, 0], size: 7, .. }
    ));
    assert!(matches!(
        archive(&Some(properties(u32::MAX as u64 + 1, None))),
        ArchivedUpgradableFileProperties::Large { size: 4294967296, .. }
    ));
    assert!(matches!(archive(&None), ArchivedUpgradableFileProperties::Absent));
}
