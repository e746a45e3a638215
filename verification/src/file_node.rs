//! The entries of a file store, and the form in which they are kept.
use vstd::prelude::*;
use crate::blob_hash::BlobHash;
use crate::text;
use crate::text::byte_len;

verus! {

/// Properties that the store keeps without understanding them, by their size.
#[derive(Clone, Copy, Debug)]
pub struct DeadProperty {
    pub size: usize,
}

/// What one account may do.
#[derive(Clone, Copy, Debug, PartialEq, Eq, Structural)]
pub struct AclGrant {
    pub account_id: u32,
    pub grants: u64,
}

/// A file or a directory.
#[derive(Debug)]
pub struct FileNode {
    pub parent_id: u32,
    pub name: String,
    pub display_name: Option<String>,
    pub file: Option<FileProperties>,
    pub created: i64,
    pub modified: i64,
    pub dead_properties: DeadProperty,
    pub acls: Vec<AclGrant>,
}

/// What only a file has.
#[derive(Debug)]
pub struct FileProperties {
    pub blob_hash: BlobHash,
    pub size: u64,
    pub media_type: Option<String>,
    pub executable: bool,
}

/// The serialised form of an optional [FileProperties]. It takes in what was
/// written when sizes had 32 bits, and is written like that where it can be.
#[derive(Debug)]
#[allow(inconsistent_fields)]
pub enum UpgradableFileProperties {
    /// No properties.
    Absent,
    /// A file of less than 4 GiB. The padding keeps the other fields where they
    /// were, and is zero at all times.
    Small {
        _padding: [u8; 3],
        blob_hash: BlobHash,
        size: u32,
        media_type: Option<String>,
        executable: bool,
    },
    /// Any other file.
    Large { blob_hash: BlobHash, executable: bool, media_type: Option<String>, size: u64 },
}

/// An [UpgradableFileProperties] as it is found in storage.
#[derive(Debug)]
#[allow(inconsistent_fields)]
pub enum ArchivedUpgradableFileProperties {
    Absent,
    Small {
        _padding: [u8; 3],
        blob_hash: BlobHash,
        size: u32,
        media_type: Option<String>,
        executable: bool,
    },
    Large { blob_hash: BlobHash, executable: bool, media_type: Option<String>, size: u64 },
}

/// A [FileNode] as it is found in storage.
#[derive(Debug)]
pub struct ArchivedFileNode {
    pub parent_id: u32,
    pub name: String,
    pub display_name: Option<String>,
    pub file: ArchivedUpgradableFileProperties,
    pub created: i64,
    pub modified: i64,
    pub dead_properties: DeadProperty,
    pub acls: Vec<AclGrant>,
}

/// The characters of an optional text.
pub open spec fn optional_text(value: Option<String>) -> Option<Seq<char>> {
    match value {
        Some(text) => Some(text@),
        None => None,
    }
}

/// A copy of an optional text.
fn clone_text(value: &Option<String>) -> (copy: Option<String>)
    ensures
        optional_text(copy) == optional_text(*value),
{
    match value {
        Some(text) => Some(text.clone()),
        None => None,
    }
}

/// What the properties of a file hold.
pub struct FileFacts {
    pub blob_hash: BlobHash,
    pub size: nat,
    pub media_type: Option<Seq<char>>,
    pub executable: bool,
}

impl View for FileProperties {
    type V = FileFacts;

    open spec fn view(&self) -> FileFacts {
        FileFacts {
            blob_hash: self.blob_hash,
            size: self.size as nat,
            media_type: optional_text(self.media_type),
            executable: self.executable,
        }
    }
}

/// What optional properties of a file hold.
pub open spec fn optional_facts(file: Option<FileProperties>) -> Option<FileFacts> {
    match file {
        Some(file) => Some(file@),
        None => None,
    }
}

/// What the serialised form of optional properties holds: the variant, and what
/// is in it.
pub enum StoredProperties {
    Absent,
    Small { padding: Seq<u8>, facts: FileFacts },
    Large { facts: FileFacts },
}

impl StoredProperties {
    /// The properties.
    pub open spec fn facts(self) -> Option<FileFacts> {
        match self {
            StoredProperties::Absent => None,
            StoredProperties::Small { facts, .. } => Some(facts),
            StoredProperties::Large { facts } => Some(facts),
        }
    }
}

/// The form in which properties are serialised: the one of 32-bit sizes, its
/// padding zero, if the size fits in it, and the large one otherwise.
pub open spec fn stored_form(file: Option<FileFacts>) -> StoredProperties {
    match file {
        None => StoredProperties::Absent,
        Some(facts) => if facts.size <= u32::MAX {
            StoredProperties::Small { padding: seq![0u8, 0u8, 0u8], facts }
        } else {
            StoredProperties::Large { facts }
        },
    }
}

impl View for UpgradableFileProperties {
    type V = StoredProperties;

    open spec fn view(&self) -> StoredProperties {
        match self {
            UpgradableFileProperties::Absent => StoredProperties::Absent,
            UpgradableFileProperties::Small {
                _padding,
                blob_hash,
                size,
                media_type,
                executable,
            } => StoredProperties::Small {
                padding: _padding@,
                facts: FileFacts {
                    blob_hash: *blob_hash,
                    size: *size as nat,
                    media_type: optional_text(*media_type),
                    executable: *executable,
                },
            },
            UpgradableFileProperties::Large { blob_hash, size, media_type, executable } =>
            StoredProperties::Large {
                facts: FileFacts {
                    blob_hash: *blob_hash,
                    size: *size as nat,
                    media_type: optional_text(*media_type),
                    executable: *executable,
                },
            },
        }
    }
}

impl View for ArchivedUpgradableFileProperties {
    type V = StoredProperties;

    open spec fn view(&self) -> StoredProperties {
        match self {
            ArchivedUpgradableFileProperties::Absent => StoredProperties::Absent,
            ArchivedUpgradableFileProperties::Small {
                _padding,
                blob_hash,
                size,
                media_type,
                executable,
            } => StoredProperties::Small {
                padding: _padding@,
                facts: FileFacts {
                    blob_hash: *blob_hash,
                    size: *size as nat,
                    media_type: optional_text(*media_type),
                    executable: *executable,
                },
            },
            ArchivedUpgradableFileProperties::Large { blob_hash, size, media_type, executable } =>
            StoredProperties::Large {
                facts: FileFacts {
                    blob_hash: *blob_hash,
                    size: *size as nat,
                    media_type: optional_text(*media_type),
                    executable: *executable,
                },
            },
        }
    }
}

/// Whether `repr` is the form in which properties are serialised.
pub open spec fn is_serialised(
    file: Option<FileProperties>,
    repr: UpgradableFileProperties,
) -> bool {
    repr@ == stored_form(optional_facts(file))
}

/// Whether `archived` is what is put into storage.
pub open spec fn is_archived(
    repr: UpgradableFileProperties,
    archived: ArchivedUpgradableFileProperties,
) -> bool {
    archived@ == repr@
}

/// Whether `file` is what is read from storage.
pub open spec fn is_deserialised(
    archived: ArchivedUpgradableFileProperties,
    file: Option<FileProperties>,
) -> bool {
    optional_facts(file) == archived@.facts()
}

/// The size of a file, from what is held about it.
pub open spec fn told_size(facts: Option<FileFacts>) -> Option<nat> {
    match facts {
        Some(facts) => Some(facts.size),
        None => None,
    }
}

/// The hash of a file's contents, from what is held about it.
pub open spec fn told_hash(facts: Option<FileFacts>) -> Option<BlobHash> {
    match facts {
        Some(facts) => Some(facts.blob_hash),
        None => None,
    }
}

/// Whether a file can be executed, from what is held about it.
pub open spec fn told_executable(facts: Option<FileFacts>) -> Option<bool> {
    match facts {
        Some(facts) => Some(facts.executable),
        None => None,
    }
}

/// The media type that a file is said to have.
pub open spec fn shown_media_type(known: Option<Seq<char>>) -> Seq<char> {
    match known {
        Some(known) => known,
        None => "application/octet-stream"@,
    }
}

impl UpgradableFileProperties {
    /// The form in which properties are serialised: the old one, if the size
    /// fits in it.
    pub fn from_properties(file: &Option<FileProperties>) -> (repr: UpgradableFileProperties)
        ensures
            is_serialised(*file, repr),
    {
        match file {
            None => UpgradableFileProperties::Absent,
            Some(p) => {
                if p.size <= u32::MAX as u64 {
                    let _padding = [0u8, 0u8, 0u8];
                    assert(_padding@ =~= seq![0u8, 0u8, 0u8]);
                    UpgradableFileProperties::Small {
                        _padding,
                        blob_hash: p.blob_hash,
                        size: p.size as u32,
                        media_type: clone_text(&p.media_type),
                        executable: p.executable,
                    }
                } else {
                    UpgradableFileProperties::Large {
                        blob_hash: p.blob_hash,
                        size: p.size,
                        executable: p.executable,
                        media_type: clone_text(&p.media_type),
                    }
                }
            },
        }
    }
}

impl ArchivedUpgradableFileProperties {
    /// Whether there are no properties.
    pub fn is_none(&self) -> (none: bool)
        ensures
            none == (self@.facts() is None),
    {
        match self {
            ArchivedUpgradableFileProperties::Absent => true,
            _ => false,
        }
    }

    /// The size of the file.
    pub fn size(&self) -> (size: Option<u64>)
        ensures
            match told_size(self@.facts()) {
                Some(told) => size matches Some(size) && size == told,
                None => size is None,
            },
    {
        match self {
            ArchivedUpgradableFileProperties::Absent => None,
            ArchivedUpgradableFileProperties::Small { size, .. } => Some(*size as u64),
            ArchivedUpgradableFileProperties::Large { size, .. } => Some(*size),
        }
    }

    /// The hash of the file's contents.
    pub fn blob_hash(&self) -> (hash: Option<BlobHash>)
        ensures
            hash == told_hash(self@.facts()),
    {
        match self {
            ArchivedUpgradableFileProperties::Absent => None,
            ArchivedUpgradableFileProperties::Small { blob_hash, .. } => Some(*blob_hash),
            ArchivedUpgradableFileProperties::Large { blob_hash, .. } => Some(*blob_hash),
        }
    }

    /// Whether the file can be executed.
    pub fn executable(&self) -> (executable: Option<bool>)
        ensures
            executable == told_executable(self@.facts()),
    {
        match self {
            ArchivedUpgradableFileProperties::Absent => None,
            ArchivedUpgradableFileProperties::Small { executable, .. } => Some(*executable),
            ArchivedUpgradableFileProperties::Large { executable, .. } => Some(*executable),
        }
    }

    /// The media type of the file: where none is known, that of any bytes.
    pub fn media_type(&self) -> (media_type: Option<&str>)
        ensures
            match self@.facts() {
                Some(facts) => media_type matches Some(text) && text@ == shown_media_type(
                    facts.media_type,
                ),
                None => media_type is None,
            },
    {
        let media_type = match self {
            ArchivedUpgradableFileProperties::Absent => {
                return None;
            },
            ArchivedUpgradableFileProperties::Small { media_type, .. } => media_type,
            ArchivedUpgradableFileProperties::Large { media_type, .. } => media_type,
        };
        match media_type {
            Some(text) => Some(text.as_str()),
            None => Some("application/octet-stream"),
        }
    }

    /// The properties.
    pub fn get(&self) -> (file: Option<FileProperties>)
        ensures
            is_deserialised(*self, file),
    {
        match self {
            ArchivedUpgradableFileProperties::Absent => None,
            ArchivedUpgradableFileProperties::Small {
                blob_hash,
                size,
                media_type,
                executable,
                ..
            } => Some(
                FileProperties {
                    blob_hash: *blob_hash,
                    size: *size as u64,
                    media_type: clone_text(media_type),
                    executable: *executable,
                },
            ),
            ArchivedUpgradableFileProperties::Large { blob_hash, size, media_type, executable } =>
            Some(
                FileProperties {
                    blob_hash: *blob_hash,
                    size: *size,
                    media_type: clone_text(media_type),
                    executable: *executable,
                },
            ),
        }
    }
}

/// The conversion between properties and their serialised form.
pub struct FilePropertyConverter;

/// The serialised form of properties, on the way into storage.
pub struct FilePropertyConverterResolver {
    pub repr: UpgradableFileProperties,
}

impl FilePropertyConverter {
    /// Begins to write properties.
    pub fn serialize_with(field: &Option<FileProperties>) -> (resolver:
        FilePropertyConverterResolver)
        ensures
            is_serialised(*field, resolver.repr),
    {
        FilePropertyConverterResolver { repr: UpgradableFileProperties::from_properties(field) }
    }

    /// Puts properties into storage, variant by variant.
    pub fn resolve_with(resolver: FilePropertyConverterResolver) -> (archived:
        ArchivedUpgradableFileProperties)
        ensures
            is_archived(resolver.repr, archived),
    {
        match resolver.repr {
            UpgradableFileProperties::Absent => ArchivedUpgradableFileProperties::Absent,
            UpgradableFileProperties::Small {
                _padding,
                blob_hash,
                size,
                media_type,
                executable,
            } => ArchivedUpgradableFileProperties::Small {
                _padding,
                blob_hash,
                size,
                media_type,
                executable,
            },
            UpgradableFileProperties::Large { blob_hash, executable, media_type, size } =>
            ArchivedUpgradableFileProperties::Large { blob_hash, executable, media_type, size },
        }
    }

    /// Reads properties.
    pub fn deserialize_with(field: &ArchivedUpgradableFileProperties) -> (file: Option<
        FileProperties,
    >)
        ensures
            is_deserialised(*field, file),
    {
        field.get()
    }
}

/// Properties that were written are read back, whatever the size of the file. In
/// storage they have the form of 32-bit sizes, its padding zero, just if the size
/// fits in it.
pub proof fn law_properties_are_read_back(
    file: Option<FileProperties>,
    repr: UpgradableFileProperties,
    archived: ArchivedUpgradableFileProperties,
    read: Option<FileProperties>,
)
    requires
        is_serialised(file, repr),
        is_archived(repr, archived),
        is_deserialised(archived, read),
    ensures
        optional_facts(read) == optional_facts(file),
        archived is Absent <==> file is None,
        archived is Small <==> (file matches Some(p) && p.size <= u32::MAX),
        archived is Large <==> (file matches Some(p) && p.size > u32::MAX),
        archived matches ArchivedUpgradableFileProperties::Small { _padding, .. } ==> _padding@
            == seq![0u8, 0u8, 0u8],
{
}

/// The share of a quota that a node takes: its texts, its dead properties, its
/// contents, and the node itself, which takes `own_size` bytes where it is kept.
pub open spec fn node_size(
    dead_properties: DeadProperty,
    display_name: Option<Seq<char>>,
    name: Seq<char>,
    contents: nat,
    own_size: nat,
) -> nat {
    dead_properties.size as nat + (match display_name {
        Some(shown) => text::byte_size(shown),
        None => 0,
    }) + text::byte_size(name) + contents + own_size
}

impl FileNode {
    /// The size of the contents.
    pub open spec fn contents_size(self) -> nat {
        match self.file {
            Some(file) => file.size as nat,
            None => 0,
        }
    }

    /// The share of a quota that the node takes.
    pub open spec fn spec_size(self, own_size: usize) -> nat {
        node_size(
            self.dead_properties,
            optional_text(self.display_name),
            self.name@,
            self.contents_size(),
            own_size as nat,
        )
    }

    /// The share of a quota that the node takes, where the node itself takes `own_size`
    /// bytes.
    pub fn size(&self, own_size: usize) -> (size: u64)
        requires
            self.spec_size(own_size) <= u64::MAX,
        ensures
            size == self.spec_size(own_size),
    {
        let display_name: usize = match &self.display_name {
            Some(text) => byte_len(text.as_str()),
            None => 0,
        };
        let contents: u64 = match &self.file {
            Some(file) => file.size,
            None => 0,
        };
        self.dead_properties.size as u64 + display_name as u64 + byte_len(self.name.as_str()) as u64
            + contents + own_size as u64
    }

    /// Whether nodes carry a version.
    pub fn is_versioned() -> (versioned: bool)
        ensures
            versioned,
    {
        true
    }

    /// What is kept about the node outside of it: who may do what, that it
    /// changed, what it takes of a quota, and which blob it refers to.
    pub fn index_values(&self, own_size: usize) -> (values: Vec<IndexValue>)
        requires
            self.spec_size(own_size) <= u64::MAX,
        ensures
            index_facts(values@) == self.index(own_size),
    {
        let blob_hash: Option<BlobHash> = match &self.file {
            Some(file) => Some(file.blob_hash),
            None => None,
        };
        index_entries(&self.acls, self.size(own_size), blob_hash)
    }
}

impl ArchivedFileNode {
    /// The size of the contents.
    pub open spec fn contents_size(self) -> nat {
        match self.file@.facts() {
            Some(facts) => facts.size,
            None => 0,
        }
    }

    /// The share of a quota that the node takes.
    pub open spec fn spec_size(self, own_size: usize) -> nat {
        node_size(
            self.dead_properties,
            optional_text(self.display_name),
            self.name@,
            self.contents_size(),
            own_size as nat,
        )
    }

    /// The share of a quota that the node takes, where the node itself takes `own_size`
    /// bytes.
    pub fn size(&self, own_size: usize) -> (size: u64)
        requires
            self.spec_size(own_size) <= u64::MAX,
        ensures
            size == self.spec_size(own_size),
    {
        let display_name: usize = match &self.display_name {
            Some(text) => byte_len(text.as_str()),
            None => 0,
        };
        let contents: u64 = match self.file.size() {
            Some(size) => size,
            None => 0,
        };
        self.dead_properties.size as u64 + display_name as u64 + byte_len(self.name.as_str()) as u64
            + contents + own_size as u64
    }

    /// What is kept about the node outside of it.
    pub fn index_values(&self, own_size: usize) -> (values: Vec<IndexValue>)
        requires
            self.spec_size(own_size) <= u64::MAX,
        ensures
            index_facts(values@) == self.index(own_size),
    {
        index_entries(&self.acls, self.size(own_size), self.file.blob_hash())
    }
}

/// The collections whose changes are logged.
#[derive(Clone, Copy, Debug, PartialEq, Eq, Structural)]
pub enum SyncCollection {
    FileNode,
}

/// One thing that is kept about a node outside of it.
#[derive(Debug)]
#[allow(inconsistent_fields)]
pub enum IndexValue {
    Acl { value: Vec<AclGrant> },
    LogItem { prefix: Option<u32>, sync_collection: SyncCollection },
    Quota { used: u64 },
    Blob { value: BlobHash },
}

/// What one of these things holds.
pub enum IndexFact {
    Acl(Seq<AclGrant>),
    LogItem(Option<u32>, SyncCollection),
    Quota(nat),
    Blob(BlobHash),
}

impl View for IndexValue {
    type V = IndexFact;

    open spec fn view(&self) -> IndexFact {
        match self {
            IndexValue::Acl { value } => IndexFact::Acl(value@),
            IndexValue::LogItem { prefix, sync_collection } => IndexFact::LogItem(
                *prefix,
                *sync_collection,
            ),
            IndexValue::Quota { used } => IndexFact::Quota(*used as nat),
            IndexValue::Blob { value } => IndexFact::Blob(*value),
        }
    }
}

/// What these things hold.
pub open spec fn index_facts(values: Seq<IndexValue>) -> Seq<IndexFact> {
    values.map_values(|value: IndexValue| value@)
}

/// What is kept about a node with these grants, this size and this blob.
pub open spec fn node_index(
    acls: Seq<AclGrant>,
    size: nat,
    blob_hash: Option<BlobHash>,
) -> Seq<IndexFact> {
    let always = seq![
        IndexFact::Acl(acls),
        IndexFact::LogItem(None, SyncCollection::FileNode),
        IndexFact::Quota(size),
    ];
    match blob_hash {
        Some(hash) => always.push(IndexFact::Blob(hash)),
        None => always,
    }
}

/// What is kept about a node outside of it.
fn index_entries(acls: &Vec<AclGrant>, size: u64, blob_hash: Option<BlobHash>) -> (values: Vec<
    IndexValue,
>)
    ensures
        index_facts(values@) == node_index(acls@, size as nat, blob_hash),
{
    let grants = acls.clone();
    let mut values: Vec<IndexValue> = Vec::new();
    values.push(IndexValue::Acl { value: grants });
    values.push(
        IndexValue::LogItem { prefix: None, sync_collection: SyncCollection::FileNode },
    );
    values.push(IndexValue::Quota { used: size });
    if let Some(hash) = blob_hash {
        values.push(IndexValue::Blob { value: hash });
    }
    values
}

impl FileNode {
    /// What is kept about the node outside of it.
    pub open spec fn index(self, own_size: usize) -> Seq<IndexFact> {
        node_index(
            self.acls@,
            self.spec_size(own_size),
            match self.file {
                Some(file) => Some(file.blob_hash),
                None => None,
            },
        )
    }
}

impl ArchivedFileNode {
    /// What is kept about the node outside of it.
    pub open spec fn index(self, own_size: usize) -> Seq<IndexFact> {
        node_index(
            self.acls@,
            self.spec_size(own_size),
            match self.file@.facts() {
                Some(facts) => Some(facts.blob_hash),
                None => None,
            },
        )
    }

    /// Whether this is a node as it is found in storage.
    pub open spec fn is_archive_of(self, node: FileNode) -> bool {
        &&& self.parent_id == node.parent_id
        &&& self.name@ == node.name@
        &&& optional_text(self.display_name) == optional_text(node.display_name)
        &&& self.file@ == stored_form(optional_facts(node.file))
        &&& self.created == node.created
        &&& self.modified == node.modified
        &&& self.dead_properties == node.dead_properties
        &&& self.acls@ == node.acls@
    }
}

/// A node takes as much of a quota when it is read from storage as when it was written.
pub proof fn law_archived_size(node: FileNode, archived: ArchivedFileNode, own_size: usize)
    requires
        archived.is_archive_of(node),
    ensures
        archived.spec_size(own_size) == node.spec_size(own_size),
{
}

/// The same is kept about a node in either form: its grants, that it changed, its size,
/// and the blob it refers to, just if it is a file.
pub proof fn law_archived_index(
    node: FileNode,
    archived: ArchivedFileNode,
    own_size: usize,
    values: Seq<IndexValue>,
    archived_values: Seq<IndexValue>,
)
    requires
        archived.is_archive_of(node),
        index_facts(values) == node.index(own_size),
        index_facts(archived_values) == archived.index(own_size),
    ensures
        index_facts(archived_values) == index_facts(values),
        values.len() == if node.file is Some {
            4nat
        } else {
            3
        },
{
    assert(index_facts(values).len() == values.len());
}

/// A node takes of a quota what its parts take, each once: its dead properties, the bytes
/// of its name and of its display name, if it has one, its contents, if it is a file, and
/// the node itself.
pub proof fn law_node_takes_what_it_holds(node: FileNode, own_size: usize)
    ensures
        ({
            let bare = node.dead_properties.size + vstd::utf8::encode_utf8(node.name@).len()
                + own_size;
            let shown = match node.display_name {
                Some(shown) => vstd::utf8::encode_utf8(shown@).len() as int,
                None => 0int,
            };
            let contents = match node.file {
                Some(file) => file.size as int,
                None => 0int,
            };
            node.spec_size(own_size) == bare + shown + contents
        }),
{
}

/// What is kept about a node is its grants, that it changed, and what it takes of a quota,
/// in this order, and behind them the blob it refers to, just if it refers to one.
pub proof fn law_node_is_indexed(acls: Seq<AclGrant>, size: nat, hash: BlobHash)
    ensures
        ({
            let directory = node_index(acls, size, None);
            let file = node_index(acls, size, Some(hash));
            &&& directory.len() == 3
            &&& directory[0] == IndexFact::Acl(acls)
            &&& directory[1] == IndexFact::LogItem(None, SyncCollection::FileNode)
            &&& directory[2] == IndexFact::Quota(size)
            &&& file == directory.push(IndexFact::Blob(hash))
        }),
{
}

/// A media type that is known is told, whatever it is. Only where none is known it is that
/// of any bytes.
pub proof fn law_media_type_is_told(known: Seq<char>)
    ensures
        shown_media_type(Some(known)) == known,
        shown_media_type(None) == "application/octet-stream"@,
{
}

/// The forms of 32 and of 64 bits hold the same properties, and what one of them holds is
/// told by either: the form says nothing about a file but whether its size fits in 32 bits.
pub proof fn law_forms_hold_the_same(facts: FileFacts, padding: Seq<u8>)
    ensures
        (StoredProperties::Small { padding, facts }).facts() == Some(facts),
        (StoredProperties::Large { facts }).facts() == Some(facts),
        StoredProperties::Absent.facts() is None,
        stored_form(Some(facts)).facts() == Some(facts),
        stored_form(None) is Absent,
        stored_form(Some(facts)) is Small <==> facts.size <= u32::MAX,
        stored_form(Some(facts)) is Large <==> facts.size > u32::MAX,
{
}

/// What is kept about a node is its own: its grants, what it takes of a quota, and the hash
/// of its contents, just if it is a file.
pub proof fn law_index_is_of_the_node(node: FileNode, own_size: usize)
    ensures
        ({
            let index = node.index(own_size);
            &&& index[0] == IndexFact::Acl(node.acls@)
            &&& index[1] == IndexFact::LogItem(None, SyncCollection::FileNode)
            &&& index[2] == IndexFact::Quota(node.spec_size(own_size))
            &&& node.file matches Some(file) ==> index.len() == 4 && index[3] == IndexFact::Blob(
                file.blob_hash,
            )
            &&& node.file is None ==> index.len() == 3
        }),
{
}

/// What is told about a file in storage is what was written about it: its size, its hash,
/// its media type and whether it can be executed.
pub proof fn law_stored_facts_are_told(
    file: FileProperties,
    repr: UpgradableFileProperties,
    archived: ArchivedUpgradableFileProperties,
)
    requires
        is_serialised(Some(file), repr),
        is_archived(repr, archived),
    ensures
        told_size(archived@.facts()) == Some(file.size as nat),
        told_hash(archived@.facts()) == Some(file.blob_hash),
        told_executable(archived@.facts()) == Some(file.executable),
        archived@.facts() matches Some(facts) && (file.media_type matches Some(text)
            ==> shown_media_type(facts.media_type) == text@) && (file.media_type is None
            ==> shown_media_type(facts.media_type) == "application/octet-stream"@),
        told_size(None) is None,
        told_hash(None) is None,
        told_executable(None) is None,
{
}

} // verus!
