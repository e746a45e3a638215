//! The decisions of the stores: databases, a file system, a cloud service.
use vstd::prelude::*;
use vstd::string::*;
use crate::blob_store::StoreError;
use crate::byte_range::{copy_clip, ByteRange};
use crate::foreign::bytes_buf;
use crate::jumbo_read_only::JumboBytes;
use crate::stream;
use crate::stream::BlobReadStream;
use crate::tape;
use crate::tape::Tape;
use crate::text;
use crate::text::to_hex;

verus! {

/// The part of a stored value that a range selects.
pub open spec fn selected_of(value: Seq<u8>, range: ByteRange) -> Seq<u8> {
    range.select(value)
}

/// The part of a stored value that a range selects.
pub fn select_value(value: Vec<u8>, range: ByteRange) -> (part: Vec<u8>)
    ensures
        part@ == selected_of(value@, range),
{
    let start: usize = if range.start > usize::MAX as u64 {
        usize::MAX
    } else {
        range.start as usize
    };
    let end: usize = if range.end > usize::MAX as u64 {
        usize::MAX
    } else {
        range.end as usize
    };
    let size: usize = value.len();
    if start == 0 && end == usize::MAX {
        assert(value@ =~= range.select(value@));
        value
    } else {
        let part = copy_clip(value.as_slice(), start, end);
        assert(part@ =~= range.select(value@));
        part
    }
}

/// The largest number of directories that lead to a file.
pub const MAX_HASH_LEVELS: usize = 5;

/// A store in a directory of the file system.
#[derive(Debug)]
pub struct FsStore {
    path: String,
    hash_levels: usize,
}

/// The name of the directory for a byte of a key.
pub open spec fn level_name(byte: u8) -> Seq<char> {
    text::hex(byte as nat)
}

/// The characters of some texts.
pub open spec fn texts(elements: Seq<String>) -> Seq<Seq<char>> {
    elements.map_values(|element: String| element@)
}

/// The elements of the path to a blob's file.
pub open spec fn path_of(
    root: Seq<char>,
    levels: nat,
    key: Seq<u8>,
    name: Seq<char>,
) -> Seq<Seq<char>> {
    seq![root] + Seq::new(
        tape::min_nat(levels, key.len()),
        |i: int| level_name(key[i]),
    ) + seq![name]
}

/// The number of directories that lead to a file, where `depth` were asked for.
pub open spec fn levels_of(depth: nat) -> nat {
    tape::min_nat(depth, MAX_HASH_LEVELS as nat)
}

/// How a range of a file is read.
pub open spec fn file_read(range: ByteRange) -> (Option<u64>, BlobReadStream) {
    if range.spec_is_full() {
        (None, BlobReadStream::File)
    } else {
        (Some(range.start), stream::file_stream(range))
    }
}

/// Whether a blob has to be written, where a file of the length `existing` is there.
pub open spec fn has_to_be_written(existing: Option<u64>, len: u64) -> bool {
    existing != Some(len)
}

impl FsStore {
    /// The directory.
    pub closed spec fn root(self) -> Seq<char> {
        self.path@
    }

    /// The number of directories that lead to a file.
    pub closed spec fn levels(self) -> nat {
        self.hash_levels as nat
    }

    /// A store in the given directory, with as many directories that lead to a
    /// file as asked for, but no more than five.
    pub fn open(path: String, depth: u64) -> (store: FsStore)
        ensures
            store.root() == path@,
            store.levels() == levels_of(depth as nat),
    {
        let hash_levels: usize = if depth < MAX_HASH_LEVELS as u64 {
            depth as usize
        } else {
            MAX_HASH_LEVELS
        };
        FsStore { path, hash_levels }
    }

    /// The elements of the path to a blob's file: the directory, a directory for
    /// each of the first bytes of the key, and the file's name.
    pub fn build_path(&self, key: &[u8], name: String) -> (elements: Vec<String>)
        ensures
            texts(elements@) == path_of(self.root(), self.levels(), key@, name@),
    {
        let mut elements: Vec<String> = Vec::new();
        elements.push(self.path.clone());
        assert(texts(elements@) =~= seq![self.root()] + Seq::new(
            0,
            |i: int| level_name(key@[i]),
        ));
        let mut i: usize = 0;
        while i < self.hash_levels && i < key.len()
            invariant
                i <= tape::min_nat(self.levels(), key@.len()),
                texts(elements@) == seq![self.root()] + Seq::new(
                    i as nat,
                    |i: int| level_name(key@[i]),
                ),
            decreases key@.len() - i,
        {
            let ghost before = elements@;
            elements.push(to_hex(key[i] as u128));
            assert(texts(elements@) =~= texts(before).push(level_name(key@[i as int])));
            i = i + 1;
            assert(texts(elements@) =~= seq![self.root()] + Seq::new(
                i as nat,
                |i: int| level_name(key@[i]),
            ));
        }
        let ghost before = elements@;
        elements.push(name);
        assert(texts(elements@) =~= texts(before).push(name@));
        assert(texts(elements@) =~= seq![self.root()] + Seq::new(
            tape::min_nat(self.levels(), key@.len()),
            |i: int| level_name(key@[i]),
        ) + seq![name@]);
        elements
    }

    /// How a range of a file is read: where it is sought to first, if at all, and
    /// the stream.
    pub fn get_blob(range: ByteRange) -> (read: (Option<u64>, BlobReadStream))
        ensures
            read == file_read(range),
    {
        if range.is_full() {
            (None, BlobReadStream::File)
        } else {
            (Some(range.start), BlobReadStream::file_range(range))
        }
    }

    /// Whether a blob has to be written: not if there is a file of its length,
    /// for then it was written before.
    pub fn put_blob(existing: Option<u64>, len: u64) -> (write: bool)
        ensures
            write == has_to_be_written(existing, len),
    {
        match existing {
            Some(existing) => existing != len,
            None => true,
        }
    }

    /// Whether there is a file to remove.
    pub fn delete_blob(existing: Option<u64>) -> (remove: bool)
        ensures
            remove == (existing is Some),
    {
        existing.is_some()
    }
}

/// Files of different names have different paths, whatever their keys.
pub proof fn law_names_tell_files_apart(
    root: Seq<char>,
    levels_a: Seq<Seq<char>>,
    levels_b: Seq<Seq<char>>,
    name_a: Seq<char>,
    name_b: Seq<char>,
)
    requires
        seq![root] + levels_a + seq![name_a] == seq![root] + levels_b + seq![name_b],
    ensures
        name_a == name_b,
{
    let a = seq![root] + levels_a + seq![name_a];
    let b = seq![root] + levels_b + seq![name_b];
    assert(a[a.len() - 1] == name_a);
    assert(b[b.len() - 1] == name_b);
}

/// A store in a cloud service.
#[derive(Debug)]
pub struct AzureStore {
    prefix: Option<String>,
}

/// How the service knows its client.
#[derive(Debug)]
pub enum AzureCredentials {
    AccessKey(String),
    SasToken(String),
}

/// A range as the service takes it.
#[derive(Clone, Copy, Debug, PartialEq, Eq, Structural)]
pub enum AzureRange {
    From(u64),
    Bounded { start: u64, end: u64 },
}

/// What the service answered.
#[derive(Debug)]
pub enum AzureReply<T> {
    Done(T),
    NotFound,
    Failed(String),
}

/// The text of the error for credentials that cannot be chosen.
pub open spec fn credentials_text() -> Seq<char> {
    "Failed to create credentials: exactly one of 'azure-access-key' and 'sas-token' must be specified"@
}

/// The number of times that a request is repeated.
pub open spec fn repeats(max_retries: nat) -> nat {
    2 * max_retries
}

/// The name of a blob in the service.
pub open spec fn service_name(prefix: Seq<char>, encoded: Seq<char>) -> Seq<char> {
    prefix + encoded
}

/// The range that the service is asked for.
pub open spec fn asked_range(range: ByteRange) -> AzureRange {
    if range.end == u64::MAX {
        AzureRange::From(range.start)
    } else {
        AzureRange::Bounded { start: range.start, end: range.end }
    }
}

/// What the service's answer says of the length of a blob.
pub open spec fn length_is_told(
    reply: AzureReply<u64>,
    len: Result<Option<u64>, StoreError>,
) -> bool {
    &&& match reply {
        AzureReply::Done(len_known) => len == Ok::<_, StoreError>(Some(len_known)),
        AzureReply::NotFound => len == Ok::<Option<u64>, StoreError>(None),
        AzureReply::Failed(error) => len == Err::<Option<u64>, _>(
            StoreError::AzureError(error),
        ),
    }
}

/// What the service's answer says of whether a blob was deleted.
pub open spec fn deletion_is_told(
    reply: AzureReply<()>,
    deleted: Result<bool, StoreError>,
) -> bool {
    &&& match reply {
        AzureReply::Done(_) => deleted == Ok::<_, StoreError>(true),
        AzureReply::NotFound => deleted == Ok::<bool, StoreError>(false),
        AzureReply::Failed(error) => deleted == Err::<bool, _>(
            StoreError::AzureError(error),
        ),
    }
}

/// Which credentials are chosen.
pub open spec fn credentials_are_chosen(
    access_key: Option<String>,
    sas_token: Option<String>,
    result: Result<AzureCredentials, String>,
) -> bool {
    &&& match (access_key, sas_token) {
        (Some(key), None) => result == Ok::<_, String>(AzureCredentials::AccessKey(key)),
        (None, Some(token)) => result == Ok::<_, String>(AzureCredentials::SasToken(token)),
        _ => result matches Err(error) && error@ == credentials_text(),
    }
}

impl AzureStore {
    /// What the names of all blobs begin with.
    pub closed spec fn key_prefix(self) -> Seq<char> {
        match self.prefix {
            Some(prefix) => prefix@,
            None => Seq::empty(),
        }
    }

    /// Chooses the credentials: there must be one, and only one.
    pub fn choose_credentials(access_key: Option<String>, sas_token: Option<String>) -> (result:
        Result<AzureCredentials, String>)
        ensures
            credentials_are_chosen(access_key, sas_token, result),
    {
        match (access_key, sas_token) {
            (Some(key), None) => Ok(AzureCredentials::AccessKey(key)),
            (None, Some(token)) => Ok(AzureCredentials::SasToken(token)),
            _ => Err(
                String::from_str(
                    "Failed to create credentials: exactly one of 'azure-access-key' and 'sas-token' must be specified",
                ),
            ),
        }
    }

    /// The number of times that a request is repeated.
    pub fn retries(max_retries: u32) -> (retries: u32)
        requires
            2 * max_retries <= u32::MAX,
        ensures
            retries == repeats(max_retries as nat),
    {
        max_retries * 2
    }

    /// A store whose blobs' names begin with the given text.
    pub fn open(prefix: Option<String>) -> (store: AzureStore)
        ensures
            store.key_prefix() == match prefix {
                Some(prefix) => prefix@,
                None => Seq::<char>::empty(),
            },
    {
        AzureStore { prefix }
    }

    /// The name of a blob, from the encoded form of its key.
    pub fn build_key(&self, encoded: &str) -> (name: String)
        ensures
            name@ == service_name(self.key_prefix(), encoded@),
    {
        match &self.prefix {
            Some(prefix) => {
                let mut name = prefix.clone();
                name.append(encoded);
                name
            },
            None => {
                assert(Seq::<char>::empty() + encoded@ =~= encoded@);
                encoded.to_owned()
            },
        }
    }

    /// The range that the service is asked for: one that reaches to the end has
    /// no end.
    pub fn get_blob(range: ByteRange) -> (asked: AzureRange)
        ensures
            asked == asked_range(range),
    {
        if range.end == u64::MAX {
            AzureRange::From(range.start)
        } else {
            AzureRange::Bounded { start: range.start, end: range.end }
        }
    }

    /// The length of a blob, from what the service says of it.
    pub fn get_blob_length(reply: AzureReply<u64>) -> (len: Result<Option<u64>, StoreError>)
        ensures
            length_is_told(reply, len),
    {
        match reply {
            AzureReply::Done(len) => Ok(Some(len)),
            AzureReply::NotFound => Ok(None),
            AzureReply::Failed(error) => Err(StoreError::AzureError(error)),
        }
    }

    /// The bytes to send at once, if they are in memory; the rest is streamed.
    pub fn put_blob(data: &mut JumboBytes) -> (bytes: Option<bytes::Bytes>)
        ensures
            bytes is Some <==> old(data).is_ram(),
            bytes matches Some(bytes) ==> bytes_buf::content(bytes) == old(data).ram().data,
            bytes is None ==> *final(data) == *old(data),
    {
        data.take_bytes()
    }

    /// Whether a blob was deleted, from what the service says.
    pub fn delete_blob(reply: AzureReply<()>) -> (deleted: Result<bool, StoreError>)
        ensures
            deletion_is_told(reply, deleted),
    {
        match reply {
            AzureReply::Done(_) => Ok(true),
            AzureReply::NotFound => Ok(false),
            AzureReply::Failed(error) => Err(StoreError::AzureError(error)),
        }
    }
}

/// Blobs of different encoded keys have different names in the service.
pub proof fn law_encoded_keys_tell_blobs_apart(store: AzureStore, a: Seq<char>, b: Seq<char>)
    requires
        service_name(store.key_prefix(), a) == service_name(store.key_prefix(), b),
    ensures
        a == b,
{
    let prefix = store.key_prefix();
    assert((prefix + a).len() == (prefix + b).len());
    assert forall|i: int| 0 <= i < a.len() implies a[i] == b[i] by {
        assert((prefix + a)[prefix.len() + i] == a[i]);
        assert((prefix + b)[prefix.len() + i] == b[i]);
    }
    assert(a =~= b);
}

/// The path to a file begins with the directory of the store and ends with the file's
/// name. Between them is a directory for each of the first bytes of the key, in order and
/// named after it, as many as there are levels or the key has bytes; there are never more
/// than five.
pub proof fn law_path_follows_the_key(
    root: Seq<char>,
    depth: nat,
    key: Seq<u8>,
    name: Seq<char>,
    i: int,
)
    ensures
        ({
            let path = path_of(root, levels_of(depth), key, name);
            &&& path.first() == root
            &&& path.last() == name
            &&& depth <= 5 && depth <= key.len() ==> path.len() == depth + 2
            &&& depth >= 5 && key.len() >= 5 ==> path.len() == 7
            &&& key.len() <= depth && key.len() <= 5 ==> path.len() == key.len() + 2
            &&& 0 < i < path.len() - 1 ==> i - 1 < key.len() && text::number_of(path[i], 16)
                == key[i - 1]
        }),
{
    let path = path_of(root, levels_of(depth), key, name);
    if 0 < i < path.len() - 1 {
        assert(path[i] == level_name(key[i - 1]));
        text::law_numbers_are_read_back(key[i - 1] as nat);
    }
}

/// A range of a file is read from where it starts: from there on the stream hands out what
/// the range selects. A file that is not sought stands at its start.
pub proof fn law_file_is_read_from_the_start_of_the_range(range: ByteRange, data: Seq<u8>)
    requires
        data.len() <= u64::MAX,
    ensures
        ({
            let (sought, stream) = file_read(range);
            let pos = match sought {
                Some(pos) => pos as nat,
                None => 0,
            };
            stream::remaining(stream, Tape { data, pos }) == range.select(data)
        }),
        file_read(range).0 is None ==> range.start == 0,
{
    stream::law_file_stream_is_range(range, data);
}

/// What the service is asked for is the range: its start and its end, or no end where it
/// reaches to the end of the data.
pub proof fn law_service_is_asked_for_the_range(range: ByteRange, data: Seq<u8>)
    requires
        data.len() <= u64::MAX,
    ensures
        match asked_range(range) {
            AzureRange::From(start) => range.end == u64::MAX && (start <= data.len() ==> data.skip(
                start as int,
            ) == range.select(data)) && (start > data.len() ==> range.select(data).len() == 0),
            AzureRange::Bounded { start, end } => range.end < u64::MAX && (start <= end
                <= data.len() ==> data.subrange(start as int, end as int) == range.select(data))
                && start == range.start && end == range.end,
        },
{
    match asked_range(range) {
        AzureRange::From(start) => {
            if start <= data.len() {
                assert(data.skip(start as int) =~= range.select(data));
            }
        },
        AzureRange::Bounded { start, end } => {
            if start <= end <= data.len() {
                assert(data.subrange(start as int, end as int) =~= range.select(data));
            }
        },
    }
}

/// A part of a value is the bytes at the positions of the range, and no others.
pub proof fn law_value_is_cut(value: Seq<u8>, range: ByteRange, i: int)
    requires
        0 <= i < value.len(),
    ensures
        range.start <= i < range.end ==> i - range.start < selected_of(value, range).len()
            && selected_of(value, range)[i - range.start] == value[i],
        i < selected_of(value, range).len() ==> range.start + i < range.end && range.start + i
            < value.len(),
        selected_of(value, range).len() <= value.len(),
{
}

/// A blob is written unless its file is there: one of another length is none of it.
pub proof fn law_blob_is_written_once(existing: u64, len: u64)
    ensures
        has_to_be_written(None, len),
        has_to_be_written(Some(existing), len) <==> existing != len,
{
}

/// What the service says of a blob is passed on as it is: a length whatever it is, that
/// there is no such blob, or its own error. A blob was deleted just if the service says so.
pub proof fn law_replies_are_passed_on(
    reply: AzureReply<u64>,
    len: Result<Option<u64>, StoreError>,
    answer: AzureReply<()>,
    deleted: Result<bool, StoreError>,
)
    requires
        length_is_told(reply, len),
        deletion_is_told(answer, deleted),
    ensures
        reply matches AzureReply::Done(n) ==> len == Ok::<_, StoreError>(Some(n)),
        reply is NotFound <==> (len matches Ok(none) && none is None),
        reply is Failed <==> len is Err,
        reply matches AzureReply::Failed(text) ==> len == Err::<Option<u64>, _>(
            StoreError::AzureError(text),
        ),
        answer is Done <==> deleted == Ok::<_, StoreError>(true),
        answer is NotFound <==> deleted == Ok::<_, StoreError>(false),
        answer is Failed <==> deleted is Err,
{
}

/// Credentials are chosen just if one kind of them, and only one, is given: that one.
pub proof fn law_one_credential_is_chosen(
    access_key: Option<String>,
    sas_token: Option<String>,
    result: Result<AzureCredentials, String>,
)
    requires
        credentials_are_chosen(access_key, sas_token, result),
    ensures
        result is Ok <==> (access_key is Some) != (sas_token is Some),
        result matches Ok(AzureCredentials::AccessKey(key)) ==> access_key == Some(key),
        result matches Ok(AzureCredentials::SasToken(token)) ==> sas_token == Some(token),
{
}

/// The name of a blob in the service is its prefix and behind it the encoded key, and
/// requests are repeated twice as often as was asked for.
pub proof fn law_names_have_the_prefix(prefix: Seq<char>, encoded: Seq<char>, n: nat)
    ensures
        prefix.is_prefix_of(service_name(prefix, encoded)),
        service_name(prefix, encoded).skip(prefix.len() as int) == encoded,
        repeats(n) == n + n,
{
    let name = service_name(prefix, encoded);
    assert(prefix =~= name.take(prefix.len() as int));
    assert(name.skip(prefix.len() as int) =~= encoded);
}

} // verus!
