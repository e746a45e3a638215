//! A buffer that moves from memory into a temporary file when it grows large.
//!
//! The buffer itself decides; the temporary file belongs to the application,
//! which performs on it what the steps below ask for and reports back.
use vstd::prelude::*;
use vstd::string::*;
use crate::io_error::{IoError, IoErrorKind};
use crate::jumbo_read_only::JumboBytes;
use crate::tape;
use crate::tape::Tape;
use crate::text;
use crate::text::{to_decimal, to_hex};

verus! {

/// The name of a temporary file: `epoch` is the time since the process started
/// in microseconds, `nonce` a number that no other file of the process has.
pub open spec fn tempfile_name_text(epoch: nat, nonce: nat) -> Seq<char> {
    "stalwart_"@ + text::hex(epoch) + "_"@ + text::hex(nonce) + ".temp"@
}

/// The name of a temporary file.
pub fn tempfile_name(epoch: u128, nonce: usize) -> (name: String)
    ensures
        name@ == tempfile_name_text(epoch as nat, nonce as nat),
{
    let mut name = String::from_str("stalwart_");
    name.append(to_hex(epoch).as_str());
    name.append("_");
    name.append(to_hex(nonce as u128).as_str());
    name.append(".temp");
    name
}

/// Two temporary files have different names unless both their times and their
/// nonces are the same.
pub proof fn law_tempfile_names_differ(epoch_a: nat, nonce_a: nat, epoch_b: nat, nonce_b: nat)
    requires
        tempfile_name_text(epoch_a, nonce_a) == tempfile_name_text(epoch_b, nonce_b),
    ensures
        epoch_a == epoch_b,
        nonce_a == nonce_b,
{
    reveal_strlit("stalwart_");
    reveal_strlit("_");
    reveal_strlit(".temp");
    let ea = text::hex(epoch_a);
    let eb = text::hex(epoch_b);
    let na = text::hex(nonce_a);
    let nb = text::hex(nonce_b);
    let a = tempfile_name_text(epoch_a, nonce_a);
    let b = tempfile_name_text(epoch_b, nonce_b);
    assert(a.len() == 9 + ea.len() + 1 + na.len() + 5);
    assert(b.len() == 9 + eb.len() + 1 + nb.len() + 5);
    if ea.len() < eb.len() {
        assert(a[9 + ea.len() as int] == '_');
        assert(b[9 + ea.len() as int] == eb[ea.len() as int]);
        text::law_digits_are_alphanumeric(epoch_b, 16, ea.len() as int);
    }
    if eb.len() < ea.len() {
        assert(b[9 + eb.len() as int] == '_');
        assert(a[9 + eb.len() as int] == ea[eb.len() as int]);
        text::law_digits_are_alphanumeric(epoch_a, 16, eb.len() as int);
    }
    assert(ea.len() == eb.len() && na.len() == nb.len());
    assert forall|i: int| 0 <= i < ea.len() implies ea[i] == eb[i] by {
        assert(a[9 + i] == ea[i]);
        assert(b[9 + i] == eb[i]);
    }
    assert(ea =~= eb);
    assert forall|i: int| 0 <= i < na.len() implies na[i] == nb[i] by {
        assert(a[10 + ea.len() + i] == na[i]);
        assert(b[10 + ea.len() + i] == nb[i]);
    }
    assert(na =~= nb);
    text::law_digits_injective(epoch_a, epoch_b, 16);
    text::law_digits_injective(nonce_a, nonce_b, 16);
}

/// The amount of memory that a buffer takes before it moves into a file, unless
/// it is set otherwise: 25 MiB.
pub const DEFAULT_SPILLOVER_SIZE: usize = 26214400;

/// The least amount of memory at which a buffer may be told to move: 1 MiB.
pub const MIN_SPILLOVER_SIZE: usize = 1048576;

/// What new buffers are made with.
#[derive(Clone, Copy, PartialEq, Eq, Debug, Structural)]
pub struct SpillSettings {
    pub spillover_size: usize,
}

impl SpillSettings {
    /// The settings that hold until they are changed.
    pub fn new() -> (settings: SpillSettings)
        ensures
            settings.spillover_size == DEFAULT_SPILLOVER_SIZE,
    {
        SpillSettings { spillover_size: DEFAULT_SPILLOVER_SIZE }
    }
}

/// The size at which buffers move into a file where `size` was asked for.
pub open spec fn spillover_of(size: nat) -> nat {
    tape::max_nat(size, MIN_SPILLOVER_SIZE as nat)
}

/// Buffers move at the size that was asked for, unless that is less than 1 MiB: then they
/// move at that.
pub proof fn law_spillover_is_set(size: nat)
    ensures
        size >= 1048576 ==> spillover_of(size) == size,
        size < 1048576 ==> spillover_of(size) == 1048576,
{
}

/// Where the contents of a [JumboBytesMut] are.
#[allow(inconsistent_fields)]
#[derive(Debug)]
pub enum JumboBytesMutInner {
    /// In memory.
    Ram { bytes: Vec<u8>, cursor: u64 },
    /// On the way into a file. The file will hold `file_size` bytes and stand
    /// at `original_cursor_pos`; `cursor_pos` is where a seek that came in the
    /// meantime wants it.
    Transitioning { original_cursor_pos: u64, cursor_pos: Option<u64>, file_size: u64 },
    /// In a file of `file_size` bytes that stands at `cursor_pos`.
    File { cursor_pos: u64, file_size: u64 },
}

/// An array of bytes, exposed as a seekable stream, which moves into a temporary
/// file once a write would make it larger than the memory it may take.
#[derive(Debug)]
pub struct JumboBytesMut {
    /// The maximum size of the data. If the data is larger, or would become
    /// larger by a write, the write fails with [IoErrorKind::FileTooLarge].
    pub max_size: u64,
    pub inner: Option<JumboBytesMutInner>,
    pub max_ram_size: usize,
}

/// What becomes of a write.
#[derive(Debug)]
pub enum WriteStep {
    /// The move into the file has to end first.
    AwaitTransition,
    /// The write is refused.
    Failed(IoError),
    /// So many bytes were written.
    Written(usize),
    /// Make a file, write `bytes` to it, seek to `cursor`, and write again.
    Spill { bytes: Vec<u8>, cursor: u64 },
    /// Write to the file, and report the number of bytes.
    WriteToFile,
}

/// What becomes of a read.
#[derive(Debug)]
pub enum ReadStep {
    /// The move into the file has to end first.
    AwaitTransition,
    /// The read is refused.
    Failed(IoError),
    /// These bytes were read.
    Ready(Vec<u8>),
    /// Read from the file, and report the number of bytes.
    ReadFromFile,
}

/// What becomes of a seek, a flush or a shutdown.
#[derive(Debug)]
pub enum FileStep {
    /// The move into the file has to end first.
    AwaitTransition,
    /// The request is refused.
    Failed(IoError),
    /// Nothing more is to be done.
    Ready,
    /// Pass the request on to the file.
    OnFile,
}

/// What becomes of the question where a seek has led.
#[derive(Debug)]
pub enum PositionStep {
    /// The move into the file has to end first.
    AwaitTransition,
    /// The question is refused.
    Failed(IoError),
    /// The cursor stands here.
    Ready(u64),
    /// Ask the file, and report its position.
    OnFile,
}

/// How the move into the file stands.
#[derive(Debug)]
pub enum TransitionPoll {
    Pending,
    Failed(IoError),
    Done,
}

/// What the move into the file asks for next.
#[derive(Debug)]
pub enum TransitionStep {
    /// No move is under way: the request can be worked on.
    Proceed,
    /// The move has not ended.
    Pending,
    /// The file is written; it still has to be sought to this position.
    Seek(u64),
}

/// How the contents become a vector.
#[derive(Debug)]
pub enum IntoVecStep {
    /// The move into the file has to end first.
    AwaitTransition,
    Failed(IoError),
    Ready(Vec<u8>),
    /// Rewind the file, read all of it, and clean it up.
    ReadFile,
}

/// How the contents become a file of a given name.
#[derive(Debug)]
pub enum MoveStep {
    /// The move into the temporary file has to end first.
    AwaitTransition,
    Failed(IoError),
    /// Make the file, write these bytes, and flush it.
    WriteOut(Vec<u8>),
    /// Flush and close the temporary file, and rename it.
    Rename,
    /// Copy the temporary file, and remove it once it was copied.
    CopyAndRemove,
    /// All is done.
    Moved,
}

/// How the contents become read-only.
#[derive(Debug)]
pub enum ReadOnlyStep {
    /// The move into the file has to end first.
    AwaitTransition,
    Ready(JumboBytes),
    /// Flush and close the file of this size, and open it for reading.
    Reopen { file_size: u64 },
}

/// The text of the error for a write that is too large.
pub open spec fn too_large_text(max_size: u64) -> Seq<char> {
    "buffer exceeded maximum size of "@ + text::decimal(max_size as nat) + " bytes"@
}

/// The error for a write that is too large.
pub fn too_large_error(max_size: u64) -> (error: IoError)
    ensures
        error.says(IoErrorKind::FileTooLarge, too_large_text(max_size)),
{
    let mut message = String::from_str("buffer exceeded maximum size of ");
    message.append(to_decimal(max_size).as_str());
    message.append(" bytes");
    IoError { kind: IoErrorKind::FileTooLarge, message }
}

/// The text of the error for contents that a vector may not hold.
pub open spec fn too_large_for_vec_text() -> Seq<char> {
    "file exceeds maximum buffer size"@
}

/// The error for contents that a vector may not hold.
pub fn too_large_for_vec_error() -> (error: IoError)
    ensures
        error.says(IoErrorKind::FileTooLarge, too_large_for_vec_text()),
{
    IoError::new(IoErrorKind::FileTooLarge, "file exceeds maximum buffer size")
}

/// The text of the error for a write behind the last position of a vector.
pub open spec fn unaddressable_text() -> Seq<char> {
    "cursor position exceeds maximum possible vector length"@
}

/// The error for a write behind the last position of a vector.
pub fn unaddressable_error() -> (error: IoError)
    ensures
        error.says(IoErrorKind::InvalidInput, unaddressable_text()),
{
    IoError::new(
        IoErrorKind::InvalidInput,
        "cursor position exceeds maximum possible vector length",
    )
}

/// What comes of taking the contents out of a buffer.
pub open spec fn gives_vec(
    before: JumboBytesMut,
    after: JumboBytesMut,
    data: Option<Vec<u8>>,
) -> bool {
    &&& data is Some <==> before.is_ram()
    &&& data matches Some(bytes) ==> bytes@ == before.ram().data && after.is_ram()
        && after.ram() == (Tape { data: Seq::empty(), pos: 0 })
    &&& data is None ==> after.inner == before.inner
    &&& after.max_size == before.max_size
    &&& after.max_ram_size == before.max_ram_size
}

/// Whether `data` are the contents, as far as they are in memory.
pub open spec fn shows(
    buffer: JumboBytesMut,
    data: Option<&[u8]>,
) -> bool {
    &&& data is Some <==> buffer.is_ram()
    &&& data matches Some(bytes) ==> bytes@ == buffer.ram().data
}

impl JumboBytesMut {
    /// Whether the contents are on the way into a file.
    pub open spec fn is_transitioning(self) -> bool {
        self.inner matches Some(JumboBytesMutInner::Transitioning { .. })
    }

    /// Whether the contents are in memory.
    pub open spec fn is_ram(self) -> bool {
        self.inner matches Some(JumboBytesMutInner::Ram { .. })
    }

    /// Whether the contents are in a file.
    pub open spec fn is_file(self) -> bool {
        self.inner matches Some(JumboBytesMutInner::File { .. })
    }

    /// The contents in memory.
    pub open spec fn ram(self) -> Tape {
        match self.inner {
            Some(JumboBytesMutInner::Ram { bytes, cursor }) => Tape {
                data: bytes@,
                pos: cursor as nat,
            },
            _ => Tape { data: Seq::empty(), pos: 0 },
        }
    }

    /// The size of the data.
    pub open spec fn spec_len(self) -> nat {
        match self.inner {
            Some(JumboBytesMutInner::Ram { bytes, .. }) => bytes@.len(),
            Some(JumboBytesMutInner::Transitioning { file_size, .. }) => file_size as nat,
            Some(JumboBytesMutInner::File { file_size, .. }) => file_size as nat,
            None => 0,
        }
    }

    /// The position of the cursor.
    pub open spec fn cursor(self) -> nat {
        match self.inner {
            Some(JumboBytesMutInner::Ram { cursor, .. }) => cursor as nat,
            Some(JumboBytesMutInner::Transitioning { original_cursor_pos, cursor_pos, .. }) => {
                match cursor_pos {
                    Some(pos) => pos as nat,
                    None => original_cursor_pos as nat,
                }
            },
            Some(JumboBytesMutInner::File { cursor_pos, .. }) => cursor_pos as nat,
            None => 0,
        }
    }

    /// Whether `disk` is the temporary file that this buffer takes it to be.
    /// While the contents move, it is the file as it will be when written.
    pub open spec fn goes_with(self, disk: Tape) -> bool {
        match self.inner {
            Some(JumboBytesMutInner::Transitioning { original_cursor_pos, file_size, .. }) => {
                disk.data.len() == file_size && disk.pos == original_cursor_pos
            },
            Some(JumboBytesMutInner::File { cursor_pos, file_size }) => {
                disk.data.len() == file_size && disk.pos == cursor_pos
            },
            _ => true,
        }
    }

    /// The bytes and the cursor that a user of the stream sees, where `disk` is
    /// the temporary file, if there is one.
    pub open spec fn tape(self, disk: Tape) -> Tape {
        match self.inner {
            Some(JumboBytesMutInner::Ram { .. }) => self.ram(),
            Some(_) => Tape { data: disk.data, pos: self.cursor() },
            None => Tape { data: Seq::empty(), pos: 0 },
        }
    }

    /// The size of the data after a write of `n` bytes. A file is not touched
    /// by a write of nothing.
    pub open spec fn size_after_write(self, n: nat) -> nat {
        if n == 0 && !self.is_ram() {
            self.spec_len()
        } else {
            tape::max_nat(self.spec_len(), self.cursor() + n)
        }
    }

    /// Whether a write of `n` bytes is too large: the data is already larger than it
    /// may be, or the write would make it so.
    pub open spec fn is_too_large(self, n: nat) -> bool {
        self.spec_len() > self.max_size || self.size_after_write(n) > self.max_size
    }

    /// The same buffer with its contents elsewhere.
    pub open spec fn holding(self, inner: Option<JumboBytesMutInner>) -> JumboBytesMut {
        JumboBytesMut { max_size: self.max_size, inner, max_ram_size: self.max_ram_size }
    }

    /// The buffer once its contents were handed out to be written to a file.
    pub open spec fn spilled(self) -> JumboBytesMut {
        self.holding(
            Some(
                JumboBytesMutInner::Transitioning {
                    original_cursor_pos: self.cursor() as u64,
                    cursor_pos: None,
                    file_size: self.spec_len() as u64,
                },
            ),
        )
    }

    /// The buffer once `n` bytes were written to its file.
    pub open spec fn after_file_write(self, n: nat) -> JumboBytesMut {
        self.holding(
            Some(
                JumboBytesMutInner::File {
                    cursor_pos: (self.cursor() + n) as u64,
                    file_size: self.size_after_write(n) as u64,
                },
            ),
        )
    }

    /// The buffer once `n` bytes were read from its file.
    pub open spec fn after_file_read(self, n: nat) -> JumboBytesMut {
        self.file_at((self.cursor() + n) as u64)
    }

    /// The buffer with its cursor at `pos`, if its contents are in a file.
    pub open spec fn file_at(self, pos: u64) -> JumboBytesMut {
        self.holding(
            Some(
                JumboBytesMutInner::File { cursor_pos: pos, file_size: self.spec_len() as u64 },
            ),
        )
    }

    /// Sets the size at which new buffers move into a file, but to no less than
    /// 1 MiB: smaller requests are read from memory by their handlers.
    pub fn set_spillover_size(settings: &mut SpillSettings, size: u32)
        ensures
            final(settings).spillover_size == spillover_of(size as nat),
    {
        let size: usize = size as usize;
        settings.spillover_size = if size < MIN_SPILLOVER_SIZE {
            MIN_SPILLOVER_SIZE
        } else {
            size
        };
    }

    /// A new buffer whose data cannot become larger than `max_size`.
    pub fn new(max_size: u64, settings: &SpillSettings) -> (buffer: JumboBytesMut)
        ensures
            is_new(buffer, Seq::empty(), max_size, settings.spillover_size),
    {
        JumboBytesMut {
            max_size,
            inner: Some(JumboBytesMutInner::Ram { bytes: Vec::new(), cursor: 0 }),
            max_ram_size: settings.spillover_size,
        }
    }

    /// A buffer with the given contents, its cursor at the start.
    pub fn from_vec(data: Vec<u8>, settings: &SpillSettings) -> (buffer: JumboBytesMut)
        ensures
            is_new(buffer, data@, u64::MAX, settings.spillover_size),
    {
        JumboBytesMut {
            max_size: u64::MAX,
            inner: Some(JumboBytesMutInner::Ram { bytes: data, cursor: 0 }),
            max_ram_size: settings.spillover_size,
        }
    }

    /// A buffer with the bytes of `data`, its cursor at the start.
    pub fn from_string(data: String, settings: &SpillSettings) -> (buffer: JumboBytesMut)
        ensures
            is_new(
                buffer,
                vstd::utf8::encode_utf8(data@),
                u64::MAX,
                settings.spillover_size,
            ),
    {
        JumboBytesMut::from_vec(data.as_str().as_bytes_vec(), settings)
    }

    /// Takes the contents out, if they are in memory. The buffer is then empty.
    pub fn take_vec(&mut self) -> (data: Option<Vec<u8>>)
        ensures
            gives_vec(*old(self), *final(self), data),
    {
        match &mut self.inner {
            Some(JumboBytesMutInner::Ram { bytes, cursor }) => {
                *cursor = 0;
                let mut taken: Vec<u8> = Vec::new();
                std::mem::swap(bytes, &mut taken);
                Some(taken)
            },
            _ => None,
        }
    }

    /// The contents, if they are in memory.
    pub fn as_slice(&self) -> (data: Option<&[u8]>)
        ensures
            shows(*self, data),
    {
        match &self.inner {
            Some(JumboBytesMutInner::Ram { bytes, .. }) => Some(bytes.as_slice()),
            _ => None,
        }
    }

    /// The size of the data.
    pub fn len(&self) -> (len: u64)
        ensures
            has_len(*self, len),
    {
        match &self.inner {
            Some(JumboBytesMutInner::Ram { bytes, .. }) => bytes.len() as u64,
            Some(JumboBytesMutInner::Transitioning { file_size, .. }) => *file_size,
            Some(JumboBytesMutInner::File { file_size, .. }) => *file_size,
            None => 0,
        }
    }

    /// Whether there is no data.
    pub fn is_empty(&self) -> (empty: bool)
        ensures
            empty == (self.spec_len() == 0),
    {
        self.len() == 0
    }
}

/// The error for a write that is too large names the limit, and no other text does.
pub proof fn law_limit_is_named(a: u64, b: u64)
    ensures
        too_large_text(a) == too_large_text(b) ==> a == b,
        too_large_text(a) == "buffer exceeded maximum size of "@ + text::decimal(a as nat)
            + " bytes"@,
{
    if too_large_text(a) == too_large_text(b) {
        let start = "buffer exceeded maximum size of "@;
        let end = " bytes"@;
        let da = text::decimal(a as nat);
        let db = text::decimal(b as nat);
        assert(da.len() == db.len());
        assert forall|i: int| 0 <= i < da.len() implies da[i] == db[i] by {
            assert(too_large_text(a)[start.len() + i] == da[i]);
            assert(too_large_text(b)[start.len() + i] == db[i]);
        }
        assert(da =~= db);
        text::law_digits_injective(a as nat, b as nat, 10);
    }
}

/// Whether a buffer was made of the given data, and nothing was done with it since.
pub open spec fn is_new(
    buffer: JumboBytesMut,
    data: Seq<u8>,
    max_size: u64,
    max_ram_size: usize,
) -> bool {
    &&& buffer.is_ram()
    &&& buffer.ram() == (Tape { data, pos: 0 })
    &&& buffer.max_size == max_size
    &&& buffer.max_ram_size == max_ram_size
}

/// A new buffer shows the data it was made of, from its start, and lets it grow up to the
/// limit that it was given.
pub proof fn law_is_new(
    buffer: JumboBytesMut,
    disk: Tape,
    data: Seq<u8>,
    max_size: u64,
    max_ram_size: usize,
    n: nat,
)
    requires
        is_new(buffer, data, max_size, max_ram_size),
    ensures
        buffer.tape(disk).data == data,
        buffer.tape(disk).pos == 0,
        buffer.tape(disk).next(data.len()) == data,
        data.len() <= max_size && n <= max_size ==> !buffer.is_too_large(n),
        n > max_size ==> buffer.is_too_large(n),
{
    assert(buffer.tape(disk).next(data.len()) =~= data);
}

/// Contents that are taken out are all of them, and leave an empty buffer behind that
/// stands at its start. Only what is in memory can be taken out, and nothing else changes.
pub proof fn law_gives_vec(
    before: JumboBytesMut,
    after: JumboBytesMut,
    disk: Tape,
    data: Option<Vec<u8>>,
)
    requires
        gives_vec(before, after, data),
    ensures
        data is Some <==> before.is_ram(),
        data matches Some(bytes) ==> {
            &&& bytes@ == before.tape(disk).data
            &&& after.tape(disk).data.len() == 0
            &&& after.tape(disk).pos == 0
            &&& after.is_ram()
        },
        data is None ==> after.inner == before.inner,
        after.max_size == before.max_size,
        after.max_ram_size == before.max_ram_size,
{
}

/// The contents that are shown are all of them, just if they are in memory.
pub proof fn law_shows(buffer: JumboBytesMut, disk: Tape, data: Option<&[u8]>)
    requires
        shows(buffer, data),
    ensures
        data is Some <==> buffer.is_ram(),
        data matches Some(bytes) ==> bytes@ == buffer.tape(disk).data,
{
}

/// Whether `len` is the size of the data.
pub open spec fn has_len(buffer: JumboBytesMut, len: u64) -> bool {
    len == buffer.spec_len()
}

/// The size that is told is that of the data, wherever it is.
pub proof fn law_has_len(buffer: JumboBytesMut, disk: Tape, len: u64)
    requires
        has_len(buffer, len),
        buffer.goes_with(disk),
    ensures
        buffer.inner is Some ==> len == buffer.tape(disk).data.len(),
        buffer.inner is None ==> len == 0,
{
}

} // verus!
