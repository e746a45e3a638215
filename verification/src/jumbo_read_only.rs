//! The read-only, shareable counterpart of a buffer that may be in a file.
use vstd::prelude::*;
use crate::foreign::bytes_buf;
use crate::io_error;
use crate::io_error::{bad_seek_error, reuse_after_drop_error, IoError, IoErrorKind};
use crate::jumbo::{FileStep, PositionStep, ReadStep};
use crate::tape::{read_at, SeekFrom, Tape};

verus! {

/// Where the contents of a [JumboBytes] are.
#[allow(inconsistent_fields)]
#[derive(Debug)]
pub enum JumboBytesInner {
    /// In memory, with the cursor at `cursor_pos`.
    Ram { bytes: bytes::Bytes, cursor_pos: usize },
    /// In a file of `file_size` bytes that stands at `cursor_pos`.
    File { file_size: u64, cursor_pos: u64 },
    /// Lost to an error.
    Error(IoError),
}

/// Bytes that are read through a cursor of their own and shared with others.
#[derive(Debug)]
pub struct JumboBytes {
    pub inner: Option<JumboBytesInner>,
}

/// How a clone is made.
#[derive(Debug)]
pub enum CloneStep {
    Ready(JumboBytes),
    /// Open the file once more, and seek to `cursor_pos`.
    Open { file_size: u64, cursor_pos: u64 },
}

/// Where a seek in memory leads: the position has to be one that memory can
/// have, and an offset one that a pointer can have.
pub open spec fn memory_seek(from: SeekFrom, pos: nat, len: nat) -> Option<usize> {
    let target = from.target(pos as int, len as int);
    let fits = match from {
        SeekFrom::Start(_) => true,
        SeekFrom::End(offset) => isize::MIN <= offset <= isize::MAX,
        SeekFrom::Current(offset) => isize::MIN <= offset <= isize::MAX,
    };
    if fits && 0 <= target <= usize::MAX {
        Some(target as usize)
    } else {
        None
    }
}

/// What a read of at most `max` bytes does to a reader.
pub open spec fn shared_is_read(
    before: JumboBytes,
    after: JumboBytes,
    max: nat,
    step: ReadStep,
) -> bool {
    &&& before.is_ram() ==> {
        let tape = before.ram();
        &&& step matches ReadStep::Ready(bytes)
        &&& bytes@ == tape.next(max)
        &&& after.is_ram()
        &&& after.ram() == if tape.rest().len() > max {
            tape.advanced(max)
        } else {
            tape.at(tape.data.len())
        }
    }
    &&& before.is_file() ==> step is ReadFromFile && after == before
    &&& before.inner matches Some(JumboBytesInner::Error(error)) ==> {
        &&& step matches ReadStep::Failed(e)
        &&& e.says(error.kind, error.message@)
        &&& after == before
    }
    &&& before.inner is None ==> {
        &&& step matches ReadStep::Failed(e)
        &&& e.says(IoErrorKind::BrokenPipe, io_error::reuse_after_drop_text())
        &&& after == before
    }
}

/// What a seek does to a reader.
pub open spec fn shared_seeks(
    before: JumboBytes,
    after: JumboBytes,
    position: SeekFrom,
    step: FileStep,
) -> bool {
    &&& before.is_ram() ==> {
        let tape = before.ram();
        match memory_seek(position, tape.pos, tape.data.len()) {
            Some(target) => {
                &&& step is Ready
                &&& after.is_ram()
                &&& after.ram() == tape.at(target as nat)
            },
            None => {
                &&& step matches FileStep::Failed(e)
                &&& e.says(IoErrorKind::InvalidInput, io_error::bad_seek_text())
                &&& after == before
            },
        }
    }
    &&& before.is_file() ==> step is OnFile && after == before
    &&& before.inner matches Some(JumboBytesInner::Error(error)) ==> {
        &&& step matches FileStep::Failed(e)
        &&& e.says(error.kind, error.message@)
        &&& after == before
    }
    &&& before.inner is None ==> {
        &&& step matches FileStep::Failed(e)
        &&& e.says(IoErrorKind::BrokenPipe, io_error::reuse_after_drop_text())
        &&& after == before
    }
}

/// Where the last seek of a reader has led.
pub open spec fn shared_position(
    buffer: JumboBytes,
    step: PositionStep,
) -> bool {
    &&& buffer.is_ram() ==> step == PositionStep::Ready(buffer.ram().pos as u64)
    &&& buffer.is_file() ==> step is OnFile
    &&& buffer.inner matches Some(JumboBytesInner::Error(error)) ==> {
        &&& step matches PositionStep::Failed(e)
        &&& e.says(error.kind, error.message@)
    }
    &&& buffer.inner is None ==> {
        &&& step matches PositionStep::Failed(e)
        &&& e.says(IoErrorKind::BrokenPipe, io_error::reuse_after_drop_text())
    }
}

/// How a second reader is made.
pub open spec fn clones(
    buffer: JumboBytes,
    step: CloneStep,
) -> bool {
    &&& buffer.is_ram() ==> {
        &&& step matches CloneStep::Ready(other)
        &&& other.is_ram()
        &&& other.ram() == buffer.ram()
    }
    &&& buffer.inner matches Some(JumboBytesInner::File { file_size, cursor_pos }) ==> step == (
    CloneStep::Open { file_size, cursor_pos })
    &&& buffer.inner matches Some(JumboBytesInner::Error(error)) ==> {
        &&& step matches CloneStep::Ready(other)
        &&& other.inner matches Some(JumboBytesInner::Error(e))
        &&& e.says(error.kind, error.message@)
    }
    &&& buffer.inner is None ==> step == CloneStep::Ready(JumboBytes { inner: None })
}

/// Whether the file has to be removed with a reader: `readers` counts those of the same
/// file, this one among them.
pub open spec fn has_to_be_removed(buffer: JumboBytes, readers: nat) -> bool {
    buffer.is_file() && readers <= 1
}

/// A reader once its file was read or sought to `pos`.
pub open spec fn shared_at(buffer: JumboBytes, pos: nat) -> JumboBytes {
    match buffer.inner {
        Some(JumboBytesInner::File { file_size, .. }) => JumboBytes {
            inner: Some(JumboBytesInner::File { file_size, cursor_pos: pos as u64 }),
        },
        _ => buffer,
    }
}

/// A reader once `n` bytes were read from its file.
pub open spec fn shared_after_read(buffer: JumboBytes, n: nat) -> JumboBytes {
    match buffer.inner {
        Some(JumboBytesInner::File { cursor_pos, .. }) => shared_at(buffer, cursor_pos as nat + n),
        _ => buffer,
    }
}

/// What comes of taking the contents out of a reader.
pub open spec fn shared_gives_bytes(
    before: JumboBytes,
    after: JumboBytes,
    data: Option<bytes::Bytes>,
) -> bool {
    &&& data is Some <==> before.is_ram()
    &&& data matches Some(bytes) ==> bytes_buf::content(bytes) == before.ram().data
        && after.is_ram() && after.ram() == (Tape {
        data: Seq::empty(),
        pos: 0,
    })
    &&& data is None ==> after == before
}

/// Whether `len` is the size of the data.
pub open spec fn shared_has_len(
    buffer: JumboBytes,
    len: usize,
) -> bool {
    &&& len == match buffer.inner {
        Some(JumboBytesInner::File { file_size, .. }) => file_size as usize,
        Some(JumboBytesInner::Ram { .. }) => buffer.ram().data.len() as usize,
        _ => 0,
    }
    &&& buffer.is_ram() ==> len == buffer.ram().data.len()
}

/// Whether `data` are the contents, as far as they are in memory.
pub open spec fn shared_shows(
    buffer: JumboBytes,
    data: Option<&[u8]>,
) -> bool {
    &&& data is Some <==> buffer.is_ram()
    &&& data matches Some(bytes) ==> bytes@ == buffer.ram().data
}

impl JumboBytes {
    /// Whether the contents are in memory.
    pub open spec fn is_ram(self) -> bool {
        self.inner matches Some(JumboBytesInner::Ram { .. })
    }

    /// Whether the contents are in a file.
    pub open spec fn is_file(self) -> bool {
        self.inner matches Some(JumboBytesInner::File { .. })
    }

    /// The contents in memory.
    pub open spec fn ram(self) -> Tape {
        match self.inner {
            Some(JumboBytesInner::Ram { bytes, cursor_pos }) => Tape {
                data: bytes_buf::content(bytes),
                pos: cursor_pos as nat,
            },
            _ => Tape { data: Seq::empty(), pos: 0 },
        }
    }

    /// The bytes and the cursor that a user sees, where `disk` is the file, if
    /// there is one.
    pub open spec fn tape(self, disk: Tape) -> Tape {
        if self.is_file() {
            disk
        } else {
            self.ram()
        }
    }

    /// Whether `disk` is the file that this buffer takes it to be.
    pub open spec fn goes_with(self, disk: Tape) -> bool {
        self.inner matches Some(JumboBytesInner::File { file_size, cursor_pos }) ==> disk.data.len()
            == file_size && disk.pos == cursor_pos
    }

    /// Takes in a file that was opened for reading and stands at `cursor_pos`.
    pub fn opened(file_size: u64, cursor_pos: u64) -> (buffer: JumboBytes)
        ensures
            buffer.inner == Some(JumboBytesInner::File { file_size, cursor_pos }),
    {
        JumboBytes { inner: Some(JumboBytesInner::File { file_size, cursor_pos }) }
    }

    /// Stands in for a file that could not be opened.
    pub fn failed(error: IoError) -> (buffer: JumboBytes)
        ensures
            buffer.inner == Some(JumboBytesInner::Error(error)),
    {
        JumboBytes { inner: Some(JumboBytesInner::Error(error)) }
    }

    /// Takes the contents out, if they are in memory. The buffer is then empty.
    pub fn take_bytes(&mut self) -> (data: Option<bytes::Bytes>)
        ensures
            shared_gives_bytes(*old(self), *final(self), data),
    {
        match &mut self.inner {
            Some(JumboBytesInner::Ram { bytes, cursor_pos }) => {
                *cursor_pos = 0;
                let mut taken = bytes_buf::empty();
                std::mem::swap(bytes, &mut taken);
                Some(taken)
            },
            _ => None,
        }
    }

    /// The contents, if they are in memory.
    pub fn as_slice(&self) -> (data: Option<&[u8]>)
        ensures
            shared_shows(*self, data),
    {
        match &self.inner {
            Some(JumboBytesInner::Ram { bytes, .. }) => Some(bytes_buf::as_slice(bytes)),
            _ => None,
        }
    }

    /// The size of the data.
    pub fn len(&self) -> (len: usize)
        ensures
            shared_has_len(*self, len),
    {
        match &self.inner {
            Some(JumboBytesInner::File { file_size, .. }) => *file_size as usize,
            Some(JumboBytesInner::Ram { bytes, .. }) => bytes_buf::as_slice(bytes).len(),
            _ => 0,
        }
    }

    /// Whether there is no data.
    pub fn is_empty(&self) -> (empty: bool)
        ensures
            empty == match self.inner {
                Some(JumboBytesInner::File { file_size, .. }) => file_size as usize == 0,
                _ => self.ram().data.len() == 0,
            },
    {
        self.len() == 0
    }

    /// Reads at most `max` bytes at the cursor, or says that the file has to be
    /// read. A read that reaches the end leaves the cursor there, also where it
    /// stood behind the end.
    pub fn poll_read(&mut self, max: usize) -> (step: ReadStep)
        ensures
            shared_is_read(*old(self), *final(self), max as nat, step),
    {
        match &mut self.inner {
            Some(JumboBytesInner::Ram { bytes, cursor_pos }) => {
                let data = bytes_buf::as_slice(bytes);
                let size: usize = data.len();
                let part = read_at(data, *cursor_pos as u64, max);
                *cursor_pos = if *cursor_pos < size && size - *cursor_pos > max {
                    *cursor_pos + max
                } else {
                    size
                };
                ReadStep::Ready(part)
            },
            Some(JumboBytesInner::File { .. }) => ReadStep::ReadFromFile,
            Some(JumboBytesInner::Error(error)) => ReadStep::Failed(error.clone()),
            None => ReadStep::Failed(reuse_after_drop_error()),
        }
    }

    /// Records that `count` bytes were read from the file.
    pub fn file_read(&mut self, count: usize)
        requires
            old(self).inner matches Some(JumboBytesInner::File { cursor_pos, .. }) && cursor_pos
                + count <= u64::MAX,
        ensures
            *final(self) == shared_after_read(*old(self), count as nat),
    {
        if let Some(JumboBytesInner::File { cursor_pos, .. }) = &mut self.inner {
            *cursor_pos = *cursor_pos + count as u64;
        }
    }

    /// Moves the cursor, or says that the file's has to be moved.
    pub fn start_seek(&mut self, position: SeekFrom) -> (step: FileStep)
        ensures
            shared_seeks(*old(self), *final(self), position, step),
    {
        match &mut self.inner {
            Some(JumboBytesInner::Ram { bytes, cursor_pos }) => {
                let fits: bool = match position {
                    SeekFrom::Start(_) => true,
                    SeekFrom::End(offset) => isize::try_from(offset).is_ok(),
                    SeekFrom::Current(offset) => isize::try_from(offset).is_ok(),
                };
                if !fits {
                    return FileStep::Failed(bad_seek_error());
                }
                let size: usize = bytes_buf::as_slice(bytes).len();
                match position.resolve(*cursor_pos as u64, size as u64) {
                    Some(target) => {
                        if target > usize::MAX as u64 {
                            FileStep::Failed(bad_seek_error())
                        } else {
                            *cursor_pos = target as usize;
                            FileStep::Ready
                        }
                    },
                    None => FileStep::Failed(bad_seek_error()),
                }
            },
            Some(JumboBytesInner::File { .. }) => FileStep::OnFile,
            Some(JumboBytesInner::Error(error)) => FileStep::Failed(error.clone()),
            None => FileStep::Failed(reuse_after_drop_error()),
        }
    }

    /// Where the last seek has led.
    pub fn poll_complete(&self) -> (step: PositionStep)
        ensures
            shared_position(*self, step),
    {
        match &self.inner {
            Some(JumboBytesInner::Ram { cursor_pos, .. }) => PositionStep::Ready(
                *cursor_pos as u64,
            ),
            Some(JumboBytesInner::File { .. }) => PositionStep::OnFile,
            Some(JumboBytesInner::Error(error)) => PositionStep::Failed(error.clone()),
            None => PositionStep::Failed(reuse_after_drop_error()),
        }
    }

    /// Records where the file stands after a seek.
    pub fn file_sought(&mut self, position: u64)
        requires
            old(self).is_file(),
        ensures
            *final(self) == shared_at(*old(self), position as nat),
    {
        if let Some(JumboBytesInner::File { cursor_pos, .. }) = &mut self.inner {
            *cursor_pos = position;
        }
    }

    /// Makes a second reader of the same data that stands where this one does,
    /// or says how to open the file for one.
    pub fn try_clone(&self) -> (step: CloneStep)
        ensures
            clones(*self, step),
    {
        match &self.inner {
            Some(JumboBytesInner::Ram { bytes, cursor_pos }) => CloneStep::Ready(
                JumboBytes {
                    inner: Some(
                        JumboBytesInner::Ram {
                            bytes: bytes_buf::share(bytes),
                            cursor_pos: *cursor_pos,
                        },
                    ),
                },
            ),
            Some(JumboBytesInner::File { file_size, cursor_pos }) => CloneStep::Open {
                file_size: *file_size,
                cursor_pos: *cursor_pos,
            },
            Some(JumboBytesInner::Error(error)) => CloneStep::Ready(
                JumboBytes { inner: Some(JumboBytesInner::Error(error.clone())) },
            ),
            None => CloneStep::Ready(JumboBytes { inner: None }),
        }
    }

    /// Whether the file has to be cleaned up when this reader is dropped:
    /// `readers` counts those of the same file, this one among them.
    pub fn needs_cleanup(&self, readers: usize) -> (needed: bool)
        ensures
            needed == has_to_be_removed(*self, readers as nat),
    {
        match &self.inner {
            Some(JumboBytesInner::File { .. }) => readers <= 1,
            _ => false,
        }
    }
}

/// A read from the file is a read from the stream, and the reader keeps track of
/// the file's position: a clone made afterwards goes on from there.
pub proof fn law_read_only_tracks_file(buffer: JumboBytes, disk: Tape, n: nat)
    requires
        buffer.goes_with(disk),
        n <= disk.rest().len(),
    ensures
        buffer.is_file() ==> {
            let after = shared_after_read(buffer, n);
            after.is_file() && after.goes_with(disk.advanced(n)) && after.tape(disk.advanced(n)) == buffer.tape(
                disk,
            ).advanced(n)
        },
{
}

/// A seek in the file is a seek in the stream.
pub proof fn law_read_only_seeks_in_file(buffer: JumboBytes, disk: Tape, pos: u64)
    requires
        buffer.is_file(),
        buffer.goes_with(disk),
    ensures
        shared_at(buffer, pos as nat).is_file(),
        shared_at(buffer, pos as nat).goes_with(disk.at(pos as nat)),
        shared_at(buffer, pos as nat).tape(disk.at(pos as nat)) == buffer.tape(disk).at(
            pos as nat,
        ),
{
}

/// What a reader hands out is what lies at its cursor, and the next read goes on behind
/// it; the data stays as it is. A file is asked, and an error is told of every time.
pub proof fn law_read_only_reads_on(
    before: JumboBytes,
    after: JumboBytes,
    disk: Tape,
    max: nat,
    step: ReadStep,
)
    requires
        shared_is_read(before, after, max, step),
    ensures
        before.is_ram() <==> step is Ready,
        before.is_file() <==> step is ReadFromFile,
        step matches ReadStep::Ready(bytes) ==> {
            let seen = before.tape(disk);
            &&& bytes@ == seen.next(max)
            &&& bytes@ + after.tape(disk).rest() == seen.rest()
            &&& after.tape(disk).data == seen.data
            &&& seen.pos <= seen.data.len() ==> after.tape(disk).pos == seen.pos + bytes@.len()
        },
        before.inner matches Some(JumboBytesInner::Error(error)) ==> (step matches ReadStep::Failed(
            e,
        ) && e.kind == error.kind && e.message@ == error.message@),
        !(step is Ready) ==> after == before,
{
    if step is Ready {
        let seen = before.tape(disk);
        let bytes = step->Ready_0@;
        assert(bytes + after.tape(disk).rest() =~= seen.rest());
    }
}

/// A seek puts the cursor where it was asked to, as far as memory has such a position, and
/// touches nothing else.
pub proof fn law_read_only_seeks(
    before: JumboBytes,
    after: JumboBytes,
    disk: Tape,
    position: SeekFrom,
    step: FileStep,
    told: PositionStep,
)
    requires
        shared_seeks(before, after, position, step),
        shared_position(after, told),
    ensures
        ({
            let seen = before.tape(disk);
            let target = position.target(seen.pos as int, seen.data.len() as int);
            &&& step is Ready ==> {
                &&& target >= 0
                &&& after.tape(disk) == seen.at(target as nat)
                &&& told == PositionStep::Ready(target as u64)
            }
            &&& before.is_ram() && 0 <= target <= usize::MAX && (position is Start) ==> step is Ready
            &&& before.is_ram() && 0 <= target <= usize::MAX && (match position {
                SeekFrom::Start(_) => true,
                SeekFrom::End(offset) => isize::MIN <= offset <= isize::MAX,
                SeekFrom::Current(offset) => isize::MIN <= offset <= isize::MAX,
            }) ==> step is Ready
            &&& before.is_ram() && target < 0 ==> step is Failed
        }),
        before.is_file() <==> step is OnFile,
        !(step is Ready) ==> after == before,
{
}

/// A second reader has the same data and stands where the first one does.
pub proof fn law_clone_stands_where_the_first_does(
    buffer: JumboBytes,
    disk: Tape,
    step: CloneStep,
)
    requires
        clones(buffer, step),
        buffer.goes_with(disk),
    ensures
        step matches CloneStep::Ready(other) ==> other.tape(disk) == buffer.tape(disk)
            && !buffer.is_file(),
        step matches CloneStep::Open { file_size, cursor_pos } ==> {
            &&& buffer.is_file()
            &&& file_size == disk.data.len()
            &&& cursor_pos == buffer.tape(disk).pos
        },
{
}

/// Contents that are taken out are all of them, and leave nothing behind. Only what is in
/// memory can be taken out.
pub proof fn law_shared_gives_bytes(
    before: JumboBytes,
    after: JumboBytes,
    disk: Tape,
    data: Option<bytes::Bytes>,
)
    requires
        shared_gives_bytes(before, after, data),
    ensures
        data is Some <==> before.is_ram(),
        data matches Some(bytes) ==> {
            &&& bytes_buf::content(bytes) == before.tape(disk).data
            &&& after.tape(disk).data.len() == 0
            &&& after.is_ram()
        },
        data is None ==> after == before,
{
}

/// A file is removed with the last of its readers, and with no other. What is in memory
/// has no file.
pub proof fn law_last_reader_removes_the_file(buffer: JumboBytes, others: nat)
    ensures
        buffer.is_file() ==> (has_to_be_removed(buffer, others + 1) <==> others == 0),
        !buffer.is_file() ==> !has_to_be_removed(buffer, others + 1),
{
}

/// The size that is told is that of the data, wherever it is, as far as memory can count it.
pub proof fn law_shared_len_is_told(buffer: JumboBytes, disk: Tape, len: usize)
    requires
        shared_has_len(buffer, len),
        buffer.goes_with(disk),
        buffer.tape(disk).data.len() <= usize::MAX,
    ensures
        len == buffer.tape(disk).data.len(),
{
}

/// The contents that are shown are all of them, just if they are in memory.
pub proof fn law_shared_shows(buffer: JumboBytes, disk: Tape, data: Option<&[u8]>)
    requires
        shared_shows(buffer, data),
    ensures
        data is Some <==> buffer.is_ram(),
        data matches Some(bytes) ==> bytes@ == buffer.tape(disk).data,
{
}

} // verus!
