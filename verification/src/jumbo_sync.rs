//! The blocking counterpart of [JumboBytesMut].
use vstd::prelude::*;
use vstd::string::*;
use crate::io_error;
use crate::io_error::{bad_seek_error, reuse_after_drop_error, IoError, IoErrorKind};
use crate::jumbo;
use crate::jumbo::{
    too_large_error, too_large_for_vec_error, unaddressable_error, FileStep, IntoVecStep,
    JumboBytesMut, JumboBytesMutInner, ReadStep, SpillSettings, WriteStep,
};
use crate::tape;
use crate::tape::{read_at, write_at, SeekFrom, Tape};

verus! {

/// Where the contents of a [JumboBytesMutSync] are.
#[derive(Debug)]
pub enum JumboBytesMutSyncInner {
    /// In memory.
    Ram { bytes: Vec<u8>, cursor: u64 },
    /// In a file of `file_size` bytes that stands at `cursor_pos`.
    File { cursor_pos: u64, file_size: u64 },
}

/// An array of bytes, exposed as a seekable blocking stream, which moves into a
/// temporary file once a write would make it larger than the memory it may take.
#[derive(Debug)]
pub struct JumboBytesMutSync {
    /// The maximum size of the data. If the data is larger, or would become
    /// larger by a write, the write fails with [IoErrorKind::FileTooLarge].
    pub max_size: u64,
    pub inner: Option<JumboBytesMutSyncInner>,
    pub max_ram_size: usize,
}

/// What becomes of a seek.
#[derive(Debug)]
pub enum SeekStep {
    Failed(IoError),
    /// The cursor stands here.
    Ready(u64),
    /// Seek in the file, and report its position.
    OnFile,
}

/// How the contents of a buffer become a vector of at most `max_size` bytes.
pub open spec fn sync_becomes_vec(
    buffer: JumboBytesMutSync,
    max_size: u64,
    step: IntoVecStep,
) -> bool {
    &&& buffer.inner is None ==> {
        &&& step matches IntoVecStep::Failed(e)
        &&& e.says(IoErrorKind::BrokenPipe, io_error::reuse_after_drop_text())
    }
    &&& buffer.inner is Some && buffer.spec_len() > max_size ==> {
        &&& step matches IntoVecStep::Failed(e)
        &&& e.says(IoErrorKind::FileTooLarge, jumbo::too_large_for_vec_text())
    }
    &&& buffer.is_ram() && buffer.spec_len() <= max_size ==> {
        &&& step matches IntoVecStep::Ready(bytes)
        &&& bytes@ == buffer.ram().data
    }
    &&& buffer.is_file() && buffer.spec_len() <= max_size ==> step is ReadFile
}

/// What a read of at most `max` bytes does to a buffer.
pub open spec fn sync_is_read(
    before: JumboBytesMutSync,
    after: JumboBytesMutSync,
    max: nat,
    step: ReadStep,
) -> bool {
    &&& after.max_size == before.max_size
    &&& after.max_ram_size == before.max_ram_size
    &&& before.inner is None ==> {
        &&& step matches ReadStep::Failed(e)
        &&& e.says(IoErrorKind::BrokenPipe, io_error::reuse_after_drop_text())
        &&& after == before
    }
    &&& before.is_ram() ==> {
        &&& step matches ReadStep::Ready(bytes)
        &&& bytes@ == before.ram().next(max)
        &&& after.is_ram()
        &&& after.ram() == before.ram().advanced(bytes@.len())
    }
    &&& before.is_file() ==> step is ReadFromFile && after == before
}

/// What a seek does to a buffer.
pub open spec fn sync_seeks(
    before: JumboBytesMutSync,
    after: JumboBytesMutSync,
    position: SeekFrom,
    step: SeekStep,
) -> bool {
    &&& after.max_size == before.max_size
    &&& after.max_ram_size == before.max_ram_size
    &&& before.inner is None ==> {
        &&& step matches SeekStep::Failed(e)
        &&& e.says(IoErrorKind::BrokenPipe, io_error::reuse_after_drop_text())
        &&& after == before
    }
    &&& before.is_ram() ==> {
        let tape = before.ram();
        let target = position.target(tape.pos as int, tape.data.len() as int);
        if 0 <= target <= u64::MAX {
            &&& step == SeekStep::Ready(target as u64)
            &&& after.is_ram()
            &&& after.ram() == tape.at(target as nat)
        } else {
            &&& step matches SeekStep::Failed(e)
            &&& e.says(IoErrorKind::InvalidInput, io_error::bad_seek_text())
            &&& after == before
        }
    }
    &&& before.is_file() ==> step is OnFile && after == before
}

/// What a write of `buf` does to a buffer.
pub open spec fn sync_writes(
    before: JumboBytesMutSync,
    after: JumboBytesMutSync,
    buf: Seq<u8>,
    step: WriteStep,
) -> bool {
    &&& after.max_size == before.max_size
    &&& after.max_ram_size == before.max_ram_size
    &&& before.is_too_large(buf.len()) ==> {
        &&& step matches WriteStep::Failed(e)
        &&& e.says(IoErrorKind::FileTooLarge, jumbo::too_large_text(before.max_size))
        &&& after == before
    }
    &&& before.inner is None && !before.is_too_large(buf.len()) ==> {
        &&& step matches WriteStep::Failed(e)
        &&& e.says(IoErrorKind::BrokenPipe, io_error::reuse_after_drop_text())
        &&& after == before
    }
    &&& before.is_ram() && !before.is_too_large(buf.len()) ==> {
        let tape = before.ram();
        if tape.data.len() + buf.len() > before.max_ram_size {
            &&& step matches WriteStep::Spill { bytes, cursor }
            &&& bytes@ == tape.data
            &&& cursor == tape.pos
            &&& after.is_ram()
            &&& after.ram() == (Tape { data: Seq::empty(), pos: tape.pos })
        } else if tape.pos + buf.len() > usize::MAX {
            &&& step matches WriteStep::Failed(e)
            &&& e.says(IoErrorKind::InvalidInput, jumbo::unaddressable_text())
            &&& after == before
        } else {
            &&& step == WriteStep::Written(buf.len() as usize)
            &&& after.is_ram()
            &&& after.ram() == tape.written(buf)
        }
    }
    &&& before.is_file() && !before.is_too_large(buf.len()) ==> step is WriteToFile
        && after == before
}

/// What has to be done for the data to be out of a buffer.
pub open spec fn sync_flushes(
    buffer: JumboBytesMutSync,
    step: FileStep,
) -> bool {
    &&& buffer.inner is None ==> {
        &&& step matches FileStep::Failed(e)
        &&& e.says(IoErrorKind::BrokenPipe, io_error::reuse_after_drop_text())
    }
    &&& buffer.is_ram() ==> step is Ready
    &&& buffer.is_file() ==> step is OnFile
}

/// What comes of taking the contents out of a buffer.
pub open spec fn sync_gives_vec(
    before: JumboBytesMutSync,
    after: JumboBytesMutSync,
    data: Option<Vec<u8>>,
) -> bool {
    &&& data is Some <==> before.is_ram()
    &&& data matches Some(bytes) ==> bytes@ == before.ram().data && after.is_ram()
        && after.ram() == (Tape { data: Seq::empty(), pos: 0 })
    &&& data is None ==> after.inner == before.inner
    &&& after.max_size == before.max_size
    &&& after.max_ram_size == before.max_ram_size
}

/// Whether `data` are the contents, as far as they are in memory.
pub open spec fn sync_shows(
    buffer: JumboBytesMutSync,
    data: Option<&[u8]>,
) -> bool {
    &&& data is Some <==> buffer.is_ram()
    &&& data matches Some(bytes) ==> bytes@ == buffer.ram().data
}

impl JumboBytesMutSync {
    /// Whether the contents are in memory.
    pub open spec fn is_ram(self) -> bool {
        self.inner matches Some(JumboBytesMutSyncInner::Ram { .. })
    }

    /// Whether the contents are in a file.
    pub open spec fn is_file(self) -> bool {
        self.inner matches Some(JumboBytesMutSyncInner::File { .. })
    }

    /// The contents in memory.
    pub open spec fn ram(self) -> Tape {
        match self.inner {
            Some(JumboBytesMutSyncInner::Ram { bytes, cursor }) => Tape {
                data: bytes@,
                pos: cursor as nat,
            },
            _ => Tape { data: Seq::empty(), pos: 0 },
        }
    }

    /// The size of the data.
    pub open spec fn spec_len(self) -> nat {
        match self.inner {
            Some(JumboBytesMutSyncInner::Ram { bytes, .. }) => bytes@.len(),
            Some(JumboBytesMutSyncInner::File { file_size, .. }) => file_size as nat,
            None => 0,
        }
    }

    /// The position of the cursor.
    pub open spec fn cursor(self) -> nat {
        match self.inner {
            Some(JumboBytesMutSyncInner::Ram { cursor, .. }) => cursor as nat,
            Some(JumboBytesMutSyncInner::File { cursor_pos, .. }) => cursor_pos as nat,
            None => 0,
        }
    }

    /// Whether `disk` is the temporary file that this buffer takes it to be.
    pub open spec fn goes_with(self, disk: Tape) -> bool {
        self.inner matches Some(JumboBytesMutSyncInner::File { cursor_pos, file_size })
            ==> disk.data.len() == file_size && disk.pos == cursor_pos
    }

    /// The bytes and the cursor that a user of the stream sees, where `disk` is
    /// the temporary file, if there is one.
    pub open spec fn tape(self, disk: Tape) -> Tape {
        if self.is_file() {
            disk
        } else {
            self.ram()
        }
    }

    /// The size of the data after a write of `n` bytes. A file is not touched
    /// by a write of nothing.
    pub open spec fn size_after_write(self, n: nat) -> nat {
        if n == 0 && !self.is_ram() {
            self.spec_len()
        } else {
            tape::max_nat(self.spec_len(), self.cursor() + n)
        }
    }

    /// Whether a write of `n` bytes is too large: the data is already larger than it
    /// may be, or the write would make it so.
    pub open spec fn is_too_large(self, n: nat) -> bool {
        self.spec_len() > self.max_size || self.size_after_write(n) > self.max_size
    }

    /// The same buffer with its contents in a file of the given size and position.
    pub open spec fn in_file(self, cursor_pos: nat, file_size: nat) -> JumboBytesMutSync {
        JumboBytesMutSync {
            max_size: self.max_size,
            inner: Some(
                JumboBytesMutSyncInner::File {
                    cursor_pos: cursor_pos as u64,
                    file_size: file_size as u64,
                },
            ),
            max_ram_size: self.max_ram_size,
        }
    }

    /// The buffer once its contents were moved into a file of `file_size` bytes, and
    /// `n` more bytes were written there from `cursor` on.
    pub open spec fn after_spill(self, file_size: nat, cursor: nat, n: nat) -> JumboBytesMutSync {
        self.in_file(
            cursor + n,
            if n == 0 {
                file_size
            } else {
                tape::max_nat(file_size, cursor + n)
            },
        )
    }

    /// The buffer once `n` bytes were written to its file.
    pub open spec fn after_file_write(self, n: nat) -> JumboBytesMutSync {
        self.in_file(self.cursor() + n, self.size_after_write(n))
    }

    /// The buffer once `n` bytes were read from its file.
    pub open spec fn after_file_read(self, n: nat) -> JumboBytesMutSync {
        self.in_file(self.cursor() + n, self.spec_len())
    }

    /// The buffer once its file was sought to `pos`.
    pub open spec fn after_file_seek(self, pos: nat) -> JumboBytesMutSync {
        self.in_file(pos, self.spec_len())
    }

    /// A new buffer whose data cannot become larger than `max_size`.
    pub fn new(max_size: u64, settings: &SpillSettings) -> (buffer: JumboBytesMutSync)
        ensures
            sync_is_new(buffer, Seq::empty(), max_size, settings.spillover_size),
    {
        JumboBytesMutSync {
            max_size,
            inner: Some(JumboBytesMutSyncInner::Ram { bytes: Vec::new(), cursor: 0 }),
            max_ram_size: settings.spillover_size,
        }
    }

    /// A buffer with the given contents, its cursor at the start.
    pub fn from_vec(data: Vec<u8>, settings: &SpillSettings) -> (buffer: JumboBytesMutSync)
        ensures
            sync_is_new(buffer, data@, u64::MAX, settings.spillover_size),
    {
        JumboBytesMutSync {
            max_size: u64::MAX,
            inner: Some(JumboBytesMutSyncInner::Ram { bytes: data, cursor: 0 }),
            max_ram_size: settings.spillover_size,
        }
    }

    /// A buffer with the bytes of `data`, its cursor at the start.
    pub fn from_string(data: String, settings: &SpillSettings) -> (buffer: JumboBytesMutSync)
        ensures
            sync_is_new(
                buffer,
                vstd::utf8::encode_utf8(data@),
                u64::MAX,
                settings.spillover_size,
            ),
    {
        JumboBytesMutSync::from_vec(data.as_str().as_bytes_vec(), settings)
    }

    /// Takes the contents out, if they are in memory. The buffer is then empty.
    pub fn take_vec(&mut self) -> (data: Option<Vec<u8>>)
        ensures
            sync_gives_vec(*old(self), *final(self), data),
    {
        match &mut self.inner {
            Some(JumboBytesMutSyncInner::Ram { bytes, cursor }) => {
                *cursor = 0;
                let mut taken: Vec<u8> = Vec::new();
                std::mem::swap(bytes, &mut taken);
                Some(taken)
            },
            _ => None,
        }
    }

    /// The contents, if they are in memory.
    pub fn as_slice(&self) -> (data: Option<&[u8]>)
        ensures
            sync_shows(*self, data),
    {
        match &self.inner {
            Some(JumboBytesMutSyncInner::Ram { bytes, .. }) => Some(bytes.as_slice()),
            _ => None,
        }
    }

    /// Turns the contents into a vector, unless they are larger than `max_size`.
    pub fn into_vec(self, max_size: u64) -> (step: IntoVecStep)
        ensures
            sync_becomes_vec(self, max_size, step),
    {
        match self.inner {
            Some(JumboBytesMutSyncInner::Ram { bytes, .. }) => {
                if bytes.len() as u64 > max_size {
                    IntoVecStep::Failed(too_large_for_vec_error())
                } else {
                    IntoVecStep::Ready(bytes)
                }
            },
            Some(JumboBytesMutSyncInner::File { file_size, .. }) => {
                if file_size > max_size {
                    IntoVecStep::Failed(too_large_for_vec_error())
                } else {
                    IntoVecStep::ReadFile
                }
            },
            None => IntoVecStep::Failed(reuse_after_drop_error()),
        }
    }

    /// The size of the data.
    pub fn len(&self) -> (len: u64)
        ensures
            sync_has_len(*self, len),
    {
        match &self.inner {
            Some(JumboBytesMutSyncInner::Ram { bytes, .. }) => bytes.len() as u64,
            Some(JumboBytesMutSyncInner::File { file_size, .. }) => *file_size,
            None => 0,
        }
    }

    /// Whether there is no data.
    pub fn is_empty(&self) -> (empty: bool)
        ensures
            empty == (self.spec_len() == 0),
    {
        self.len() == 0
    }

    /// Reads at most `max` bytes at the cursor, or says that the file has to be
    /// read.
    pub fn read(&mut self, max: usize) -> (step: ReadStep)
        ensures
            sync_is_read(*old(self), *final(self), max as nat, step),
    {
        match &mut self.inner {
            Some(JumboBytesMutSyncInner::Ram { bytes, cursor }) => {
                let size: usize = bytes.len();
                let part = read_at(bytes.as_slice(), *cursor, max);
                assert(part@.len() > 0 ==> *cursor + part@.len() <= size);
                *cursor = *cursor + part.len() as u64;
                ReadStep::Ready(part)
            },
            Some(JumboBytesMutSyncInner::File { .. }) => ReadStep::ReadFromFile,
            None => ReadStep::Failed(reuse_after_drop_error()),
        }
    }

    /// Records that `count` bytes were read from the file.
    pub fn file_read(&mut self, count: usize)
        requires
            old(self).is_file(),
            old(self).cursor() + count <= u64::MAX,
        ensures
            *final(self) == old(self).after_file_read(count as nat),
    {
        if let Some(JumboBytesMutSyncInner::File { cursor_pos, .. }) = &mut self.inner {
            *cursor_pos = *cursor_pos + count as u64;
        }
    }

    /// Moves the cursor, or says that the file's has to be moved.
    pub fn seek(&mut self, position: SeekFrom) -> (step: SeekStep)
        ensures
            sync_seeks(*old(self), *final(self), position, step),
    {
        match &mut self.inner {
            Some(JumboBytesMutSyncInner::Ram { bytes, cursor }) => {
                match position.resolve(*cursor, bytes.len() as u64) {
                    Some(target) => {
                        *cursor = target;
                        SeekStep::Ready(target)
                    },
                    None => SeekStep::Failed(bad_seek_error()),
                }
            },
            Some(JumboBytesMutSyncInner::File { .. }) => SeekStep::OnFile,
            None => SeekStep::Failed(reuse_after_drop_error()),
        }
    }

    /// Records where the file stands after a seek.
    pub fn file_sought(&mut self, position: u64)
        requires
            old(self).is_file(),
        ensures
            *final(self) == old(self).after_file_seek(position as nat),
    {
        if let Some(JumboBytesMutSyncInner::File { cursor_pos, .. }) = &mut self.inner {
            *cursor_pos = position;
        }
    }

    /// Whether a write of `n` bytes is too large.
    fn refuses(&self, n: usize) -> (refused: bool)
        ensures
            refused == self.is_too_large(n as nat),
    {
        let (len, cursor, ram): (u64, u64, bool) = match &self.inner {
            Some(JumboBytesMutSyncInner::Ram { bytes, cursor }) => {
                (bytes.len() as u64, *cursor, true)
            },
            Some(JumboBytesMutSyncInner::File { cursor_pos, file_size }) => {
                (*file_size, *cursor_pos, false)
            },
            None => (0, 0, false),
        };
        let n: u64 = n as u64;
        if len > self.max_size {
            return true;
        }
        if n == 0 && !ram {
            return false;
        }
        cursor > self.max_size || n > self.max_size - cursor
    }

    /// Writes at the cursor, or says what has to be done to write.
    ///
    /// A buffer in memory whose data and the write together take more memory
    /// than they may hands its contents out and stays behind empty until the
    /// file that takes them in is reported.
    pub fn write(&mut self, buf: &[u8]) -> (step: WriteStep)
        ensures
            sync_writes(*old(self), *final(self), buf@, step),
    {
        if self.refuses(buf.len()) {
            return WriteStep::Failed(too_large_error(self.max_size));
        }
        let max_ram_size: usize = self.max_ram_size;
        match &mut self.inner {
            Some(JumboBytesMutSyncInner::Ram { bytes, cursor }) => {
                if bytes.len() > max_ram_size || buf.len() > max_ram_size - bytes.len() {
                    let mut spilled: Vec<u8> = Vec::new();
                    std::mem::swap(bytes, &mut spilled);
                    WriteStep::Spill { bytes: spilled, cursor: *cursor }
                } else if *cursor > usize::MAX as u64 || buf.len() > usize::MAX - *cursor as usize {
                    WriteStep::Failed(unaddressable_error())
                } else {
                    write_at(bytes, *cursor as usize, buf);
                    *cursor = *cursor + buf.len() as u64;
                    WriteStep::Written(buf.len())
                }
            },
            Some(JumboBytesMutSyncInner::File { .. }) => WriteStep::WriteToFile,
            None => WriteStep::Failed(reuse_after_drop_error()),
        }
    }

    /// Takes in a file of `file_size` bytes that the contents were written to
    /// and to which, from `cursor` on, `written` more bytes were written.
    pub fn spilled(&mut self, file_size: u64, cursor: u64, written: usize)
        requires
            cursor + written <= u64::MAX,
        ensures
            *final(self) == old(self).after_spill(
                file_size as nat,
                cursor as nat,
                written as nat,
            ),
    {
        let end: u64 = cursor + written as u64;
        let size: u64 = if written > 0 && file_size < end {
            end
        } else {
            file_size
        };
        self.inner = Some(JumboBytesMutSyncInner::File { cursor_pos: end, file_size: size });
    }

    /// Records that `written` bytes were written to the file.
    pub fn file_written(&mut self, written: usize)
        requires
            old(self).is_file(),
            old(self).cursor() + written <= u64::MAX,
        ensures
            *final(self) == old(self).after_file_write(written as nat),
    {
        if let Some(JumboBytesMutSyncInner::File { cursor_pos, file_size }) = &mut self.inner {
            *cursor_pos = *cursor_pos + written as u64;
            if written > 0 && *file_size < *cursor_pos {
                *file_size = *cursor_pos;
            }
        }
    }

    /// Whether anything has to be done for the data to be out of the buffer.
    pub fn flush(&self) -> (step: FileStep)
        ensures
            sync_flushes(*self, step),
    {
        match &self.inner {
            Some(JumboBytesMutSyncInner::Ram { .. }) => FileStep::Ready,
            Some(JumboBytesMutSyncInner::File { .. }) => FileStep::OnFile,
            None => FileStep::Failed(reuse_after_drop_error()),
        }
    }

    /// The blocking form of a buffer that is not on the way into a file. A file
    /// goes along, and stands where the buffer's cursor stands.
    pub fn from_async(value: JumboBytesMut) -> (buffer: JumboBytesMutSync)
        requires
            !value.is_transitioning(),
        ensures
            are_counterparts(buffer, value),
    {
        JumboBytesMutSync {
            max_size: value.max_size,
            inner: match value.inner {
                Some(JumboBytesMutInner::Ram { bytes, cursor }) => Some(
                    JumboBytesMutSyncInner::Ram { bytes, cursor },
                ),
                Some(JumboBytesMutInner::File { cursor_pos, file_size }) => Some(
                    JumboBytesMutSyncInner::File { cursor_pos, file_size },
                ),
                _ => None,
            },
            max_ram_size: value.max_ram_size,
        }
    }

    /// The form of the buffer that does not block. A file goes along, and stands
    /// where the buffer's cursor stands.
    pub fn into_async(self) -> (buffer: JumboBytesMut)
        ensures
            !buffer.is_transitioning(),
            are_counterparts(self, buffer),
    {
        JumboBytesMut {
            max_size: self.max_size,
            inner: match self.inner {
                Some(JumboBytesMutSyncInner::Ram { bytes, cursor }) => Some(
                    JumboBytesMutInner::Ram { bytes, cursor },
                ),
                Some(JumboBytesMutSyncInner::File { cursor_pos, file_size }) => Some(
                    JumboBytesMutInner::File { cursor_pos, file_size },
                ),
                None => None,
            },
            max_ram_size: self.max_ram_size,
        }
    }

    /// Whether a temporary file has to be cleaned up when the buffer is dropped.
    pub fn needs_cleanup(&self) -> (needed: bool)
        ensures
            needed == self.is_file(),
    {
        match &self.inner {
            Some(JumboBytesMutSyncInner::File { .. }) => true,
            _ => false,
        }
    }
}

/// Moving into a file is invisible to a user, if the file is made as the step
/// says: what is then seen is what a write to memory would have left.
pub proof fn law_sync_spill_is_invisible(buffer: JumboBytesMutSync, buf: Seq<u8>)
    requires
        buffer.is_ram(),
        buf.len() > 0,
        buffer.spec_len() <= u64::MAX,
        buffer.cursor() + buf.len() <= u64::MAX,
    ensures
        ({
            let disk = buffer.ram().written(buf);
            let after = buffer.after_spill(buffer.spec_len(), buffer.cursor(), buf.len());
            after.goes_with(disk) && after.tape(disk) == buffer.tape(disk).written(buf)
        }),
{
    tape::law_written_len(buffer.ram(), buf);
}

/// A write to the file is a write to the stream.
pub proof fn law_sync_file_write(buffer: JumboBytesMutSync, disk: Tape, buf: Seq<u8>)
    requires
        buffer.is_file(),
        buffer.goes_with(disk),
        buf.len() > 0,
        buffer.cursor() + buf.len() <= u64::MAX,
    ensures
        ({
            let after = buffer.after_file_write(buf.len());
            after.goes_with(disk.written(buf)) && after.tape(disk.written(buf)) == buffer.tape(
                disk,
            ).written(buf)
        }),
{
    tape::law_written_len(disk, buf);
}

/// A read from the file is a read from the stream.
pub proof fn law_sync_file_read(buffer: JumboBytesMutSync, disk: Tape, max: nat)
    requires
        buffer.is_file(),
        buffer.goes_with(disk),
    ensures
        disk.next(max) == buffer.tape(disk).next(max),
        buffer.cursor() + disk.next(max).len() <= u64::MAX,
        ({
            let n = disk.next(max).len();
            let after = buffer.after_file_read(n);
            after.goes_with(disk.advanced(n)) && after.tape(disk.advanced(n)) == buffer.tape(
                disk,
            ).advanced(n)
        }),
{
}

/// A seek in the file is a seek in the stream.
pub proof fn law_sync_file_seek(buffer: JumboBytesMutSync, disk: Tape, pos: u64)
    requires
        buffer.is_file(),
        buffer.goes_with(disk),
    ensures
        ({
            let after = buffer.after_file_seek(pos as nat);
            after.goes_with(disk.at(pos as nat)) && after.tape(disk.at(pos as nat)) == buffer.tape(
                disk,
            ).at(pos as nat)
        }),
{
}

/// No write that is let through makes the data larger than it may be.
pub proof fn law_sync_size_is_bounded(buffer: JumboBytesMutSync, n: nat)
    requires
        !buffer.is_too_large(n),
    ensures
        buffer.size_after_write(n) <= buffer.max_size,
{
}

/// A write is refused as too large just if the data is larger than it may be, or would be
/// after the write, wherever the contents are.
pub proof fn law_sync_too_large(buffer: JumboBytesMutSync, disk: Tape, buf: Seq<u8>)
    requires
        buffer.goes_with(disk),
        buf.len() > 0 || buffer.is_ram(),
        buffer.inner is Some,
    ensures
        buffer.is_too_large(buf.len()) <==> {
            ||| buffer.tape(disk).data.len() > buffer.max_size
            ||| buffer.tape(disk).written(buf).data.len() > buffer.max_size
        },
        buffer.spec_len() <= buffer.max_size && buffer.cursor() + buf.len() <= buffer.max_size
            ==> !buffer.is_too_large(buf.len()),
        buffer.spec_len() <= buffer.max_size ==> (buffer.is_file() ==> !buffer.is_too_large(0)),
{
    tape::law_written_len(buffer.tape(disk), buf);
}

/// A write that is not too large is taken, unless memory has no such position: into the
/// file, if the contents are there; into memory, as long as the data and the write
/// together take no more of it than they may; and otherwise once the contents have moved.
/// A write that is refused changes nothing.
pub proof fn law_sync_write_to_stream(
    before: JumboBytesMutSync,
    after: JumboBytesMutSync,
    disk: Tape,
    buf: Seq<u8>,
    step: WriteStep,
)
    requires
        sync_writes(before, after, buf, step),
        before.goes_with(disk),
        before.inner is Some,
        buf.len() > 0 || before.is_ram(),
    ensures
        ({
            let seen = before.tape(disk);
            let exceeds = seen.data.len() > before.max_size || seen.written(buf).data.len()
                > before.max_size;
            &&& (step matches WriteStep::Failed(e) && e.kind == IoErrorKind::FileTooLarge)
                <==> exceeds
            &&& step is Failed ==> after == before
            &&& step is Failed && !exceeds ==> before.is_ram() && seen.pos + buf.len() > usize::MAX
            &&& before.is_file() && !exceeds ==> step is WriteToFile && after == before
            &&& step matches WriteStep::Written(n) ==> {
                &&& n == buf.len()
                &&& after.is_ram()
                &&& after.tape(disk) == seen.written(buf)
                &&& seen.data.len() + buf.len() <= before.max_ram_size
            }
            &&& step matches WriteStep::Spill { bytes, cursor } ==> {
                &&& bytes@ == seen.data
                &&& cursor == seen.pos
                &&& before.is_ram()
                &&& seen.data.len() + buf.len() > before.max_ram_size
            }
        }),
        step is WriteToFile ==> before.is_file(),
        !(step is AwaitTransition),
        after.max_size == before.max_size,
        after.max_ram_size == before.max_ram_size,
{
    law_sync_too_large(before, disk, buf);
}

/// What a buffer hands out is what lies at the cursor of the stream, and the cursor goes on
/// behind it. A file is asked.
pub proof fn law_sync_read_from_stream(
    before: JumboBytesMutSync,
    after: JumboBytesMutSync,
    disk: Tape,
    max: nat,
    step: ReadStep,
)
    requires
        sync_is_read(before, after, max, step),
    ensures
        before.is_ram() <==> step is Ready,
        before.is_file() <==> step is ReadFromFile,
        before.inner is None <==> step is Failed,
        step matches ReadStep::Ready(bytes) ==> {
            &&& bytes@ == before.tape(disk).next(max)
            &&& after.tape(disk) == before.tape(disk).advanced(bytes@.len())
        },
        !(step is Ready) ==> after == before,
{
}

/// A seek puts the cursor where it was asked to, tells where that is, and touches nothing
/// else. It fails just if there is no such position.
pub proof fn law_sync_seek_in_stream(
    before: JumboBytesMutSync,
    after: JumboBytesMutSync,
    disk: Tape,
    position: SeekFrom,
    step: SeekStep,
)
    requires
        sync_seeks(before, after, position, step),
    ensures
        ({
            let seen = before.tape(disk);
            let target = position.target(seen.pos as int, seen.data.len() as int);
            &&& step matches SeekStep::Ready(pos) ==> {
                &&& pos == target
                &&& after.tape(disk) == seen.at(pos as nat)
            }
            &&& before.is_ram() ==> (step is Ready <==> 0 <= target <= u64::MAX)
        }),
        before.is_file() <==> step is OnFile,
        !(step is Ready) ==> after == before,
{
}

/// A vector of the contents holds all of them, and is refused just if they are more than it
/// may hold: a file's are then read as a whole.
pub proof fn law_sync_vec_holds_everything(
    buffer: JumboBytesMutSync,
    disk: Tape,
    max_size: u64,
    step: IntoVecStep,
    flushed: FileStep,
)
    requires
        sync_becomes_vec(buffer, max_size, step),
        sync_flushes(buffer, flushed),
        buffer.goes_with(disk),
        buffer.inner is Some,
    ensures
        buffer.tape(disk).data.len() > max_size <==> (step matches IntoVecStep::Failed(e) && e.kind
            == IoErrorKind::FileTooLarge),
        buffer.is_ram() && buffer.tape(disk).data.len() <= max_size ==> step is Ready,
        buffer.is_file() && buffer.tape(disk).data.len() <= max_size ==> step is ReadFile,
        step matches IntoVecStep::Ready(bytes) ==> bytes@ == buffer.tape(disk).data,
        buffer.is_ram() <==> flushed is Ready,
        buffer.is_file() <==> flushed is OnFile,
{
}

/// Whether a piece is written to a buffer and its file on disk, if they take all of it;
/// `between` is the buffer after the write itself.
pub open spec fn piece_is_written(
    before: (JumboBytesMutSync, Tape),
    between: JumboBytesMutSync,
    piece: Seq<u8>,
    after: (JumboBytesMutSync, Tape),
    step: WriteStep,
) -> bool {
    &&& sync_writes(before.0, between, piece, step)
    &&& match step {
        WriteStep::Spill { bytes, cursor } => {
            let file = Tape { data: bytes@, pos: cursor as nat };
            &&& after.0 == between.after_spill(bytes@.len(), cursor as nat, piece.len())
            &&& after.1 == file.written(piece)
        },
        WriteStep::WriteToFile => {
            &&& after.0 == between.after_file_write(piece.len())
            &&& after.1 == before.1.written(piece)
        },
        _ => after == (between, before.1),
    }
}

/// Whether pieces are written to an empty buffer one after the other. Nothing follows one
/// that is refused.
pub open spec fn piece_run(
    states: Seq<(JumboBytesMutSync, Tape)>,
    between: Seq<JumboBytesMutSync>,
    pieces: Seq<Seq<u8>>,
    steps: Seq<WriteStep>,
) -> bool {
    &&& states.len() == pieces.len() + 1
    &&& between.len() == pieces.len()
    &&& steps.len() == pieces.len()
    &&& states[0].0.is_ram()
    &&& states[0].0.ram() == (Tape { data: Seq::empty(), pos: 0 })
    &&& forall|k: int|
        0 <= k < pieces.len() ==> {
            &&& (#[trigger] pieces[k]).len() > 0
            &&& piece_is_written(states[k], between[k], pieces[k], states[k + 1], steps[k])
        }
    &&& forall|k: int| 0 <= k < pieces.len() - 1 ==> !(#[trigger] steps[k] is Failed)
}

/// One piece is appended, or refused because the data would become too large.
proof fn lemma_piece_is_written(
    before: (JumboBytesMutSync, Tape),
    between: JumboBytesMutSync,
    piece: Seq<u8>,
    after: (JumboBytesMutSync, Tape),
    step: WriteStep,
)
    requires
        piece_is_written(before, between, piece, after, step),
        piece.len() > 0,
        before.0.inner is Some,
        before.0.goes_with(before.1),
        before.0.tape(before.1).pos == before.0.tape(before.1).data.len(),
        before.0.tape(before.1).data.len() <= before.0.max_size,
    ensures
        after.0.max_size == before.0.max_size,
        step is Failed <==> before.0.tape(before.1).data.len() + piece.len() > before.0.max_size,
        !(step is Failed) ==> {
            &&& after.0.inner is Some
            &&& after.0.goes_with(after.1)
            &&& after.0.tape(after.1).data == before.0.tape(before.1).data + piece
            &&& after.0.tape(after.1).pos == after.0.tape(after.1).data.len()
        },
{
    let seen = before.0.tape(before.1);
    tape::law_written_len(seen, piece);
    tape::law_append(seen, piece);
    law_sync_write_to_stream(before.0, between, before.1, piece, step);
}

/// Pieces that are written one after the other are the data, wherever that is, and are
/// refused just when they are larger together than the data may be.
pub proof fn law_sync_pieces_join(
    states: Seq<(JumboBytesMutSync, Tape)>,
    between: Seq<JumboBytesMutSync>,
    pieces: Seq<Seq<u8>>,
    steps: Seq<WriteStep>,
)
    requires
        piece_run(states, between, pieces, steps),
        pieces.len() > 0,
    ensures
        steps.last() is Failed <==> pieces.flatten().len() > states[0].0.max_size,
        !(steps.last() is Failed) ==> states.last().0.tape(states.last().1).data
            == pieces.flatten(),
{
    lemma_pieces_join(states, between, pieces, steps, (pieces.len() - 1) as nat);
    let n = pieces.len() - 1;
    lemma_piece_is_written(states[n], between[n], pieces[n], states[n + 1], steps[n]);
    assert(pieces =~= pieces.take(n).push(pieces[n]));
    pieces.take(n).lemma_flatten_push(pieces[n]);
}

/// As long as nothing is refused, the pieces are the data.
proof fn lemma_pieces_join(
    states: Seq<(JumboBytesMutSync, Tape)>,
    between: Seq<JumboBytesMutSync>,
    pieces: Seq<Seq<u8>>,
    steps: Seq<WriteStep>,
    n: nat,
)
    requires
        piece_run(states, between, pieces, steps),
        n < pieces.len(),
    ensures
        ({
            let (buffer, disk) = states[n as int];
            &&& buffer.max_size == states[0].0.max_size
            &&& buffer.inner is Some
            &&& buffer.goes_with(disk)
            &&& buffer.tape(disk).data == pieces.take(n as int).flatten()
            &&& buffer.tape(disk).pos == buffer.tape(disk).data.len()
            &&& buffer.tape(disk).data.len() <= buffer.max_size
        }),
    decreases n,
{
    if n == 0 {
        assert(pieces.take(0) =~= Seq::<Seq<u8>>::empty());
    } else {
        let k = n - 1;
        lemma_pieces_join(states, between, pieces, steps, k as nat);
        assert(pieces[k].len() > 0);
        assert(!(steps[k] is Failed));
        lemma_piece_is_written(states[k], between[k], pieces[k], states[k + 1], steps[k]);
        assert(pieces.take(n as int) =~= pieces.take(k).push(pieces[k]));
        pieces.take(k).lemma_flatten_push(pieces[k]);
    }
}

/// Whether a blocking buffer and one that does not block are the same in all but that.
pub open spec fn are_counterparts(blocking: JumboBytesMutSync, other: JumboBytesMut) -> bool {
    &&& blocking.max_size == other.max_size
    &&& blocking.max_ram_size == other.max_ram_size
    &&& blocking.is_ram() == other.is_ram()
    &&& blocking.is_file() == other.is_file()
    &&& blocking.ram() == other.ram()
    &&& blocking.spec_len() == other.spec_len()
    &&& blocking.cursor() == other.cursor()
}

/// Both forms of a buffer show the same stream: the same bytes, the same cursor, and the
/// same limits, wherever the contents are.
pub proof fn law_counterparts_show_the_same(
    blocking: JumboBytesMutSync,
    other: JumboBytesMut,
    disk: Tape,
)
    requires
        are_counterparts(blocking, other),
        !other.is_transitioning(),
        other.goes_with(disk),
    ensures
        blocking.tape(disk) == other.tape(disk),
        blocking.goes_with(disk),
        blocking.max_size == other.max_size,
        blocking.max_ram_size == other.max_ram_size,
        other.inner is Some ==> blocking.inner is Some,
{
    assert(blocking.tape(disk).data =~= other.tape(disk).data);
}

/// Whether a buffer was made of the given data, and nothing was done with it since.
pub open spec fn sync_is_new(
    buffer: JumboBytesMutSync,
    data: Seq<u8>,
    max_size: u64,
    max_ram_size: usize,
) -> bool {
    &&& buffer.is_ram()
    &&& buffer.ram() == (Tape { data, pos: 0 })
    &&& buffer.max_size == max_size
    &&& buffer.max_ram_size == max_ram_size
}

/// A new buffer shows the data it was made of, from its start, and lets it grow up to the
/// limit that it was given.
pub proof fn law_sync_is_new(
    buffer: JumboBytesMutSync,
    disk: Tape,
    data: Seq<u8>,
    max_size: u64,
    max_ram_size: usize,
    n: nat,
)
    requires
        sync_is_new(buffer, data, max_size, max_ram_size),
    ensures
        buffer.tape(disk).data == data,
        buffer.tape(disk).pos == 0,
        buffer.tape(disk).next(data.len()) == data,
        data.len() <= max_size && n <= max_size ==> !buffer.is_too_large(n),
        n > max_size ==> buffer.is_too_large(n),
{
    assert(buffer.tape(disk).next(data.len()) =~= data);
}

/// Contents that are taken out are all of them, and leave an empty buffer behind that
/// stands at its start. Only what is in memory can be taken out, and nothing else changes.
pub proof fn law_sync_gives_vec(
    before: JumboBytesMutSync,
    after: JumboBytesMutSync,
    disk: Tape,
    data: Option<Vec<u8>>,
)
    requires
        sync_gives_vec(before, after, data),
    ensures
        data is Some <==> before.is_ram(),
        data matches Some(bytes) ==> {
            &&& bytes@ == before.tape(disk).data
            &&& after.tape(disk).data.len() == 0
            &&& after.tape(disk).pos == 0
            &&& after.is_ram()
        },
        data is None ==> after.inner == before.inner,
        after.max_size == before.max_size,
        after.max_ram_size == before.max_ram_size,
{
}

/// The contents that are shown are all of them, just if they are in memory.
pub proof fn law_sync_shows(buffer: JumboBytesMutSync, disk: Tape, data: Option<&[u8]>)
    requires
        sync_shows(buffer, data),
    ensures
        data is Some <==> buffer.is_ram(),
        data matches Some(bytes) ==> bytes@ == buffer.tape(disk).data,
{
}

/// Whether `len` is the size of the data.
pub open spec fn sync_has_len(buffer: JumboBytesMutSync, len: u64) -> bool {
    len == buffer.spec_len()
}

/// The size that is told is that of the data, wherever it is.
pub proof fn law_sync_has_len(buffer: JumboBytesMutSync, disk: Tape, len: u64)
    requires
        sync_has_len(buffer, len),
        buffer.goes_with(disk),
    ensures
        buffer.inner is Some ==> len == buffer.tape(disk).data.len(),
        buffer.inner is None ==> len == 0,
{
}

} // verus!
