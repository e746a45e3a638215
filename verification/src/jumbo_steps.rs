//! Reading, writing and seeking in a [JumboBytesMut].
use vstd::prelude::*;
use crate::foreign::bytes_buf;
use crate::io_error;
use crate::io_error::{bad_seek_error, reuse_after_drop_error, IoError, IoErrorKind};
use crate::jumbo;
use crate::jumbo::{
    too_large_error, too_large_for_vec_error, unaddressable_error, FileStep, IntoVecStep,
    JumboBytesMut, JumboBytesMutInner, MoveStep, PositionStep, ReadOnlyStep, ReadStep,
    TransitionPoll, TransitionStep, WriteStep,
};
use crate::jumbo_read_only::{JumboBytes, JumboBytesInner};
use crate::tape::{read_at, write_at, SeekFrom};

verus! {

/// Where a seek leads while the contents move into a file: the position has to
/// be one that memory can have, and an offset from the cursor one that a
/// pointer can have.
pub open spec fn transition_seek(from: SeekFrom, pos: nat, len: nat) -> Option<u64> {
    let target = from.target(pos as int, len as int);
    let fits = match from {
        SeekFrom::Current(offset) => isize::MIN <= offset <= isize::MAX,
        _ => true,
    };
    if fits && 0 <= target <= usize::MAX {
        Some(target as u64)
    } else {
        None
    }
}

/// What a write of `buf` does to a buffer.
pub open spec fn buffer_writes(
    before: JumboBytesMut,
    after: JumboBytesMut,
    buf: Seq<u8>,
    step: WriteStep,
) -> bool {
    &&& after.max_size == before.max_size
    &&& after.max_ram_size == before.max_ram_size
    &&& before.is_transitioning() ==> step is AwaitTransition && after == before
    &&& !before.is_transitioning() && before.is_too_large(buf.len()) ==> {
        &&& step matches WriteStep::Failed(e)
        &&& e.says(IoErrorKind::FileTooLarge, jumbo::too_large_text(before.max_size))
        &&& after == before
    }
    &&& before.inner is None && !before.is_too_large(buf.len()) ==> {
        &&& step matches WriteStep::Failed(e)
        &&& e.says(IoErrorKind::BrokenPipe, io_error::reuse_after_drop_text())
        &&& after == before
    }
    &&& before.is_ram() && !before.is_too_large(buf.len()) ==> {
        let tape = before.ram();
        if tape.data.len() + buf.len() > before.max_ram_size {
            &&& step matches WriteStep::Spill { bytes, cursor }
            &&& bytes@ == tape.data
            &&& cursor == tape.pos
            &&& after == before.spilled()
        } else if tape.pos + buf.len() > usize::MAX {
            &&& step matches WriteStep::Failed(e)
            &&& e.says(IoErrorKind::InvalidInput, jumbo::unaddressable_text())
            &&& after == before
        } else {
            &&& step == WriteStep::Written(buf.len() as usize)
            &&& after.is_ram()
            &&& after.ram() == tape.written(buf)
        }
    }
    &&& before.is_file() && !before.is_too_large(buf.len()) ==> step is WriteToFile
        && after == before
}

/// What a read of at most `max` bytes does to a buffer.
pub open spec fn buffer_is_read(
    before: JumboBytesMut,
    after: JumboBytesMut,
    max: nat,
    step: ReadStep,
) -> bool {
    &&& after.max_size == before.max_size
    &&& after.max_ram_size == before.max_ram_size
    &&& before.is_transitioning() ==> step is AwaitTransition && after == before
    &&& before.inner is None ==> {
        &&& step matches ReadStep::Failed(e)
        &&& e.says(IoErrorKind::BrokenPipe, io_error::reuse_after_drop_text())
        &&& after == before
    }
    &&& before.is_ram() ==> {
        &&& step matches ReadStep::Ready(bytes)
        &&& bytes@ == before.ram().next(max)
        &&& after.is_ram()
        &&& after.ram() == before.ram().advanced(bytes@.len())
    }
    &&& before.is_file() ==> step is ReadFromFile && after == before
}

/// What a seek does to a buffer.
pub open spec fn buffer_seeks(
    before: JumboBytesMut,
    after: JumboBytesMut,
    position: SeekFrom,
    step: FileStep,
) -> bool {
    &&& after.max_size == before.max_size
    &&& after.max_ram_size == before.max_ram_size
    &&& before.inner is None ==> {
        &&& step matches FileStep::Failed(e)
        &&& e.says(IoErrorKind::BrokenPipe, io_error::reuse_after_drop_text())
        &&& after == before
    }
    &&& before.is_ram() ==> {
        let tape = before.ram();
        let target = position.target(tape.pos as int, tape.data.len() as int);
        if 0 <= target <= u64::MAX {
            &&& step is Ready
            &&& after.is_ram()
            &&& after.ram() == tape.at(target as nat)
        } else {
            &&& step matches FileStep::Failed(e)
            &&& e.says(IoErrorKind::InvalidInput, io_error::bad_seek_text())
            &&& after == before
        }
    }
    &&& before.inner matches Some(
        JumboBytesMutInner::Transitioning { original_cursor_pos, cursor_pos, file_size },
    ) ==> match transition_seek(position, before.cursor(), before.spec_len()) {
        Some(target) => {
            &&& step is Ready
            &&& after.inner == Some(
                JumboBytesMutInner::Transitioning {
                    original_cursor_pos,
                    cursor_pos: Some(target),
                    file_size,
                },
            )
        },
        None => {
            &&& step matches FileStep::Failed(e)
            &&& e.says(IoErrorKind::InvalidInput, io_error::bad_seek_text())
            &&& after == before
        },
    }
    &&& before.is_file() ==> step is OnFile && after == before
}

/// What working on the move into a file does to a buffer.
pub open spec fn transition_polled(
    before: JumboBytesMut,
    after: JumboBytesMut,
    poll: TransitionPoll,
    step: Result<TransitionStep, IoError>,
) -> bool {
    &&& after.max_size == before.max_size
    &&& after.max_ram_size == before.max_ram_size
    &&& !before.is_transitioning() ==> step == Ok::<_, IoError>(TransitionStep::Proceed)
        && after == before
    &&& before.inner matches Some(
        JumboBytesMutInner::Transitioning { original_cursor_pos, cursor_pos, file_size },
    ) ==> match poll {
        TransitionPoll::Pending => {
            &&& step == Ok::<_, IoError>(TransitionStep::Pending)
            &&& after == before
        },
        TransitionPoll::Failed(e) => {
            &&& step == Err::<TransitionStep, _>(e)
            &&& after.inner is None
        },
        TransitionPoll::Done => match cursor_pos {
            Some(pos) => {
                &&& step == Ok::<_, IoError>(TransitionStep::Seek(pos))
                &&& after.inner == Some(
                    JumboBytesMutInner::Transitioning {
                        original_cursor_pos: pos,
                        cursor_pos: None,
                        file_size,
                    },
                )
            },
            None => {
                &&& step == Ok::<_, IoError>(TransitionStep::Proceed)
                &&& after == before.file_at(original_cursor_pos)
            },
        },
    }
}

/// Where the last seek in a buffer has led.
pub open spec fn position_of(
    buffer: JumboBytesMut,
    step: PositionStep,
) -> bool {
    &&& buffer.is_transitioning() ==> step is AwaitTransition
    &&& buffer.inner is None ==> {
        &&& step matches PositionStep::Failed(e)
        &&& e.says(IoErrorKind::BrokenPipe, io_error::reuse_after_drop_text())
    }
    &&& buffer.is_ram() ==> step == PositionStep::Ready(buffer.cursor() as u64)
    &&& buffer.is_file() ==> step is OnFile
}

/// What has to be done for the data to be out of a buffer.
pub open spec fn flushes(
    buffer: JumboBytesMut,
    step: FileStep,
) -> bool {
    &&& buffer.is_transitioning() ==> step is AwaitTransition
    &&& buffer.inner is None ==> {
        &&& step matches FileStep::Failed(e)
        &&& e.says(IoErrorKind::BrokenPipe, io_error::reuse_after_drop_text())
    }
    &&& buffer.is_ram() ==> step is Ready
    &&& buffer.is_file() ==> step is OnFile
}

/// How the contents of a buffer become a vector of at most `max_size` bytes.
pub open spec fn becomes_vec(
    buffer: JumboBytesMut,
    max_size: u64,
    step: IntoVecStep,
) -> bool {
    &&& buffer.is_transitioning() ==> step is AwaitTransition
    &&& buffer.inner is None ==> {
        &&& step matches IntoVecStep::Failed(e)
        &&& e.says(IoErrorKind::BrokenPipe, io_error::reuse_after_drop_text())
    }
    &&& (buffer.is_ram() || buffer.is_file()) && buffer.spec_len() > max_size ==> {
        &&& step matches IntoVecStep::Failed(e)
        &&& e.says(IoErrorKind::FileTooLarge, jumbo::too_large_for_vec_text())
    }
    &&& buffer.is_ram() && buffer.spec_len() <= max_size ==> {
        &&& step matches IntoVecStep::Ready(bytes)
        &&& bytes@ == buffer.ram().data
    }
    &&& buffer.is_file() && buffer.spec_len() <= max_size ==> step is ReadFile
}

/// How the contents of a buffer become a file of a given name.
pub open spec fn becomes_file(
    buffer: JumboBytesMut,
    step: MoveStep,
) -> bool {
    &&& buffer.is_transitioning() ==> step is AwaitTransition
    &&& buffer.inner is None ==> {
        &&& step matches MoveStep::Failed(e)
        &&& e.says(IoErrorKind::BrokenPipe, io_error::reuse_after_drop_text())
    }
    &&& buffer.is_ram() ==> {
        &&& step matches MoveStep::WriteOut(bytes)
        &&& bytes@ == buffer.ram().data
    }
    &&& buffer.is_file() ==> step is Rename
}

/// How the move of a file goes on after the attempt to rename it.
pub open spec fn goes_on_after_rename(
    outcome: Result<(), IoError>,
    step: MoveStep,
) -> bool {
    &&& outcome is Ok ==> step is Moved
    &&& outcome matches Err(e) ==> if e.kind == IoErrorKind::CrossesDevices {
        step is CopyAndRemove
    } else {
        step == MoveStep::Failed(e)
    }
}

/// How a buffer becomes a read-only one.
pub open spec fn becomes_read_only(
    buffer: JumboBytesMut,
    step: ReadOnlyStep,
) -> bool {
    &&& buffer.is_transitioning() ==> step is AwaitTransition
    &&& buffer.inner is None ==> {
        &&& step matches ReadOnlyStep::Ready(bytes)
        &&& bytes.inner matches Some(JumboBytesInner::Error(e))
        &&& e.says(IoErrorKind::BrokenPipe, io_error::reuse_after_drop_text())
    }
    &&& buffer.is_ram() ==> {
        &&& step matches ReadOnlyStep::Ready(read_only)
        &&& read_only.inner matches Some(JumboBytesInner::Ram { bytes, cursor_pos })
        &&& bytes_buf::content(bytes) == buffer.ram().data
        &&& cursor_pos == 0
    }
    &&& buffer.is_file() ==> step == (ReadOnlyStep::Reopen { file_size: buffer.spec_len() as u64 })
}

impl JumboBytesMut {
    /// Whether a write of `n` bytes is too large.
    fn refuses(&self, n: usize) -> (refused: bool)
        requires
            !self.is_transitioning(),
        ensures
            refused == self.is_too_large(n as nat),
    {
        let (len, cursor, ram): (u64, u64, bool) = match &self.inner {
            Some(JumboBytesMutInner::Ram { bytes, cursor }) => (bytes.len() as u64, *cursor, true),
            Some(JumboBytesMutInner::File { cursor_pos, file_size }) => {
                (*file_size, *cursor_pos, false)
            },
            _ => (0, 0, false),
        };
        let n: u64 = n as u64;
        if len > self.max_size {
            return true;
        }
        if n == 0 && !ram {
            return false;
        }
        cursor > self.max_size || n > self.max_size - cursor
    }

    /// Writes at the cursor, or says what has to be done to write.
    ///
    /// A buffer in memory whose data and the write together take more memory
    /// than they may hands its contents out to be written to a file.
    pub fn poll_write(&mut self, buf: &[u8]) -> (step: WriteStep)
        ensures
            buffer_writes(*old(self), *final(self), buf@, step),
    {
        if let Some(JumboBytesMutInner::Transitioning { .. }) = &self.inner {
            return WriteStep::AwaitTransition;
        }
        if self.refuses(buf.len()) {
            return WriteStep::Failed(too_large_error(self.max_size));
        }
        let max_ram_size: usize = self.max_ram_size;
        let mut spilled: Vec<u8> = Vec::new();
        let at: u64;
        match &mut self.inner {
            Some(JumboBytesMutInner::Ram { bytes, cursor }) => {
                if bytes.len() > max_ram_size || buf.len() > max_ram_size - bytes.len() {
                    at = *cursor;
                    std::mem::swap(bytes, &mut spilled);
                } else if *cursor > usize::MAX as u64 || buf.len() > usize::MAX - *cursor as usize {
                    return WriteStep::Failed(unaddressable_error());
                } else {
                    write_at(bytes, *cursor as usize, buf);
                    *cursor = *cursor + buf.len() as u64;
                    return WriteStep::Written(buf.len());
                }
            },
            Some(_) => {
                return WriteStep::WriteToFile;
            },
            None => {
                return WriteStep::Failed(reuse_after_drop_error());
            },
        }
        self.inner = Some(
            JumboBytesMutInner::Transitioning {
                original_cursor_pos: at,
                cursor_pos: None,
                file_size: spilled.len() as u64,
            },
        );
        WriteStep::Spill { bytes: spilled, cursor: at }
    }

    /// Records that `written` bytes were written to the file.
    pub fn file_written(&mut self, written: usize)
        requires
            old(self).is_file(),
            old(self).cursor() + written <= u64::MAX,
        ensures
            *final(self) == old(self).after_file_write(written as nat),
    {
        if let Some(JumboBytesMutInner::File { cursor_pos, file_size }) = &mut self.inner {
            *cursor_pos = *cursor_pos + written as u64;
            if written > 0 && *file_size < *cursor_pos {
                *file_size = *cursor_pos;
            }
        }
    }

    /// Reads at most `max` bytes at the cursor, or says what has to be done to
    /// read.
    pub fn poll_read(&mut self, max: usize) -> (step: ReadStep)
        ensures
            buffer_is_read(*old(self), *final(self), max as nat, step),
    {
        match &mut self.inner {
            Some(JumboBytesMutInner::Ram { bytes, cursor }) => {
                let size: usize = bytes.len();
                let part = read_at(bytes.as_slice(), *cursor, max);
                assert(part@.len() > 0 ==> *cursor + part@.len() <= size);
                *cursor = *cursor + part.len() as u64;
                ReadStep::Ready(part)
            },
            Some(JumboBytesMutInner::Transitioning { .. }) => ReadStep::AwaitTransition,
            Some(JumboBytesMutInner::File { .. }) => ReadStep::ReadFromFile,
            None => ReadStep::Failed(reuse_after_drop_error()),
        }
    }

    /// Records that `count` bytes were read from the file.
    pub fn file_read(&mut self, count: usize)
        requires
            old(self).is_file(),
            old(self).cursor() + count <= u64::MAX,
        ensures
            *final(self) == old(self).after_file_read(count as nat),
    {
        if let Some(JumboBytesMutInner::File { cursor_pos, .. }) = &mut self.inner {
            *cursor_pos = *cursor_pos + count as u64;
        }
    }

    /// Moves the cursor, or says that the file's has to be moved.
    pub fn start_seek(&mut self, position: SeekFrom) -> (step: FileStep)
        ensures
            buffer_seeks(*old(self), *final(self), position, step),
    {
        match &mut self.inner {
            Some(JumboBytesMutInner::Ram { bytes, cursor }) => {
                match position.resolve(*cursor, bytes.len() as u64) {
                    Some(target) => {
                        *cursor = target;
                        FileStep::Ready
                    },
                    None => FileStep::Failed(bad_seek_error()),
                }
            },
            Some(
                JumboBytesMutInner::Transitioning { original_cursor_pos, cursor_pos, file_size },
            ) => {
                let current: u64 = match cursor_pos {
                    Some(pos) => *pos,
                    None => *original_cursor_pos,
                };
                if let SeekFrom::Current(offset) = position {
                    if isize::try_from(offset).is_err() {
                        return FileStep::Failed(bad_seek_error());
                    }
                }
                match position.resolve(current, *file_size) {
                    Some(target) => {
                        if target > usize::MAX as u64 {
                            FileStep::Failed(bad_seek_error())
                        } else {
                            *cursor_pos = Some(target);
                            FileStep::Ready
                        }
                    },
                    None => FileStep::Failed(bad_seek_error()),
                }
            },
            Some(JumboBytesMutInner::File { .. }) => FileStep::OnFile,
            None => FileStep::Failed(reuse_after_drop_error()),
        }
    }

    /// Where the last seek has led.
    pub fn poll_complete(&self) -> (step: PositionStep)
        ensures
            position_of(*self, step),
    {
        match &self.inner {
            Some(JumboBytesMutInner::Ram { cursor, .. }) => PositionStep::Ready(*cursor),
            Some(JumboBytesMutInner::Transitioning { .. }) => PositionStep::AwaitTransition,
            Some(JumboBytesMutInner::File { .. }) => PositionStep::OnFile,
            None => PositionStep::Failed(reuse_after_drop_error()),
        }
    }

    /// Records where the file stands after a seek.
    pub fn file_sought(&mut self, position: u64)
        requires
            old(self).is_file(),
        ensures
            *final(self) == old(self).file_at(position),
    {
        if let Some(JumboBytesMutInner::File { cursor_pos, .. }) = &mut self.inner {
            *cursor_pos = position;
        }
    }

    /// Whether anything has to be done for the data to be out of the buffer.
    pub fn poll_flush(&self) -> (step: FileStep)
        ensures
            flushes(*self, step),
    {
        match &self.inner {
            Some(JumboBytesMutInner::Ram { .. }) => FileStep::Ready,
            Some(JumboBytesMutInner::Transitioning { .. }) => FileStep::AwaitTransition,
            Some(JumboBytesMutInner::File { .. }) => FileStep::OnFile,
            None => FileStep::Failed(reuse_after_drop_error()),
        }
    }

    /// Whether anything has to be done to shut the stream down.
    pub fn poll_shutdown(&self) -> (step: FileStep)
        ensures
            flushes(*self, step),
    {
        self.poll_flush()
    }

    /// Works on the move into the file, if one is under way.
    ///
    /// When the file is written, a seek that came in the meantime is made up
    /// for. A move that failed leaves nothing behind.
    pub fn handle_poll_transition(&mut self, poll: TransitionPoll) -> (step: Result<
        TransitionStep,
        IoError,
    >)
        ensures
            transition_polled(*old(self), *final(self), poll, step),
    {
        let (original, wanted, size): (u64, Option<u64>, u64) = match &self.inner {
            Some(
                JumboBytesMutInner::Transitioning { original_cursor_pos, cursor_pos, file_size },
            ) => (*original_cursor_pos, *cursor_pos, *file_size),
            _ => {
                return Ok(TransitionStep::Proceed);
            },
        };
        match poll {
            TransitionPoll::Pending => Ok(TransitionStep::Pending),
            TransitionPoll::Failed(error) => {
                self.inner = None;
                Err(error)
            },
            TransitionPoll::Done => match wanted {
                Some(pos) => {
                    self.inner = Some(
                        JumboBytesMutInner::Transitioning {
                            original_cursor_pos: pos,
                            cursor_pos: None,
                            file_size: size,
                        },
                    );
                    Ok(TransitionStep::Seek(pos))
                },
                None => {
                    self.inner = Some(
                        JumboBytesMutInner::File { cursor_pos: original, file_size: size },
                    );
                    Ok(TransitionStep::Proceed)
                },
            },
        }
    }

    /// Turns the contents into a vector, unless they are larger than `max_size`.
    pub fn into_vec(self, max_size: u64) -> (step: IntoVecStep)
        ensures
            becomes_vec(self, max_size, step),
    {
        match self.inner {
            Some(JumboBytesMutInner::Ram { bytes, .. }) => {
                if bytes.len() as u64 > max_size {
                    IntoVecStep::Failed(too_large_for_vec_error())
                } else {
                    IntoVecStep::Ready(bytes)
                }
            },
            Some(JumboBytesMutInner::Transitioning { .. }) => IntoVecStep::AwaitTransition,
            Some(JumboBytesMutInner::File { file_size, .. }) => {
                if file_size > max_size {
                    IntoVecStep::Failed(too_large_for_vec_error())
                } else {
                    IntoVecStep::ReadFile
                }
            },
            None => IntoVecStep::Failed(reuse_after_drop_error()),
        }
    }

    /// Begins to turn the contents into a file of a given name.
    pub fn move_into_file(self) -> (step: MoveStep)
        ensures
            becomes_file(self, step),
    {
        match self.inner {
            Some(JumboBytesMutInner::Ram { bytes, .. }) => MoveStep::WriteOut(bytes),
            Some(JumboBytesMutInner::Transitioning { .. }) => MoveStep::AwaitTransition,
            Some(JumboBytesMutInner::File { .. }) => MoveStep::Rename,
            None => MoveStep::Failed(reuse_after_drop_error()),
        }
    }

    /// Goes on after the attempt to rename the temporary file: a file cannot be
    /// renamed into another file system, so it is copied there.
    pub fn renamed(outcome: Result<(), IoError>) -> (step: MoveStep)
        ensures
            goes_on_after_rename(outcome, step),
    {
        match outcome {
            Ok(()) => MoveStep::Moved,
            Err(error) => match error.kind {
                IoErrorKind::CrossesDevices => MoveStep::CopyAndRemove,
                _ => MoveStep::Failed(error),
            },
        }
    }

    /// Turns the buffer into a read-only one, its cursor at the start.
    pub fn into_read_only(self) -> (step: ReadOnlyStep)
        ensures
            becomes_read_only(self, step),
    {
        match self.inner {
            Some(JumboBytesMutInner::Ram { bytes, .. }) => ReadOnlyStep::Ready(
                JumboBytes {
                    inner: Some(
                        JumboBytesInner::Ram { bytes: bytes_buf::from_vec(bytes), cursor_pos: 0 },
                    ),
                },
            ),
            Some(JumboBytesMutInner::Transitioning { .. }) => ReadOnlyStep::AwaitTransition,
            Some(JumboBytesMutInner::File { file_size, .. }) => ReadOnlyStep::Reopen { file_size },
            None => ReadOnlyStep::Ready(
                JumboBytes { inner: Some(JumboBytesInner::Error(reuse_after_drop_error())) },
            ),
        }
    }

    /// Whether a temporary file has to be cleaned up when the buffer is dropped.
    pub fn needs_cleanup(&self) -> (needed: bool)
        ensures
            needed == self.is_file(),
    {
        match &self.inner {
            Some(JumboBytesMutInner::File { .. }) => true,
            _ => false,
        }
    }
}

} // verus!
