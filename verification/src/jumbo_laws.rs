//! What holds of a [JumboBytesMut] wherever its contents are: a user of the
//! stream cannot tell memory from a file.
use vstd::prelude::*;
use crate::io_error::{IoError, IoErrorKind};
use crate::jumbo::{
    FileStep, IntoVecStep, JumboBytesMut, JumboBytesMutInner, MoveStep, PositionStep, ReadOnlyStep,
    ReadStep, TransitionPoll, TransitionStep, WriteStep,
};
use crate::jumbo_steps;
use crate::tape;
use crate::tape::{SeekFrom, Tape};

verus! {

/// Moving into a file changes nothing that a user sees, if the file is made as
/// the step says.
pub proof fn law_spill_is_invisible(buffer: JumboBytesMut, any: Tape)
    requires
        buffer.is_ram(),
        buffer.spec_len() <= u64::MAX,
    ensures
        buffer.spilled().goes_with(buffer.ram()),
        buffer.spilled().tape(buffer.ram()) == buffer.tape(any),
        buffer.spilled().spec_len() == buffer.spec_len(),
{
}

/// The end of the move changes nothing that a user sees: where no seek came in
/// the meantime the file is taken as it stands, otherwise it is sought first.
pub proof fn law_transition_is_invisible(buffer: JumboBytesMut, disk: Tape)
    requires
        buffer.is_transitioning(),
        buffer.goes_with(disk),
    ensures
        buffer.inner matches Some(
            JumboBytesMutInner::Transitioning { original_cursor_pos, cursor_pos: None, .. },
        ) ==> buffer.file_at(original_cursor_pos).goes_with(disk) && buffer.file_at(
            original_cursor_pos,
        ).tape(disk) == buffer.tape(disk),
        buffer.inner matches Some(
            JumboBytesMutInner::Transitioning { cursor_pos: Some(pos), file_size, .. },
        ) ==> {
            let sought = buffer.holding(
                Some(
                    JumboBytesMutInner::Transitioning {
                        original_cursor_pos: pos,
                        cursor_pos: None,
                        file_size,
                    },
                ),
            );
            sought.goes_with(disk.at(pos as nat)) && sought.tape(disk.at(pos as nat))
                == buffer.tape(disk)
        },
{
}

/// A write to the file is a write to the stream, and the buffer keeps track of
/// the file's size and position.
pub proof fn law_file_write(buffer: JumboBytesMut, disk: Tape, buf: Seq<u8>)
    requires
        buffer.is_file(),
        buffer.goes_with(disk),
        buf.len() > 0,
        buffer.cursor() + buf.len() <= u64::MAX,
    ensures
        buffer.after_file_write(buf.len()).goes_with(disk.written(buf)),
        buffer.after_file_write(buf.len()).tape(disk.written(buf)) == buffer.tape(disk).written(
            buf,
        ),
        buffer.after_file_write(buf.len()).spec_len() == buffer.size_after_write(buf.len()),
{
    tape::law_written_len(disk, buf);
}

/// A read from the file is a read from the stream.
pub proof fn law_file_read(buffer: JumboBytesMut, disk: Tape, max: nat)
    requires
        buffer.is_file(),
        buffer.goes_with(disk),
    ensures
        disk.next(max) == buffer.tape(disk).next(max),
        buffer.cursor() + disk.next(max).len() <= u64::MAX,
        ({
            let n = disk.next(max).len();
            let after = buffer.after_file_read(n);
            after.goes_with(disk.advanced(n)) && after.tape(disk.advanced(n)) == buffer.tape(
                disk,
            ).advanced(n)
        }),
{
}

/// A seek in the file is a seek in the stream.
pub proof fn law_file_seek(buffer: JumboBytesMut, disk: Tape, pos: u64)
    requires
        buffer.is_file(),
        buffer.goes_with(disk),
    ensures
        buffer.file_at(pos).goes_with(disk.at(pos as nat)),
        buffer.file_at(pos).tape(disk.at(pos as nat)) == buffer.tape(disk).at(pos as nat),
{
}

/// Wherever the contents are: what was written is read back from its place, and
/// what was not written over is as it was.
pub proof fn law_written_is_read_back(buffer: JumboBytesMut, disk: Tape, buf: Seq<u8>, i: int)
    ensures
        ({
            let before = buffer.tape(disk);
            let after = before.written(buf);
            &&& after.at(before.pos).next(buf.len()) == buf
            &&& 0 <= i < before.data.len() && (i < before.pos || before.pos + buf.len() <= i)
                ==> after.data[i] == before.data[i]
        }),
{
    let before = buffer.tape(disk);
    tape::law_read_back(before, buf);
    if 0 <= i < before.data.len() && (i < before.pos || before.pos + buf.len() <= i) {
        tape::law_write_is_local(before, buf, i);
    }
}

/// No write that is let through makes the data larger than it may be.
pub proof fn law_size_is_bounded(buffer: JumboBytesMut, n: nat)
    requires
        !buffer.is_too_large(n),
    ensures
        buffer.size_after_write(n) <= buffer.max_size,
{
}

/// Once the data is larger than it may be, every write is refused.
pub proof fn law_oversized_is_refused(buffer: JumboBytesMut, n: nat)
    requires
        buffer.spec_len() > buffer.max_size,
    ensures
        buffer.is_too_large(n),
{
}

/// Whether the data is larger than it may be, or would be after `buf` was written at the
/// cursor. A file is not touched by a write of nothing.
pub open spec fn would_exceed(buffer: JumboBytesMut, disk: Tape, buf: Seq<u8>) -> bool {
    let seen = buffer.tape(disk);
    ||| seen.data.len() > buffer.max_size
    ||| (buf.len() > 0 || buffer.is_ram()) && seen.written(buf).data.len() > buffer.max_size
}

/// A write is refused as too large just if the data is larger than it may be, or would be
/// after the write, wherever the contents are. Any other write is taken, unless memory has
/// no such position: into the file, if the contents are there; into memory, as long as the
/// data and the write together take no more of it than they may; and otherwise once the
/// contents have moved. A write that is refused changes nothing.
pub proof fn law_write_to_stream(
    before: JumboBytesMut,
    after: JumboBytesMut,
    disk: Tape,
    buf: Seq<u8>,
    step: WriteStep,
)
    requires
        jumbo_steps::buffer_writes(before, after, buf, step),
        before.goes_with(disk),
        before.is_ram() || before.is_file(),
        before.spec_len() <= u64::MAX,
    ensures
        (step matches WriteStep::Failed(e) && e.kind == IoErrorKind::FileTooLarge)
            <==> would_exceed(before, disk, buf),
        step is Failed ==> after == before,
        step is Failed && !would_exceed(before, disk, buf) ==> before.is_ram()
            && before.tape(disk).pos + buf.len() > usize::MAX,
        before.is_file() && !would_exceed(before, disk, buf) ==> step is WriteToFile && after
            == before,
        step is WriteToFile ==> before.is_file(),
        step matches WriteStep::Written(n) ==> {
            &&& n == buf.len()
            &&& after.is_ram()
            &&& after.tape(disk) == before.tape(disk).written(buf)
            &&& before.tape(disk).data.len() + buf.len() <= before.max_ram_size
        },
        step matches WriteStep::Spill { bytes, cursor } ==> {
            let file = Tape { data: bytes@, pos: cursor as nat };
            &&& after.is_transitioning()
            &&& after.goes_with(file)
            &&& after.tape(file) == before.tape(disk)
            &&& before.tape(disk).data.len() + buf.len() > before.max_ram_size
        },
        !(step is AwaitTransition),
        after.max_size == before.max_size,
        after.max_ram_size == before.max_ram_size,
{
    let seen = before.tape(disk);
    tape::law_written_len(seen, buf);
}

/// Data that is written from its end on stays in memory only as long as it takes no more
/// of it than it may.
pub proof fn law_memory_is_bounded(
    before: JumboBytesMut,
    after: JumboBytesMut,
    buf: Seq<u8>,
    step: WriteStep,
)
    requires
        jumbo_steps::buffer_writes(before, after, buf, step),
        before.is_ram(),
        before.ram().pos <= before.ram().data.len(),
        step is Written,
    ensures
        after.ram().data.len() <= after.max_ram_size,
{
    tape::law_written_len(before.ram(), buf);
}

/// What a buffer hands out is what lies at the cursor of the stream, and the cursor goes on
/// behind it. A file is asked, and nothing is read while the contents move.
pub proof fn law_read_from_stream(
    before: JumboBytesMut,
    after: JumboBytesMut,
    disk: Tape,
    max: nat,
    step: ReadStep,
)
    requires
        jumbo_steps::buffer_is_read(before, after, max, step),
    ensures
        before.is_ram() <==> step is Ready,
        before.is_file() <==> step is ReadFromFile,
        before.is_transitioning() <==> step is AwaitTransition,
        before.inner is None <==> step is Failed,
        step matches ReadStep::Ready(bytes) ==> {
            &&& bytes@ == before.tape(disk).next(max)
            &&& after.tape(disk) == before.tape(disk).advanced(bytes@.len())
        },
        !(step is Ready) ==> after == before,
{
}

/// A seek puts the cursor of the stream where it was asked to, also while the contents
/// move, and touches nothing else. It fails if there is no such position.
pub proof fn law_seek_in_stream(
    before: JumboBytesMut,
    after: JumboBytesMut,
    disk: Tape,
    position: SeekFrom,
    step: FileStep,
)
    requires
        jumbo_steps::buffer_seeks(before, after, position, step),
        before.goes_with(disk),
    ensures
        ({
            let seen = before.tape(disk);
            let target = position.target(seen.pos as int, seen.data.len() as int);
            &&& step is Ready ==> {
                &&& target >= 0
                &&& after.tape(disk) == seen.at(target as nat)
                &&& after.goes_with(disk)
            }
            &&& before.is_ram() && 0 <= target <= u64::MAX ==> step is Ready
            &&& before.is_transitioning() && 0 <= target <= usize::MAX && !(
            position is Current) ==> step is Ready
            &&& before.is_transitioning() && 0 <= target <= usize::MAX && (
            position matches SeekFrom::Current(offset) && isize::MIN <= offset <= isize::MAX)
                ==> step is Ready
            &&& before.inner is Some && target < 0 && !before.is_file() ==> step is Failed
        }),
        before.is_file() <==> step is OnFile,
        !(step is Ready) ==> after == before,
{
}

/// Working on the move into a file changes nothing that a user sees: once the file is
/// written the contents are in it, after a seek that came in the meantime was made up
/// for. A move that failed is told of, and leaves nothing behind.
pub proof fn law_transition_is_worked_on(
    before: JumboBytesMut,
    after: JumboBytesMut,
    disk: Tape,
    poll: TransitionPoll,
    step: Result<TransitionStep, IoError>,
)
    requires
        jumbo_steps::transition_polled(before, after, poll, step),
        before.goes_with(disk),
    ensures
        !before.is_transitioning() ==> after == before && (step matches Ok(next)
            && next is Proceed),
        before.is_transitioning() ==> match poll {
            TransitionPoll::Pending => after == before && (step matches Ok(next)
                && next is Pending),
            TransitionPoll::Failed(e) => after.inner is None && step == Err::<TransitionStep, _>(e),
            TransitionPoll::Done => match step {
                Ok(TransitionStep::Proceed) => {
                    &&& after.is_file()
                    &&& after.goes_with(disk)
                    &&& after.tape(disk) == before.tape(disk)
                },
                Ok(TransitionStep::Seek(pos)) => {
                    &&& after.is_transitioning()
                    &&& after.goes_with(disk.at(pos as nat))
                    &&& after.tape(disk.at(pos as nat)) == before.tape(disk)
                    &&& pos == before.tape(disk).pos
                },
                _ => false,
            },
        },
{
}

/// A vector of the contents holds all of them, and is refused just if they are more than it
/// may hold: a file's are then read as a whole.
pub proof fn law_vec_holds_everything(
    buffer: JumboBytesMut,
    disk: Tape,
    max_size: u64,
    step: IntoVecStep,
)
    requires
        jumbo_steps::becomes_vec(buffer, max_size, step),
        buffer.goes_with(disk),
    ensures
        buffer.is_ram() || buffer.is_file() ==> (buffer.tape(disk).data.len() > max_size <==> (
        step matches IntoVecStep::Failed(e) && e.kind == IoErrorKind::FileTooLarge)),
        buffer.is_ram() && buffer.tape(disk).data.len() <= max_size ==> step is Ready,
        buffer.is_file() && buffer.tape(disk).data.len() <= max_size ==> step is ReadFile,
        step matches IntoVecStep::Ready(bytes) ==> bytes@ == buffer.tape(disk).data,
        buffer.is_transitioning() <==> step is AwaitTransition,
{
}

/// What becomes a file is all the data, from its start: what is in memory is written out,
/// and a file is renamed, or copied where it cannot be renamed because it would have to
/// change devices. Any other failure is told of.
pub proof fn law_file_holds_everything(
    buffer: JumboBytesMut,
    disk: Tape,
    step: MoveStep,
    outcome: Result<(), IoError>,
    next: MoveStep,
)
    requires
        jumbo_steps::becomes_file(buffer, step),
        jumbo_steps::goes_on_after_rename(outcome, next),
    ensures
        step matches MoveStep::WriteOut(bytes) ==> bytes@ == buffer.tape(disk).data,
        buffer.is_ram() <==> step is WriteOut,
        buffer.is_file() <==> step is Rename,
        buffer.is_transitioning() <==> step is AwaitTransition,
        next is Moved <==> outcome is Ok,
        next is CopyAndRemove <==> (outcome matches Err(e) && e.kind
            == IoErrorKind::CrossesDevices),
        next matches MoveStep::Failed(e) ==> outcome == Err::<(), _>(e),
        next is Moved || next is CopyAndRemove || next is Failed,
{
}

/// A read-only form of a buffer holds the same data, and stands at its start.
pub proof fn law_read_only_holds_everything(buffer: JumboBytesMut, disk: Tape, step: ReadOnlyStep)
    requires
        jumbo_steps::becomes_read_only(buffer, step),
        buffer.goes_with(disk),
    ensures
        buffer.is_ram() ==> {
            &&& step matches ReadOnlyStep::Ready(read_only)
            &&& read_only.is_ram()
            &&& read_only.tape(disk) == buffer.tape(disk).at(0)
        },
        buffer.is_file() ==> {
            &&& step matches ReadOnlyStep::Reopen { file_size }
            &&& file_size == buffer.tape(disk).data.len()
        },
        buffer.is_transitioning() <==> step is AwaitTransition,
{
}

/// A buffer tells where the cursor of its stream stands, and has nothing to flush while it
/// is in memory.
pub proof fn law_position_is_told(
    buffer: JumboBytesMut,
    disk: Tape,
    step: PositionStep,
    flushed: FileStep,
)
    requires
        jumbo_steps::position_of(buffer, step),
        jumbo_steps::flushes(buffer, flushed),
        buffer.is_ram() ==> buffer.cursor() <= u64::MAX,
    ensures
        step matches PositionStep::Ready(pos) ==> pos == buffer.tape(disk).pos,
        buffer.is_ram() <==> step is Ready,
        buffer.is_file() <==> step is OnFile,
        buffer.is_ram() <==> flushed is Ready,
        buffer.is_file() <==> flushed is OnFile,
        buffer.is_transitioning() <==> flushed is AwaitTransition,
{
}

} // verus!
