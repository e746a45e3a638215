//! Compressing a blob into a frame while it is read.
use vstd::prelude::*;
use vstd::bytes::*;
use crate::blob_codec;
use crate::blob_codec::{stream_prefix, LZ4_STREAM_MARKER};
use crate::foreign::lz4;
use crate::frame;
use crate::frame::{AsyncFrameEncoder, FlushStep};
use crate::helper_pipe::HELPER_PIPE_BUFFER_SIZE;

verus! {

/// The number of bytes that are read at a time to be compressed.
pub const COPY_CHUNK_LEN: usize = 8192;

/// How far a blob is written.
#[derive(Clone, Copy, Debug, PartialEq, Eq, Structural)]
pub enum WriterStage {
    /// Data is read and compressed.
    Copying,
    /// All data was read; the end of the frame is written.
    Closing,
    /// Only the marker is left.
    Marking,
}

/// A blob that is being compressed into a frame.
pub struct BlobWriter {
    encoder: AsyncFrameEncoder,
    // What goes out before the encoder's bytes: the prefix, or the marker.
    queue: Vec<u8>,
    stage: WriterStage,
    len: u64,
    // What went out.
    out: Ghost<Seq<u8>>,
}

/// What has to be done next to write a blob.
#[derive(Debug)]
pub enum WriterStep {
    /// Write these bytes to the new buffer, and report how many it took.
    Write(Vec<u8>),
    /// Read at most so many bytes of the data, and hand them over.
    Read(usize),
    /// Rewind the new buffer: it holds what is to be stored.
    Finished,
}

/// What a writer asks for, and how it goes on.
pub open spec fn writer_steps(
    before: BlobWriter,
    after: BlobWriter,
    step: WriterStep,
) -> bool {
    &&& after.well_formed()
    &&& after.declared_len() == before.declared_len()
    &&& after.data() == before.data()
    &&& after.written_out() == before.written_out()
    &&& after.is_complete() == before.is_complete()
    &&& match step {
        WriterStep::Write(bytes) => bytes@.len() > 0 && bytes@ == after.next_out(),
        WriterStep::Read(len) => {
            &&& len == COPY_CHUNK_LEN
            &&& !after.is_complete()
            &&& after.next_out().len() < HELPER_PIPE_BUFFER_SIZE
            &&& after.written_out().len() >= 8
        },
        WriterStep::Finished => {
            &&& after.is_complete()
            &&& after.written_out() == (spec_u64_to_le_bytes(
                after.declared_len(),
            ) + after.frame()).push(LZ4_STREAM_MARKER)
            &&& lz4::unframe(after.frame()) == Some(after.data())
            &&& after.data().len() == after.declared_len()
                ==> blob_codec::is_stored(after.written_out(), after.data())
        },
    }
}

/// What becomes of a writer when the new buffer took `len` bytes.
pub open spec fn writer_wrote(
    before: BlobWriter,
    after: BlobWriter,
    len: nat,
) -> bool {
    &&& after.well_formed()
    &&& after.declared_len() == before.declared_len()
    &&& after.data() == before.data()
    &&& after.is_complete() == before.is_complete()
    &&& after.written_out() == before.written_out() + before.next_out().take(
        len as int,
    )
}

/// What becomes of a writer when bytes of the data were read.
pub open spec fn writer_reads(
    before: BlobWriter,
    after: BlobWriter,
    bytes: Seq<u8>,
) -> bool {
    &&& after.well_formed()
    &&& after.declared_len() == before.declared_len()
    &&& after.written_out() == before.written_out()
    &&& after.data() == before.data() + bytes
    &&& after.is_complete() == (bytes.len() == 0)
}

impl BlobWriter {
    /// What was written to the new buffer.
    pub closed spec fn written_out(self) -> Seq<u8> {
        self.out@
    }

    /// The data that was read.
    pub closed spec fn data(self) -> Seq<u8> {
        self.encoder.data()
    }

    /// The compressed bytes of the data that were written.
    pub closed spec fn frame(self) -> Seq<u8> {
        self.encoder.delivered()
    }

    /// The length that the data is said to have.
    pub closed spec fn declared_len(self) -> u64 {
        self.len
    }

    /// Whether all data was read.
    pub closed spec fn is_complete(self) -> bool {
        !(self.stage is Copying)
    }

    /// The bytes that are to be written next.
    pub closed spec fn next_out(self) -> Seq<u8> {
        if self.queue@.len() > 0 {
            self.queue@
        } else {
            self.encoder.waiting()
        }
    }

    /// Everything that goes out is in its place.
    pub closed spec fn well_formed(self) -> bool {
        let prefix = spec_u64_to_le_bytes(self.len);
        &&& self.encoder.well_formed()
        &&& self.encoder.is_shut_down() == self.is_complete()
        &&& match self.stage {
            WriterStage::Marking => {
                &&& self.encoder.waiting().len() == 0
                &&& self.out@ + self.queue@ == (prefix + self.encoder.delivered()).push(
                    LZ4_STREAM_MARKER,
                )
            },
            _ => {
                &&& self.out@ + self.queue@ == prefix + self.encoder.delivered()
                &&& self.queue@.len() > 0 ==> self.encoder.delivered().len() == 0
            },
        }
    }

    /// Begins to write data of the given length.
    pub fn new(len: u64) -> (writer: BlobWriter)
        ensures
            writer_begins(writer, len),
    {
        let writer = BlobWriter {
            encoder: AsyncFrameEncoder::new(),
            queue: stream_prefix(len),
            stage: WriterStage::Copying,
            len,
            out: Ghost(Seq::empty()),
        };
        assert(writer.out@ + writer.queue@ =~= spec_u64_to_le_bytes(len)
            + writer.encoder.delivered());
        writer
    }

    /// What has to be done next. Where that is nothing more, the new buffer holds the
    /// length that was given, a frame of the data, and the marker: the data as it is
    /// stored, if its length is the one that was given.
    pub fn step(&mut self) -> (step: WriterStep)
        requires
            old(self).well_formed(),
        ensures
            writer_steps(*old(self), *final(self), step),
    {
        if self.queue.len() > 0 {
            return WriterStep::Write(self.queued());
        }
        proof {
            lemma_auto_spec_u64_to_from_le_bytes();
            assert(spec_u64_to_le_bytes(self.len).len() == 8);
            assert(self.out@ + self.queue@ =~= self.out@);
        }
        match self.stage {
            WriterStage::Copying => {
                match self.encoder.poll_flush_destination() {
                    FlushStep::Write(bytes) => {
                        if bytes.len() >= HELPER_PIPE_BUFFER_SIZE {
                            WriterStep::Write(bytes)
                        } else {
                            WriterStep::Read(COPY_CHUNK_LEN)
                        }
                    },
                    FlushStep::Flush => WriterStep::Read(COPY_CHUNK_LEN),
                }
            },
            WriterStage::Closing => {
                match self.encoder.poll_flush_destination() {
                    FlushStep::Write(bytes) => WriterStep::Write(bytes),
                    FlushStep::Flush => {
                        self.queue.push(LZ4_STREAM_MARKER);
                        self.stage = WriterStage::Marking;
                        assert(self.out@ + self.queue@ =~= (spec_u64_to_le_bytes(self.len)
                            + self.encoder.delivered()).push(LZ4_STREAM_MARKER));
                        WriterStep::Write(self.queued())
                    },
                }
            },
            WriterStage::Marking => {
                proof {
                    frame::law_encoded_decodes(self.encoder);
                    if self.data().len() == self.len {
                        blob_codec::law_encoded_stream_is_stored(self.encoder, self.out@);
                    }
                }
                WriterStep::Finished
            },
        }
    }

    /// A copy of the queue.
    fn queued(&self) -> (bytes: Vec<u8>)
        ensures
            bytes@ == self.queue@,
    {
        let bytes = self.queue.clone();
        assert(bytes@ =~= self.queue@);
        bytes
    }

    /// Records that the new buffer took the first `len` of the bytes that were to
    /// be written.
    pub fn wrote(&mut self, len: usize)
        requires
            old(self).well_formed(),
            len <= old(self).next_out().len(),
        ensures
            writer_wrote(*old(self), *final(self), len as nat),
    {
        let ghost sent = self.next_out().take(len as int);
        if self.queue.len() > 0 {
            let rest = self.queue.split_off(len);
            self.queue = rest;
            self.out = Ghost(self.out@ + sent);
            assert(self.out@ + self.queue@ =~= old(self).out@ + old(self).queue@);
        } else {
            self.encoder.destination_took(len);
            self.out = Ghost(self.out@ + sent);
            proof {
                assert(old(self).out@ + old(self).queue@ =~= old(self).out@);
                assert(self.out@ + self.queue@ =~= self.out@);
                if self.stage is Marking {
                    assert(sent =~= Seq::<u8>::empty());
                    assert(self.out@ =~= old(self).out@);
                    assert(self.encoder.delivered() =~= old(self).encoder.delivered());
                } else {
                    assert(self.out@ =~= spec_u64_to_le_bytes(self.len)
                        + self.encoder.delivered());
                }
            }
        }
    }

    /// Takes in what was read of the data; where that is nothing, all was read.
    pub fn source_read(&mut self, bytes: &[u8])
        requires
            old(self).well_formed(),
            !old(self).is_complete(),
            old(self).next_out().len() < HELPER_PIPE_BUFFER_SIZE,
            old(self).written_out().len() >= 8,
        ensures
            writer_reads(*old(self), *final(self), bytes@),
    {
        proof {
            lemma_auto_spec_u64_to_from_le_bytes();
            assert(spec_u64_to_le_bytes(self.len).len() == 8);
            assert((self.out@ + self.queue@).len() == 8 + self.encoder.delivered().len());
            assert(self.queue@.len() == 0);
        }
        if bytes.len() == 0 {
            self.encoder.poll_shutdown();
            self.stage = WriterStage::Closing;
            assert(old(self).data() + bytes@ =~= old(self).data());
        } else {
            let _ = self.encoder.poll_write(bytes);
        }
    }
}

/// What happens while a blob is written.
pub enum WriterMove {
    /// So many of the bytes that were to be written next were taken.
    Wrote(nat),
    /// These bytes of the data were read; none if there are no more.
    Read(Seq<u8>),
}

/// Whether a writer goes through these states: each move answers a step, and `offered` are
/// the states between the two.
pub open spec fn writer_run(
    states: Seq<BlobWriter>,
    steps: Seq<WriterStep>,
    offered: Seq<BlobWriter>,
    moves: Seq<WriterMove>,
) -> bool {
    &&& states.len() == moves.len() + 1
    &&& steps.len() == moves.len()
    &&& offered.len() == moves.len()
    &&& forall|k: int|
        0 <= k < moves.len() ==> {
            &&& writer_steps(states[k], offered[k], steps[k])
            &&& match #[trigger] moves[k] {
                WriterMove::Wrote(len) => {
                    &&& steps[k] matches WriterStep::Write(bytes)
                    &&& len <= bytes@.len()
                    &&& writer_wrote(offered[k], states[k + 1], len)
                },
                WriterMove::Read(bytes) => {
                    &&& steps[k] is Read
                    &&& writer_reads(offered[k], states[k + 1], bytes)
                },
            }
        }
}

/// The bytes that a move took from a step that offers some.
pub open spec fn taken_of(step: WriterStep, happened: WriterMove) -> Seq<u8> {
    match (step, happened) {
        (WriterStep::Write(bytes), WriterMove::Wrote(len)) => bytes@.take(len as int),
        _ => Seq::empty(),
    }
}

/// All bytes that the new buffer was given, in order.
pub open spec fn given_out(steps: Seq<WriterStep>, moves: Seq<WriterMove>) -> Seq<u8>
    decreases moves.len(),
{
    if moves.len() == 0 {
        Seq::empty()
    } else {
        given_out(steps.drop_last(), moves.drop_last()) + taken_of(steps.last(), moves.last())
    }
}

/// All data that was read, in order.
pub open spec fn read_in(moves: Seq<WriterMove>) -> Seq<u8>
    decreases moves.len(),
{
    if moves.len() == 0 {
        Seq::empty()
    } else {
        read_in(moves.drop_last()) + match moves.last() {
            WriterMove::Read(bytes) => bytes,
            _ => Seq::empty(),
        }
    }
}

/// A writer that has finished has given out just what is stored for the data it was given:
/// the length that was declared, a frame that decodes to the data, and the marker. Whatever
/// the sizes of the pieces, no byte is lost or repeated on either side.
pub proof fn law_written_blob_is_stored(
    len: u64,
    states: Seq<BlobWriter>,
    steps: Seq<WriterStep>,
    offered: Seq<BlobWriter>,
    moves: Seq<WriterMove>,
    last: BlobWriter,
)
    requires
        writer_run(states, steps, offered, moves),
        writer_begins(states[0], len),
        writer_steps(states.last(), last, WriterStep::Finished),
    ensures
        ({
            let raw = given_out(steps, moves);
            let frame = raw.subrange(8, raw.len() - 1);
            &&& raw.len() >= 9
            &&& raw.take(8) == spec_u64_to_le_bytes(len)
            &&& raw.last() == 0xa3
            &&& lz4::unframe(frame) == Some(read_in(moves))
            &&& read_in(moves).len() == len ==> blob_codec::is_stored(raw, read_in(moves))
        }),
{
    lemma_writer_run(states, steps, offered, moves);
    lemma_auto_spec_u64_to_from_le_bytes();
    let raw = given_out(steps, moves);
    let prefix = spec_u64_to_le_bytes(len);
    assert(prefix.len() == 8);
    assert(states[0].written_out() + raw =~= raw);
    assert(states[0].data() + read_in(moves) =~= read_in(moves));
    assert(raw.subrange(8, raw.len() - 1) =~= last.frame());
    assert(raw.take(8) =~= prefix);
}

/// What was given out and read adds up.
proof fn lemma_writer_run(
    states: Seq<BlobWriter>,
    steps: Seq<WriterStep>,
    offered: Seq<BlobWriter>,
    moves: Seq<WriterMove>,
)
    requires
        writer_run(states, steps, offered, moves),
    ensures
        states.last().declared_len() == states[0].declared_len(),
        states.last().written_out() == states[0].written_out() + given_out(steps, moves),
        states.last().data() == states[0].data() + read_in(moves),
    decreases moves.len(),
{
    if moves.len() == 0 {
        assert(states[0].written_out() + given_out(steps, moves) =~= states[0].written_out());
        assert(states[0].data() + read_in(moves) =~= states[0].data());
    } else {
        let n = moves.len() - 1;
        let fewer = moves.drop_last();
        let earlier = states.drop_last();
        assert forall|k: int| 0 <= k < n implies fewer[k] == moves[k] by {}
        assert(writer_run(earlier, steps.drop_last(), offered.drop_last(), fewer)) by {
            assert forall|k: int| 0 <= k < fewer.len() implies {
                &&& writer_steps(earlier[k], offered.drop_last()[k], steps.drop_last()[k])
                &&& match #[trigger] fewer[k] {
                    WriterMove::Wrote(len) => {
                        &&& steps.drop_last()[k] matches WriterStep::Write(bytes)
                        &&& len <= bytes@.len()
                        &&& writer_wrote(offered.drop_last()[k], earlier[k + 1], len)
                    },
                    WriterMove::Read(bytes) => {
                        &&& steps.drop_last()[k] is Read
                        &&& writer_reads(offered.drop_last()[k], earlier[k + 1], bytes)
                    },
                }
            } by {
                assert(moves[k] == fewer[k]);
            }
        }
        lemma_writer_run(earlier, steps.drop_last(), offered.drop_last(), fewer);
        assert(earlier.last() == states[n]);
        assert(moves[n] == moves.last());
        assert(states.last().written_out() =~= states[0].written_out() + given_out(steps, moves));
        assert(states.last().data() =~= states[0].data() + read_in(moves));
    }
}

/// Whether nothing was written yet of data of the given length.
pub open spec fn writer_begins(writer: BlobWriter, len: u64) -> bool {
    &&& writer.well_formed()
    &&& writer.declared_len() == len
    &&& writer.written_out() == Seq::<u8>::empty()
    &&& writer.data() == Seq::<u8>::empty()
    &&& !writer.is_complete()
}

/// A writer always goes on: it offers bytes as long as some are to be written, reads on
/// only where there is data left, and asks for some when it does; once all was read and
/// nothing is left to be written, it has finished.
pub proof fn law_writer_goes_on(before: BlobWriter, after: BlobWriter, step: WriterStep)
    requires
        writer_steps(before, after, step),
    ensures
        step matches WriterStep::Read(len) ==> len > 0 && !after.is_complete(),
        step matches WriterStep::Write(bytes) ==> bytes@.len() > 0,
        before.is_complete() ==> !(step is Read),
        step is Finished ==> before.is_complete(),
        after.data() == before.data(),
        after.written_out() == before.written_out(),
{
}

} // verus!
