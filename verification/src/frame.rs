//! Streams of LZ4 frames that are compressed and decompressed piece by piece.
use vstd::prelude::*;
use crate::foreign::lz4;
use crate::foreign::lz4::{
    frame_finish, frame_pipe, frame_read, frame_reader, frame_write, frame_writer, FrameRead,
    FrameReader, FrameWriter,
};
use crate::foreign::std_io;
use crate::helper_pipe::{AsyncHelperPipe, HELPER_PIPE_BUFFER_SIZE};
use crate::io_error::{IoError, IoErrorKind};
use crate::tape;

verus! {

/// The most that is asked of a decoder at once: no block holds more data.
pub const FRAME_ROOM: usize = 8388608;

/// A decoder that is given compressed bytes as they come.
///
/// It hands out the data of a frame, stops where that ends or fails, and goes on
/// behind that place if it is read again.
pub struct AsyncFrameDecoder {
    decoder: FrameReader,
    within: bool,
    eof: bool,
    // Data that a read without room has brought.
    peeked: Option<u8>,
    // All compressed bytes, and how many of them lie behind the last stop.
    source: Ghost<Seq<u8>>,
    passed: Ghost<nat>,
    // All data, and how much of it was out at the last stop.
    drawn: Ghost<Seq<u8>>,
    marked: Ghost<nat>,
}

/// What becomes of a read.
#[derive(Debug)]
pub enum DecodeStep {
    /// The next data; none if there is no more.
    Ready(Vec<u8>),
    /// Read at most so many bytes from the source, and hand them over.
    NeedInput(usize),
    Failed(IoError),
}

/// What a read comes to, without its error.
pub enum Outcome {
    Data(Seq<u8>),
    Wait,
    Failure,
}

impl DecodeStep {
    /// What the read comes to.
    pub open spec fn outcome(self) -> Outcome {
        match self {
            DecodeStep::Ready(data) => Outcome::Data(data@),
            DecodeStep::NeedInput(_) => Outcome::Wait,
            DecodeStep::Failed(_) => Outcome::Failure,
        }
    }
}

impl AsyncFrameDecoder {
    /// The compressed bytes that came from the source.
    pub closed spec fn source(self) -> Seq<u8> {
        self.source@
    }

    /// How many of the compressed bytes lie behind the last stop.
    pub closed spec fn passed(self) -> nat {
        self.passed@
    }

    /// Those of the compressed bytes behind the last stop that belong to a frame which
    /// goes on.
    pub closed spec fn past(self) -> Seq<u8> {
        lz4::left(self.decoder)
    }

    /// Whether the source has no more bytes.
    pub closed spec fn at_eof(self) -> bool {
        self.eof
    }

    /// The data that was handed out.
    pub closed spec fn drawn(self) -> Seq<u8> {
        self.drawn@
    }

    /// How much of the data was out at the last stop.
    pub closed spec fn marked(self) -> nat {
        self.marked@
    }

    /// The compressed bytes since the last stop.
    pub open spec fn rest(self) -> Seq<u8> {
        self.source().skip(self.passed() as int)
    }

    /// The data since the last stop.
    pub open spec fn out(self) -> Seq<u8> {
        self.drawn().skip(self.marked() as int)
    }

    /// Whether it has not stopped yet.
    pub open spec fn is_first(self) -> bool {
        self.passed() == 0 && self.marked() == 0 && self.past().len() == 0
    }

    /// Whether `bytes` may be all that the source has behind the last stop.
    pub open spec fn may_be_rest(self, bytes: Seq<u8>) -> bool {
        if self.at_eof() {
            bytes == self.rest()
        } else {
            self.rest().is_prefix_of(bytes)
        }
    }

    /// Whether `out` is a beginning of what comes of these bytes.
    pub open spec fn keeps_to(self, out: Seq<u8>, bytes: Seq<u8>) -> bool {
        &&& out.is_prefix_of(lz4::yielded(self.past(), bytes))
        &&& self.past().len() == 0 && lz4::unframe(bytes) is Some ==> out.is_prefix_of(
            lz4::unframe(bytes)->0,
        )
    }

    /// The data that is out, or was brought already.
    closed spec fn brought(self) -> Seq<u8> {
        match self.peeked {
            Some(byte) => self.out().push(byte),
            None => self.out(),
        }
    }

    /// The decoder is of use and works on what lies behind the last stop.
    pub closed spec fn well_formed(self) -> bool {
        &&& self.eof == !lz4::pipe_open(self.decoder)
        &&& self.within == lz4::in_frame(self.decoder)
        &&& lz4::pipe_read(self.decoder) == 0
        &&& !lz4::spent(self.decoder)
        &&& !lz4::broken_off(self.decoder)
        &&& !self.within ==> lz4::left(self.decoder).len() == 0 && lz4::settled(self.decoder).len()
            == 0 && lz4::drawn(self.decoder).len() == 0
        &&& lz4::settled(self.decoder).len() == 0 ==> lz4::drawn(self.decoder).len() == 0
        &&& self.passed() <= self.source().len()
        &&& self.marked() <= self.drawn().len()
        &&& lz4::fed(self.decoder) == self.rest()
        &&& lz4::drawn(self.decoder) == self.brought()
        &&& forall|bytes: Seq<u8>|
            #![trigger self.may_be_rest(bytes)]
            self.may_be_rest(bytes) ==> self.keeps_to(self.brought(), bytes)
    }

    /// A decoder for a source that nothing was read from.
    pub fn new() -> (decoder: AsyncFrameDecoder)
        ensures
            decoder.well_formed(),
            decoder.is_first(),
            decoder.source() == Seq::<u8>::empty(),
            !decoder.at_eof(),
            decoder.drawn() == Seq::<u8>::empty(),
    {
        let decoder = AsyncFrameDecoder {
            decoder: frame_reader(AsyncHelperPipe::new()),
            within: false,
            eof: false,
            peeked: None,
            source: Ghost(Seq::empty()),
            passed: Ghost(0),
            drawn: Ghost(Seq::empty()),
            marked: Ghost(0),
        };
        assert(lz4::fed(decoder.decoder) =~= decoder.rest());
        assert(decoder.out() =~= Seq::<u8>::empty());
        decoder
    }
}

/// Whether both are in the same place: no stop lies between them.
pub open spec fn same_place(before: AsyncFrameDecoder, after: AsyncFrameDecoder) -> bool {
    &&& after.passed() == before.passed()
    &&& after.marked() == before.marked()
    &&& after.past() == before.past()
}

/// Whether one stop lies between them, at the end of the data of `after`: that is all
/// that the bytes give, and what was taken of them lies behind.
pub open spec fn stopped(before: AsyncFrameDecoder, after: AsyncFrameDecoder) -> bool {
    let taken = before.rest().take(lz4::stop_at(before.past(), before.rest()) as int);
    &&& after.drawn().skip(before.marked() as int) == lz4::yielded(before.past(), before.rest())
    &&& lz4::stop_at(before.past(), before.rest()) <= before.rest().len()
    &&& after.passed() == before.passed() + taken.len()
    &&& after.marked() == after.drawn().len()
    &&& after.past() == if lz4::goes_on(before.past(), taken) {
        before.past() + taken
    } else {
        Seq::empty()
    }
}

/// Whether one stop lies between them, and that was no failure.
pub open spec fn came_to_end(before: AsyncFrameDecoder, after: AsyncFrameDecoder) -> bool {
    &&& stopped(before, after)
    &&& forall|bytes: Seq<u8>|
        #![trigger before.may_be_rest(bytes)]
        before.may_be_rest(bytes) && before.past().len() == 0 ==> lz4::unframe(bytes) == Some(
            after.drawn().skip(before.marked() as int),
        )
}

/// Whether one stop lies between them, and that was a failure.
pub open spec fn failed(before: AsyncFrameDecoder, after: AsyncFrameDecoder) -> bool {
    &&& stopped(before, after)
    &&& forall|bytes: Seq<u8>|
        #![trigger before.may_be_rest(bytes)]
        before.may_be_rest(bytes) && before.past().len() == 0 ==> lz4::unframe(bytes) is None
}

/// Whether no stop lies between them, and there is more data than is out.
pub open spec fn has_more(before: AsyncFrameDecoder, after: AsyncFrameDecoder) -> bool {
    &&& same_place(before, after)
    &&& forall|bytes: Seq<u8>|
        #![trigger before.may_be_rest(bytes)]
        before.may_be_rest(bytes) ==> after.out().len() < lz4::yielded(before.past(), bytes).len()
}

/// Where reading takes a decoder.
///
/// Where no data comes out though there is room, the data has come to an end; without
/// room, it may also be that there is more. A decoder waits, ends or fails only once
/// all the data is out that the bytes give, and does not fail where all of them decode
/// to some data. Where there are no bytes and none will come, there is no data.
pub open spec fn moves(
    before: AsyncFrameDecoder,
    after: AsyncFrameDecoder,
    room: bool,
    outcome: Outcome,
) -> bool {
    &&& after.source() == before.source()
    &&& after.at_eof() == before.at_eof()
    &&& before.at_eof() && before.rest().len() == 0 ==> outcome == Outcome::Data(Seq::empty())
        && came_to_end(before, after)
    &&& match outcome {
        Outcome::Data(data) => if data.len() > 0 {
            same_place(before, after)
        } else {
            came_to_end(before, after) || !room && has_more(before, after)
        },
        Outcome::Wait => {
            &&& !before.at_eof()
            &&& same_place(before, after)
            &&& after.out() == lz4::yielded(before.past(), before.rest())
        },
        Outcome::Failure => failed(before, after),
    }
}

/// What a read of at most `max` bytes does to a decoder: data comes out from where the
/// last read stopped.
pub open spec fn reads(
    before: AsyncFrameDecoder,
    after: AsyncFrameDecoder,
    max: nat,
    outcome: Outcome,
) -> bool {
    &&& moves(before, after, max > 0, outcome)
    &&& match outcome {
        Outcome::Data(data) => data.len() <= max && after.drawn() == before.drawn() + data,
        _ => after.drawn() == before.drawn(),
    }
}

/// Reading on from the same place takes a decoder where reading from there would.
pub proof fn law_reads_join(
    before: AsyncFrameDecoder,
    between: AsyncFrameDecoder,
    after: AsyncFrameDecoder,
    room: bool,
    outcome: Outcome,
)
    requires
        between.source() == before.source(),
        between.at_eof() == before.at_eof(),
        same_place(before, between),
        moves(between, after, room, outcome),
    ensures
        moves(before, after, room, outcome),
{
    assert(forall|bytes: Seq<u8>| #[trigger]
        before.may_be_rest(bytes) ==> between.may_be_rest(bytes));
}

/// What is out is always a beginning of what comes of the bytes.
pub proof fn law_decoder_keeps_to_source(decoder: AsyncFrameDecoder, bytes: Seq<u8>)
    requires
        decoder.well_formed(),
        decoder.may_be_rest(bytes),
    ensures
        decoder.keeps_to(decoder.out(), bytes),
        decoder.marked() <= decoder.drawn().len(),
        decoder.passed() <= decoder.source().len(),
{
    assert(decoder.keeps_to(decoder.brought(), bytes));
    assert(decoder.out().is_prefix_of(decoder.brought()));
}

/// Whether a read that took these bytes met a block, and not the end of a frame.
fn has_met_block(within: bool, taken: &[u8]) -> (met: bool)
    ensures
        met == lz4::met_block(within, taken@),
{
    let len: usize = taken.len();
    let at: usize = if within {
        0
    } else if len >= 4 && taken[0] == 0x02 && taken[1] == 0x21 && taken[2] == 0x4c && taken[3]
        == 0x18 {
        assert(taken@.take(4) =~= seq![0x02u8, 0x21u8, 0x4cu8, 0x18u8]);
        4
    } else {
        proof {
            if len >= 4 && taken@.take(4) == seq![0x02u8, 0x21u8, 0x4cu8, 0x18u8] {
                assert(taken@[0] == taken@.take(4)[0]);
                assert(taken@[1] == taken@.take(4)[1]);
                assert(taken@[2] == taken@.take(4)[2]);
                assert(taken@[3] == taken@.take(4)[3]);
            }
        }
        if len >= 5 && taken[4] / 8 % 2 == 1 {
            15
        } else {
            7
        }
    };
    if len < at + 4 {
        return false;
    }
    let ghost size = taken@.subrange(at as int, at + 4);
    assert(size[0] == taken@[at as int] && size[1] == taken@[at + 1] && size[2] == taken@[at + 2]
        && size[3] == taken@[at + 3]);
    if taken[at] == 0 && taken[at + 1] == 0 && taken[at + 2] == 0 && taken[at + 3] == 0 {
        assert(size =~= seq![0u8, 0u8, 0u8, 0u8]);
        false
    } else {
        true
    }
}

/// Leaves what was taken behind. A decoder that is not within a frame is replaced: it
/// begins anew with the bytes that are left.
fn settle(decoder: &mut FrameReader, goes_on: bool)
    requires
        lz4::pipe_read(*old(decoder)) <= lz4::pipe_bytes(*old(decoder)).len(),
        lz4::in_frame(*old(decoder)) == goes_on,
        lz4::spent(*old(decoder)) == !goes_on,
        !lz4::broken_off(*old(decoder)),
        lz4::settled(*old(decoder)).len() == 0,
        lz4::drawn(*old(decoder)).len() == 0,
    ensures
        lz4::pipe_read(*final(decoder)) == 0,
        lz4::pipe_bytes(*final(decoder)) == lz4::pipe_bytes(*old(decoder)).skip(
            lz4::pipe_read(*old(decoder)) as int,
        ),
        lz4::pipe_open(*final(decoder)) == lz4::pipe_open(*old(decoder)),
        lz4::in_frame(*final(decoder)) == goes_on,
        !lz4::spent(*final(decoder)),
        !lz4::broken_off(*final(decoder)),
        lz4::settled(*final(decoder)).len() == 0,
        lz4::drawn(*final(decoder)).len() == 0,
        lz4::left(*final(decoder)) == if goes_on {
            lz4::left(*old(decoder))
        } else {
            Seq::empty()
        },
{
    frame_pipe(decoder).commit();
    if !goes_on {
        let mut pipe = AsyncHelperPipe::new();
        std::mem::swap(&mut pipe, frame_pipe(decoder));
        *decoder = frame_reader(pipe);
    }
}

/// Puts back what was taken. A decoder that is not within a frame is replaced: it
/// begins anew with the same bytes.
fn put_back(decoder: &mut FrameReader, within: bool)
    requires
        lz4::pipe_read(*old(decoder)) <= lz4::pipe_bytes(*old(decoder)).len(),
        lz4::in_frame(*old(decoder)) == within,
        !lz4::spent(*old(decoder)),
        within ==> !lz4::broken_off(*old(decoder)),
        !within ==> lz4::left(*old(decoder)).len() == 0 && lz4::settled(*old(decoder)).len() == 0
            && lz4::drawn(*old(decoder)).len() == 0,
    ensures
        lz4::pipe_read(*final(decoder)) == 0,
        lz4::pipe_bytes(*final(decoder)) == lz4::pipe_bytes(*old(decoder)),
        lz4::pipe_open(*final(decoder)) == lz4::pipe_open(*old(decoder)),
        lz4::in_frame(*final(decoder)) == within,
        !lz4::spent(*final(decoder)),
        !lz4::broken_off(*final(decoder)),
        lz4::left(*final(decoder)) == lz4::left(*old(decoder)),
        lz4::settled(*final(decoder)) == lz4::settled(*old(decoder)),
        lz4::drawn(*final(decoder)) == lz4::drawn(*old(decoder)),
{
    frame_pipe(decoder).roll_back();
    if !within {
        let mut pipe = AsyncHelperPipe::new();
        std::mem::swap(&mut pipe, frame_pipe(decoder));
        *decoder = frame_reader(pipe);
        assert(lz4::left(*decoder) =~= lz4::left(*old(decoder)));
        assert(lz4::settled(*decoder) =~= lz4::settled(*old(decoder)));
        assert(lz4::drawn(*decoder) =~= lz4::drawn(*old(decoder)));
    }
}

impl AsyncFrameDecoder {
    /// Reads at most `max` bytes of data, or asks for more of the source.
    pub fn read_inner(&mut self, max: usize) -> (step: DecodeStep)
        requires
            old(self).well_formed(),
        ensures
            final(self).well_formed(),
            reads(*old(self), *final(self), max as nat, step.outcome()),
            step matches DecodeStep::NeedInput(len) ==> len == tape::max_nat(
                max as nat,
                HELPER_PIPE_BUFFER_SIZE as nat,
            ),
    {
        if let Some(byte) = self.peeked {
            return self.read_peeked(byte, max);
        }
        let room: usize = if max == 0 {
            1
        } else if max < FRAME_ROOM {
            max
        } else {
            FRAME_ROOM
        };
        let ghost before = *self;
        proof {
            assert(before.brought() == before.out());
            assert forall|bytes: Seq<u8>| #[trigger] before.may_be_rest(bytes) implies
                lz4::may_be_whole(bytes, before.decoder) by {}
        }
        let read = frame_read(&mut self.decoder, room);
        let ghost met = self.decoder;
        match read {
            FrameRead::Data(data) => {
                if data.len() > 0 {
                    frame_pipe(&mut self.decoder).commit();
                    self.within = true;
                    let step = if max == 0 {
                        self.peeked = Some(data[0]);
                        DecodeStep::Ready(Vec::new())
                    } else {
                        proof {
                            self.drawn = Ghost(self.drawn@ + data@);
                        }
                        DecodeStep::Ready(data)
                    };
                    proof {
                        assert(lz4::fed(self.decoder) =~= before.rest());
                        assert(self.rest() == before.rest());
                        assert(self.brought() =~= before.out() + data@);
                        assert forall|bytes: Seq<u8>| #[trigger] self.may_be_rest(bytes) implies
                            self.keeps_to(self.brought(), bytes) by {
                            assert(before.may_be_rest(bytes));
                            assert(lz4::may_be_whole(bytes, before.decoder));
                        }
                        if max == 0 {
                            assert(self.drawn() =~= before.drawn() + Seq::<u8>::empty());
                            assert forall|bytes: Seq<u8>| #[trigger]
                                before.may_be_rest(bytes) implies before.out().len()
                                < lz4::yielded(before.past(), bytes).len() by {
                                assert(lz4::may_be_whole(bytes, before.decoder));
                            }
                        }
                    }
                    step
                } else {
                    let pipe = frame_pipe(&mut self.decoder);
                    let goes_on = has_met_block(
                        self.within,
                        vstd::slice::slice_subrange(pipe.buffer.as_slice(), 0, pipe.read),
                    );
                    settle(&mut self.decoder, goes_on);
                    self.leave(goes_on);
                    proof {
                        lemma_stopped(before, met, *self, goes_on);
                        assert(data@ =~= Seq::<u8>::empty());
                        assert(self.drawn() =~= before.drawn() + data@);
                        assert forall|bytes: Seq<u8>| #[trigger]
                            before.may_be_rest(bytes) && before.past().len() == 0 implies
                            lz4::unframe(bytes) == Some(before.out()) by {
                            assert(lz4::may_be_whole(bytes, before.decoder));
                        }
                    }
                    DecodeStep::Ready(data)
                }
            },
            FrameRead::WouldBlock => {
                put_back(&mut self.decoder, self.within);
                proof {
                    assert(lz4::fed(self.decoder) =~= before.rest());
                    assert forall|bytes: Seq<u8>| #[trigger] self.may_be_rest(bytes) implies
                        self.keeps_to(self.brought(), bytes) by {
                        assert(before.may_be_rest(bytes));
                    }
                }
                DecodeStep::NeedInput(
                    if max < HELPER_PIPE_BUFFER_SIZE {
                        HELPER_PIPE_BUFFER_SIZE
                    } else {
                        max
                    },
                )
            },
            FrameRead::BadBlock(error) => {
                settle(&mut self.decoder, true);
                self.leave(true);
                proof {
                    lemma_stopped(before, met, *self, true);
                    assert forall|bytes: Seq<u8>| #[trigger]
                        before.may_be_rest(bytes) && before.past().len() == 0 implies lz4::unframe(
                        bytes,
                    ) is None by {
                        assert(lz4::may_be_whole(bytes, before.decoder));
                    }
                }
                DecodeStep::Failed(std_io::describe(&error))
            },
            FrameRead::BadFrame(error) => {
                settle(&mut self.decoder, false);
                self.leave(false);
                proof {
                    lemma_stopped(before, met, *self, false);
                    assert forall|bytes: Seq<u8>| #[trigger]
                        before.may_be_rest(bytes) && before.past().len() == 0 implies lz4::unframe(
                        bytes,
                    ) is None by {
                        assert(lz4::may_be_whole(bytes, before.decoder));
                    }
                }
                DecodeStep::Failed(std_io::describe(&error))
            },
        }
    }

    /// Hands out the byte that was brought, if there is room for it.
    fn read_peeked(&mut self, byte: u8, max: usize) -> (step: DecodeStep)
        requires
            old(self).well_formed(),
            old(self).peeked == Some(byte),
        ensures
            final(self).well_formed(),
            step is Ready,
            reads(*old(self), *final(self), max as nat, step.outcome()),
    {
        let ghost before = *self;
        let mut data: Vec<u8> = Vec::new();
        if max > 0 {
            self.peeked = None;
            data.push(byte);
            proof {
                self.drawn = Ghost(self.drawn@.push(byte));
            }
        }
        proof {
            assert(self.drawn() =~= before.drawn() + data@);
            assert(self.brought() =~= before.brought());
            assert forall|bytes: Seq<u8>| #[trigger] self.may_be_rest(bytes) implies
                self.keeps_to(self.brought(), bytes) by {
                assert(before.may_be_rest(bytes));
            }
            assert forall|bytes: Seq<u8>| #[trigger] before.may_be_rest(bytes) implies
                before.out().len() < lz4::yielded(before.past(), bytes).len() by {
                assert(before.keeps_to(before.brought(), bytes));
            }
        }
        DecodeStep::Ready(data)
    }

    /// Records a stop.
    fn leave(&mut self, goes_on: bool)
        ensures
            *final(self) == (AsyncFrameDecoder {
                within: goes_on,
                passed: Ghost((old(self).source@.len() - lz4::pipe_bytes(old(self).decoder).len()) as nat),
                marked: Ghost(old(self).drawn@.len()),
                ..*old(self)
            }),
    {
        self.within = goes_on;
        proof {
            self.passed = Ghost(
                (self.source@.len() - lz4::pipe_bytes(self.decoder).len()) as nat,
            );
            self.marked = Ghost(self.drawn@.len());
        }
    }

    /// Takes in what was read from the source. A read of nothing means that the
    /// source has no more.
    pub fn source_read(&mut self, bytes: &[u8])
        requires
            old(self).well_formed(),
            bytes@.len() > 0 ==> !old(self).at_eof(),
        ensures
            final(self).well_formed(),
            final(self).source() == old(self).source() + bytes@,
            final(self).at_eof() == (old(self).at_eof() || bytes@.len() == 0),
            final(self).drawn() == old(self).drawn(),
            same_place(*old(self), *final(self)),
    {
        let ghost before = *self;
        if bytes.len() == 0 {
            frame_pipe(&mut self.decoder).close();
            self.eof = true;
        } else {
            frame_pipe(&mut self.decoder).write(bytes);
        }
        proof {
            self.source = Ghost(self.source@ + bytes@);
            assert(self.rest() =~= before.rest() + bytes@);
            assert(lz4::fed(self.decoder) =~= self.rest());
            assert forall|whole: Seq<u8>| #[trigger] self.may_be_rest(whole) implies
                self.keeps_to(self.brought(), whole) by {
                if bytes@.len() == 0 {
                    assert(self.rest() =~= before.rest());
                } else {
                    assert(before.rest() =~= whole.take(before.rest().len() as int));
                }
                assert(before.may_be_rest(whole));
            }
        }
    }
}

/// A stop that was recorded is one.
proof fn lemma_stopped(
    before: AsyncFrameDecoder,
    met: FrameReader,
    after: AsyncFrameDecoder,
    goes_on: bool,
)
    requires
        before.well_formed(),
        before.peeked is None,
        ({
            let taken = lz4::settled(before.decoder) + lz4::taken_by(before.decoder, met);
            &&& lz4::pipe_bytes(met) == lz4::pipe_bytes(before.decoder)
            &&& lz4::pipe_read(met) <= lz4::pipe_bytes(met).len()
            &&& lz4::left(met) == lz4::left(before.decoder) + taken
            &&& goes_on == lz4::goes_on(lz4::left(before.decoder), taken)
            &&& taken.len() == lz4::stop_at(
                lz4::left(before.decoder),
                lz4::fed(before.decoder),
            )
        }),
        lz4::drawn(before.decoder) == lz4::yielded(
            lz4::left(before.decoder),
            lz4::fed(before.decoder),
        ),
        lz4::pipe_read(after.decoder) == 0,
        lz4::pipe_bytes(after.decoder) == lz4::pipe_bytes(met).skip(lz4::pipe_read(met) as int),
        lz4::pipe_open(after.decoder) == lz4::pipe_open(before.decoder),
        lz4::in_frame(after.decoder) == goes_on,
        !lz4::spent(after.decoder),
        !lz4::broken_off(after.decoder),
        lz4::settled(after.decoder).len() == 0,
        lz4::drawn(after.decoder).len() == 0,
        lz4::left(after.decoder) == if goes_on {
            lz4::left(met)
        } else {
            Seq::empty()
        },
        after == (AsyncFrameDecoder {
            decoder: after.decoder,
            within: goes_on,
            passed: Ghost((before.source@.len() - lz4::pipe_bytes(after.decoder).len()) as nat),
            marked: Ghost(before.drawn@.len()),
            ..before
        }),
    ensures
        stopped(before, after),
        after.well_formed(),
{
    let taken = lz4::settled(before.decoder) + lz4::taken_by(before.decoder, met);
    let fed = lz4::fed(before.decoder);
    assert(fed == before.rest());
    assert(taken =~= fed.take(taken.len() as int));
    assert(lz4::fed(after.decoder) =~= fed.skip(taken.len() as int));
    assert(after.rest() =~= before.rest().skip(taken.len() as int));
    assert(after.out() =~= Seq::<u8>::empty());
    assert(lz4::drawn(after.decoder) =~= Seq::<u8>::empty());
    assert forall|bytes: Seq<u8>| #[trigger] after.may_be_rest(bytes) implies after.keeps_to(
        after.brought(),
        bytes,
    ) by {}
}

/// An encoder that hands out compressed bytes as they are ready.
pub struct AsyncFrameEncoder {
    encoder: Option<FrameWriter>,
    output: Vec<u8>,
    // The compressed bytes that the destination has taken.
    sent: Ghost<Seq<u8>>,
    // The data that was written.
    written: Ghost<Seq<u8>>,
}

/// What becomes of a write.
#[derive(Debug)]
pub enum EncodeStep {
    /// Pass the compressed bytes on to the destination first, and write again.
    FlushFirst,
    /// So many bytes were taken in.
    Written(usize),
    Failed(IoError),
}

/// What has to be done to pass the compressed bytes on.
#[derive(Debug)]
pub enum FlushStep {
    /// Write these bytes to the destination, and report how many it took.
    Write(Vec<u8>),
    /// Flush the destination.
    Flush,
}

/// The text of the error for a write behind the end.
pub open spec fn already_shut_down_text() -> Seq<char> {
    "shutdown() was already called"@
}

/// What becomes of an encoder when data is written to it.
pub open spec fn encoder_takes_in(
    before: AsyncFrameEncoder,
    after: AsyncFrameEncoder,
    data: Seq<u8>,
    step: EncodeStep,
) -> bool {
    &&& after.well_formed()
    &&& after.is_shut_down() == before.is_shut_down()
    &&& after.delivered() == before.delivered()
    &&& before.waiting().len() >= HELPER_PIPE_BUFFER_SIZE ==> {
        &&& step is FlushFirst
        &&& after == before
    }
    &&& before.waiting().len() < HELPER_PIPE_BUFFER_SIZE && before.is_shut_down() ==> {
        &&& step matches EncodeStep::Failed(e)
        &&& e.says(IoErrorKind::BrokenPipe, already_shut_down_text())
        &&& after == before
    }
    &&& before.waiting().len() < HELPER_PIPE_BUFFER_SIZE && !before.is_shut_down() ==> {
        &&& step == EncodeStep::Written(data.len() as usize)
        &&& after.data() == before.data() + data
        &&& before.waiting().is_prefix_of(after.waiting())
    }
}

impl AsyncFrameEncoder {
    /// All the compressed bytes so far, those that the destination has taken
    /// among them.
    pub open spec fn compressed(self) -> Seq<u8> {
        self.delivered() + self.waiting()
    }

    /// The compressed bytes that the destination has taken.
    pub closed spec fn delivered(self) -> Seq<u8> {
        self.sent@
    }

    /// The compressed bytes that wait for the destination.
    pub closed spec fn waiting(self) -> Seq<u8> {
        self.output@
    }

    /// The data that was written.
    pub closed spec fn data(self) -> Seq<u8> {
        self.written@
    }

    /// Whether the end was written.
    pub closed spec fn is_shut_down(self) -> bool {
        self.encoder is None
    }

    /// What was handed out belongs to what was written.
    pub closed spec fn well_formed(self) -> bool {
        match self.encoder {
            Some(encoder) => {
                &&& self.compressed() == lz4::handed_out(encoder)
                &&& self.written@ == lz4::taken_in(encoder)
            },
            None => {
                &&& lz4::unframe(self.compressed()) == Some(self.written@)
                &&& lz4::stop_at(Seq::empty(), self.compressed()) == self.compressed().len()
                &&& !lz4::goes_on(Seq::empty(), self.compressed())
                &&& self.compressed().len() >= 4
            },
        }
    }

    /// An encoder that nothing was written to.
    pub fn new() -> (encoder: AsyncFrameEncoder)
        ensures
            encoder.well_formed(),
            !encoder.is_shut_down(),
            encoder.delivered() == Seq::<u8>::empty(),
            encoder.waiting() == Seq::<u8>::empty(),
            encoder.data() == Seq::<u8>::empty(),
    {
        let encoder = AsyncFrameEncoder {
            encoder: Some(frame_writer()),
            output: Vec::new(),
            sent: Ghost(Seq::empty()),
            written: Ghost(Seq::empty()),
        };
        assert(encoder.compressed() =~= Seq::<u8>::empty());
        encoder
    }

    /// Takes in data, unless so many compressed bytes wait that they have to be
    /// passed on first.
    pub fn poll_write(&mut self, data: &[u8]) -> (step: EncodeStep)
        requires
            old(self).well_formed(),
        ensures
            encoder_takes_in(*old(self), *final(self), data@, step),
    {
        if self.output.len() >= HELPER_PIPE_BUFFER_SIZE {
            return EncodeStep::FlushFirst;
        }
        match &mut self.encoder {
            None => EncodeStep::Failed(
                IoError::new(IoErrorKind::BrokenPipe, "shutdown() was already called"),
            ),
            Some(encoder) => {
                let bytes = frame_write(encoder, data);
                self.output.extend_from_slice(bytes.as_slice());
                self.written = Ghost(self.written@ + data@);
                assert(self.output@ =~= old(self).output@ + bytes@);
                assert(self.compressed() =~= old(self).compressed() + bytes@);
                EncodeStep::Written(data.len())
            },
        }
    }

    /// What has to be done next to pass the compressed bytes on.
    pub fn poll_flush_destination(&self) -> (step: FlushStep)
        ensures
            match step {
                FlushStep::Write(bytes) => self.waiting().len() > 0 && bytes@ == self.waiting(),
                FlushStep::Flush => self.waiting().len() == 0,
            },
    {
        if self.output.len() == 0 {
            FlushStep::Flush
        } else {
            let bytes = self.output.clone();
            assert(bytes@ =~= self.output@);
            FlushStep::Write(bytes)
        }
    }

    /// Records that the destination took the first `len` of the waiting bytes.
    pub fn destination_took(&mut self, len: usize)
        requires
            old(self).well_formed(),
            len <= old(self).waiting().len(),
        ensures
            final(self).well_formed(),
            final(self).is_shut_down() == old(self).is_shut_down(),
            final(self).data() == old(self).data(),
            final(self).compressed() == old(self).compressed(),
            final(self).delivered() == old(self).delivered() + old(self).waiting().take(len as int),
            final(self).waiting() == old(self).waiting().skip(len as int),
    {
        let rest = self.output.split_off(len);
        self.sent = Ghost(self.sent@ + old(self).output@.take(len as int));
        self.output = rest;
        assert(self.compressed() =~= old(self).compressed());
    }

    /// Writes the end, if that was not done before. The compressed bytes then
    /// only have to be passed on.
    pub fn poll_shutdown(&mut self)
        requires
            old(self).well_formed(),
        ensures
            final(self).well_formed(),
            final(self).is_shut_down(),
            final(self).data() == old(self).data(),
            final(self).delivered() == old(self).delivered(),
            old(self).waiting().is_prefix_of(final(self).waiting()),
            old(self).is_shut_down() ==> *final(self) == *old(self),
            lz4::unframe(final(self).compressed()) == Some(final(self).data()),
            final(self).compressed().len() >= 4,
    {
        match self.encoder.take() {
            Some(encoder) => {
                let bytes = frame_finish(encoder);
                self.output.extend_from_slice(bytes.as_slice());
                assert(self.output@ =~= old(self).output@ + bytes@);
                assert(self.compressed() =~= old(self).compressed() + bytes@);
            },
            None => {},
        }
    }
}

/// A frame that was passed on as a whole decodes to the data that was written.
pub proof fn law_encoded_decodes(encoder: AsyncFrameEncoder)
    requires
        encoder.well_formed(),
        encoder.is_shut_down(),
        encoder.waiting().len() == 0,
    ensures
        lz4::unframe(encoder.delivered()) == Some(encoder.data()),
        encoder.delivered().len() >= 4,
{
    assert(encoder.compressed() =~= encoder.delivered());
}

/// Behind a frame that was passed on as a whole there is nothing: a decoder that has
/// come to its end, and is read again, gives no data, however often it is.
pub proof fn law_nothing_follows_frame(
    encoder: AsyncFrameEncoder,
    before: AsyncFrameDecoder,
    ended: AsyncFrameDecoder,
    after: AsyncFrameDecoder,
    max: nat,
    outcome: Outcome,
)
    requires
        encoder.well_formed(),
        encoder.is_shut_down(),
        encoder.waiting().len() == 0,
        before.past().len() == 0,
        before.passed() <= before.source().len(),
        before.rest() == encoder.delivered(),
        came_to_end(before, ended),
        ended.source() == before.source(),
        ended.at_eof(),
        reads(ended, after, max, outcome),
    ensures
        outcome == Outcome::Data(Seq::empty()),
        came_to_end(ended, after),
        after.rest().len() == 0,
        after.past().len() == 0,
{
    assert(encoder.compressed() =~= encoder.delivered());
    assert(before.past() =~= Seq::<u8>::empty());
    assert(before.rest().take(before.rest().len() as int) =~= before.rest());
}

/// Data that is written is taken in as a whole or not at all: it has to wait just while
/// 16 KiB of compressed bytes or more do, and is refused behind the end. Nothing that was
/// compressed is lost.
pub proof fn law_data_is_taken_in_whole(
    before: AsyncFrameEncoder,
    after: AsyncFrameEncoder,
    data: Seq<u8>,
    step: EncodeStep,
)
    requires
        encoder_takes_in(before, after, data, step),
        data.len() <= usize::MAX,
    ensures
        step is FlushFirst <==> before.waiting().len() >= 16384,
        step is Failed <==> before.waiting().len() < 16384 && before.is_shut_down(),
        step matches EncodeStep::Written(len) ==> {
            &&& len == data.len()
            &&& after.data() == before.data() + data
            &&& before.compressed().is_prefix_of(after.compressed())
        },
        !(step is Written) ==> after == before,
        after.is_shut_down() == before.is_shut_down(),
{
    if step is Written {
        assert(before.waiting() =~= after.waiting().take(before.waiting().len() as int));
        assert(before.compressed() =~= after.compressed().take(before.compressed().len() as int));
    }
}

} // verus!
