//! Requests over HTTP.
use vstd::prelude::*;
use vstd::string::*;
use crate::foreign::percent;
use crate::foreign::percent::percent_decode;
use crate::jumbo::{JumboBytesMut, JumboBytesMutInner, SpillSettings, WriteStep};
use crate::tape::Tape;

verus! {

/// The decoded form of an element of a path, or the element itself where its
/// decoded bytes are no text.
pub open spec fn decoded_element(item: Seq<char>) -> Seq<char> {
    let decoded = percent::percent_decoded(vstd::utf8::encode_utf8(item));
    if vstd::utf8::valid_utf8(decoded) {
        vstd::utf8::decode_utf8(decoded)
    } else {
        item
    }
}

/// Decodes an element of a path.
pub fn decode_path_element(item: &str) -> (decoded: String)
    ensures
        decoded@ == decoded_element(item@),
{
    match percent_decode(item) {
        Some(decoded) => decoded,
        None => item.to_owned(),
    }
}

/// Bytes without a percent sign are their own decoded form.
proof fn lemma_nothing_to_decode(bytes: Seq<u8>)
    requires
        forall|i: int| 0 <= i < bytes.len() ==> bytes[i] != 37,
    ensures
        percent::percent_decoded(bytes) == bytes,
    decreases bytes.len(),
{
    if bytes.len() > 0 {
        lemma_nothing_to_decode(bytes.skip(1));
        assert(seq![bytes[0]] + bytes.skip(1) =~= bytes);
    }
}

/// An element without a percent sign is its own decoded form.
pub proof fn law_plain_element_is_kept(item: Seq<char>)
    requires
        forall|i: int|
            0 <= i < vstd::utf8::encode_utf8(item).len() ==> vstd::utf8::encode_utf8(item)[i] != 37,
    ensures
        decoded_element(item) == item,
{
    lemma_nothing_to_decode(vstd::utf8::encode_utf8(item));
    vstd::utf8::encode_utf8_decode_utf8(item);
}

/// What came of waiting for the next piece of a request.
#[derive(Debug)]
pub enum FrameEvent {
    /// Bytes of the body.
    Data(Vec<u8>),
    /// Something else.
    Other,
    /// Nothing: the request has ended, or was broken off.
    End,
}

/// What has to be done to take in the body of a request.
#[derive(Debug)]
pub enum FetchStep {
    /// Wait for the next piece.
    NextFrame,
    /// The body is complete.
    Done,
    /// The body cannot be taken in: it is too large, or the disk is.
    Refused,
    /// The move into a file has to end first; write again then.
    AwaitTransition,
    /// Make a file, write `bytes` to it, seek to `cursor`, and write again.
    Spill { bytes: Vec<u8>, cursor: u64 },
    /// Write these bytes to the file, and report how many it took.
    WriteToFile(Vec<u8>),
}

/// A request whose body is being taken in.
#[derive(Debug)]
pub struct BodyFetch {
    pub body: JumboBytesMut,
    pub pending: Vec<u8>,
    pub written: usize,
}

impl BodyFetch {
    /// The cursor stands at the end of what was taken in, and no more of the
    /// current piece was written than there is.
    pub open spec fn well_formed(self) -> bool {
        &&& self.written <= self.pending@.len()
        &&& self.body.inner is Some
        &&& self.body.cursor() == self.body.spec_len()
        &&& self.body.spec_len() <= self.body.max_size
    }

    /// What is left of the current piece.
    pub open spec fn rest(self) -> Seq<u8> {
        self.pending@.skip(self.written as int)
    }

    /// Begins to take in a body of at most `max_size` bytes; zero stands for any
    /// number.
    pub fn fetch_body(max_size: u64, settings: &SpillSettings) -> (fetch: BodyFetch)
        ensures
            begins_fetch(fetch, max_size, settings.spillover_size),
    {
        let body = JumboBytesMut::new(
            if max_size == 0 {
                u64::MAX
            } else {
                max_size
            },
            settings,
        );
        BodyFetch { body, pending: Vec::new(), written: 0 }
    }

    /// Takes in a piece of the request.
    pub fn frame(&mut self, event: FrameEvent) -> (step: FetchStep)
        requires
            old(self).well_formed(),
            old(self).rest().len() == 0,
        ensures
            final(self).well_formed(),
            takes_frame(*old(self), *final(self), event, step),
    {
        match event {
            FrameEvent::Data(data) => {
                self.pending = data;
                self.written = 0;
                self.write()
            },
            FrameEvent::Other => FetchStep::NextFrame,
            FrameEvent::End => FetchStep::Done,
        }
    }

    /// Writes what is left of the current piece.
    pub fn write(&mut self) -> (step: FetchStep)
        requires
            old(self).well_formed(),
        ensures
            final(self).well_formed(),
            writes(*old(self), *final(self), step),
    {
        let rest = vstd::slice::slice_subrange(
            self.pending.as_slice(),
            self.written,
            self.pending.len(),
        );
        assert(rest@ =~= self.rest());
        if rest.len() == 0 {
            return FetchStep::NextFrame;
        }
        match self.body.poll_write(rest) {
            WriteStep::AwaitTransition => FetchStep::AwaitTransition,
            WriteStep::Failed(_) => FetchStep::Refused,
            WriteStep::Written(_) => {
                self.written = self.pending.len();
                assert(self.body.ram().data =~= old(self).body.ram().data + rest@);
                assert(self.rest().len() == 0);
                FetchStep::NextFrame
            },
            WriteStep::Spill { bytes, cursor } => FetchStep::Spill { bytes, cursor },
            WriteStep::WriteToFile => FetchStep::WriteToFile(vstd::slice::slice_to_vec(rest)),
        }
    }

    /// Takes in how many bytes the file took. A file that takes none is full.
    pub fn file_wrote(&mut self, count: usize) -> (step: FetchStep)
        requires
            old(self).well_formed(),
            old(self).body.is_file(),
            count <= old(self).rest().len(),
            old(self).body.spec_len() + count <= old(self).body.max_size,
        ensures
            final(self).well_formed(),
            file_takes(*old(self), *final(self), count, step),
    {
        if count == 0 {
            return FetchStep::Refused;
        }
        self.body.file_written(count);
        let size: usize = self.pending.len();
        assert(self.written + count <= size);
        self.written = self.written + count;
        let rest = vstd::slice::slice_subrange(
            self.pending.as_slice(),
            self.written,
            self.pending.len(),
        );
        assert(rest@ =~= self.rest());
        if rest.len() == 0 {
            FetchStep::NextFrame
        } else {
            FetchStep::WriteToFile(vstd::slice::slice_to_vec(rest))
        }
    }
}

/// What becomes of writing the rest of the current piece: it is refused if the
/// body would become too large, written if memory takes it, and passed on to a
/// file otherwise.
pub open spec fn writes(before: BodyFetch, after: BodyFetch, step: FetchStep) -> bool {
    let rest = before.rest();
    let len = before.body.spec_len();
    &&& after.pending == before.pending
    &&& if rest.len() == 0 {
        step is NextFrame && after == before
    } else if before.body.is_transitioning() {
        step is AwaitTransition && after == before
    } else if len + rest.len() > before.body.max_size {
        step is Refused && after == before
    } else if before.body.is_file() {
        step matches FetchStep::WriteToFile(bytes) && bytes@ == rest && after == before
    } else if len + rest.len() > before.body.max_ram_size {
        &&& step matches FetchStep::Spill { bytes, cursor }
        &&& bytes@ == before.body.ram().data
        &&& cursor == len
        &&& after.body == before.body.spilled()
        &&& after.written == before.written
    } else {
        &&& step is NextFrame
        &&& after.body.is_ram()
        &&& after.body.max_size == before.body.max_size
        &&& after.body.max_ram_size == before.body.max_ram_size
        &&& after.body.ram().data == before.body.ram().data + rest
        &&& after.written == after.pending@.len()
    }
}

/// What becomes of a piece of a request: its bytes are written, what else comes is passed
/// over, and the end completes the body.
pub open spec fn takes_frame(
    before: BodyFetch,
    after: BodyFetch,
    event: FrameEvent,
    step: FetchStep,
) -> bool {
    match event {
        FrameEvent::Data(data) => writes(
            BodyFetch { body: before.body, pending: data, written: 0 },
            after,
            step,
        ),
        FrameEvent::Other => step is NextFrame && after == before,
        FrameEvent::End => step is Done && after == before,
    }
}

/// Whether nothing was taken in yet of a body of at most `max_size` bytes, where zero
/// stands for any number.
pub open spec fn begins_fetch(fetch: BodyFetch, max_size: u64, spillover_size: usize) -> bool {
    &&& fetch.well_formed()
    &&& fetch.rest().len() == 0
    &&& fetch.body.is_ram()
    &&& fetch.body.spec_len() == 0
    &&& fetch.body.max_ram_size == spillover_size
    &&& fetch.body.max_size == if max_size == 0 {
        u64::MAX
    } else {
        max_size
    }
}

/// What becomes of a file that took `count` bytes of the current piece: it is full
/// if it took none, and the rest is passed on to it otherwise.
pub open spec fn file_takes(
    before: BodyFetch,
    after: BodyFetch,
    count: usize,
    step: FetchStep,
) -> bool {
    &&& after.pending == before.pending
    &&& after.written == before.written + count
    &&& if count == 0 {
        step is Refused && after.body == before.body
    } else {
        &&& after.body == before.body.after_file_write(count as nat)
        &&& if count == before.rest().len() {
            step is NextFrame
        } else {
            step matches FetchStep::WriteToFile(bytes) && bytes@ == after.rest()
        }
    }
}

/// What happens while a body is taken in.
pub enum FetchMove {
    /// The next piece of the request came.
    Frame(FrameEvent),
    /// The file that was asked for was made, and the write goes on.
    FileMade,
    /// The file took so many bytes.
    FileTook(usize),
}

/// The bytes that a move brings.
pub open spec fn brought(happened: FetchMove) -> Seq<u8> {
    match happened {
        FetchMove::Frame(FrameEvent::Data(data)) => data@,
        _ => Seq::empty(),
    }
}

/// The bytes that all moves brought, in order.
pub open spec fn all_brought(moves: Seq<FetchMove>) -> Seq<u8>
    decreases moves.len(),
{
    if moves.len() == 0 {
        Seq::empty()
    } else {
        all_brought(moves.drop_last()) + brought(moves.last())
    }
}

/// Whether the file was full.
pub open spec fn file_is_full(happened: FetchMove) -> bool {
    happened matches FetchMove::FileTook(count) && count == 0
}

/// Whether a move leads from one state, of the request and of the file on disk, to
/// another.
pub open spec fn fetch_moves(
    before: (BodyFetch, Tape),
    happened: FetchMove,
    after: (BodyFetch, Tape),
    step: FetchStep,
) -> bool {
    &&& after.0.well_formed()
    &&& match happened {
        FetchMove::Frame(event) => {
            &&& before.0.rest().len() == 0
            &&& takes_frame(before.0, after.0, event, step)
            &&& after.1 == match step {
                FetchStep::Spill { bytes, cursor } => Tape { data: bytes@, pos: cursor as nat },
                _ => before.1,
            }
        },
        FetchMove::FileMade => {
            &&& before.0.body.inner matches Some(
                JumboBytesMutInner::Transitioning { original_cursor_pos, cursor_pos: None, .. },
            )
            &&& writes(
                BodyFetch {
                    body: before.0.body.file_at(original_cursor_pos),
                    pending: before.0.pending,
                    written: before.0.written,
                },
                after.0,
                step,
            )
            &&& after.1 == before.1
        },
        FetchMove::FileTook(count) => {
            &&& before.0.body.is_file()
            &&& count <= before.0.rest().len()
            &&& file_takes(before.0, after.0, count, step)
            &&& after.1 == if count == 0 {
                before.1
            } else {
                before.1.written(before.0.rest().take(count as int))
            }
        },
    }
}

/// Whether the body and the rest of the current piece are `data`, which is not too
/// large.
spec fn has_taken(state: (BodyFetch, Tape), data: Seq<u8>) -> bool {
    &&& state.0.well_formed()
    &&& state.0.body.goes_with(state.1)
    &&& state.0.body.is_transitioning() ==> state.0.rest().len() > 0
    &&& state.0.body.tape(state.1).data + state.0.rest() == data
    &&& data.len() <= state.0.body.max_size
}

/// A move adds what it brings, or is refused.
proof fn lemma_fetch_moves(
    before: (BodyFetch, Tape),
    happened: FetchMove,
    after: (BodyFetch, Tape),
    step: FetchStep,
    data: Seq<u8>,
)
    requires
        has_taken(before, data),
        fetch_moves(before, happened, after, step),
    ensures
        after.0.body.max_size == before.0.body.max_size,
        step is Refused <==> {
            ||| (data + brought(happened)).len() > before.0.body.max_size
            ||| file_is_full(happened)
        },
        !(step is Refused) ==> has_taken(after, data + brought(happened)),
        step is Done ==> after.0.rest().len() == 0,
        step is Done <==> (happened matches FetchMove::Frame(event) && event is End),
        step is NextFrame ==> after.0.rest().len() == 0,
        step matches FetchStep::WriteToFile(bytes) ==> bytes@ == after.0.rest() && bytes@.len() > 0,
        step is Spill || step is WriteToFile || step is AwaitTransition ==> after.0.rest().len() > 0,
{
    if !(step is Refused) {
        assert(after.0.body.tape(after.1).data + after.0.rest() =~= data + brought(happened));
    }
}

/// Whether a body of at most `max_size` bytes is taken in by these moves, where zero stands
/// for any number. Nothing follows a refusal.
pub open spec fn fetch_run(
    max_size: u64,
    spillover_size: usize,
    states: Seq<(BodyFetch, Tape)>,
    moves: Seq<FetchMove>,
    steps: Seq<FetchStep>,
) -> bool {
    &&& states.len() == moves.len() + 1
    &&& steps.len() == moves.len()
    &&& begins_fetch(states[0].0, max_size, spillover_size)
    &&& forall|k: int|
        0 <= k < moves.len() ==> fetch_moves(states[k], #[trigger] moves[k], states[k + 1], steps[k])
    &&& forall|k: int| 0 <= k < moves.len() - 1 ==> !(#[trigger] steps[k] is Refused)
}

/// A run that was not refused has taken in what it was given.
proof fn lemma_fetch_run(
    max_size: u64,
    spillover_size: usize,
    states: Seq<(BodyFetch, Tape)>,
    moves: Seq<FetchMove>,
    steps: Seq<FetchStep>,
)
    requires
        fetch_run(max_size, spillover_size, states, moves, steps),
        moves.len() > 0 ==> !(steps.last() is Refused),
    ensures
        states.last().0.body.max_size == states[0].0.body.max_size,
        has_taken(states.last(), all_brought(moves)),
    decreases moves.len(),
{
    if moves.len() == 0 {
        let state = states[0];
        assert(state.0.body.tape(state.1).data + state.0.rest() =~= Seq::empty());
    } else {
        let n = moves.len() - 1;
        lemma_fetch_run(max_size, spillover_size, states.drop_last(), moves.drop_last(), steps.drop_last());
        lemma_fetch_moves(
            states[n],
            moves[n],
            states[n + 1],
            steps[n],
            all_brought(moves.drop_last()),
        );
    }
}

/// The pieces of a request, one after the other, are its body. They are refused just
/// when they become larger together than they may, which they cannot where any number of
/// bytes may come, or when the disk takes no more of them.
pub proof fn law_body_is_taken_in(
    max_size: u64,
    spillover_size: usize,
    states: Seq<(BodyFetch, Tape)>,
    moves: Seq<FetchMove>,
    steps: Seq<FetchStep>,
)
    requires
        fetch_run(max_size, spillover_size, states, moves, steps),
        moves.len() > 0,
    ensures
        steps.last() is Refused <==> {
            ||| max_size != 0 && all_brought(moves).len() > max_size
            ||| max_size == 0 && all_brought(moves).len() > u64::MAX
            ||| file_is_full(moves.last())
        },
        !(steps.last() is Refused) ==> {
            let (fetch, disk) = states.last();
            fetch.body.tape(disk).data + fetch.rest() == all_brought(moves)
        },
        steps.last() is Done ==> {
            let (fetch, disk) = states.last();
            fetch.body.tape(disk).data == all_brought(moves)
        },
        steps.last() is Done <==> (moves.last() matches FetchMove::Frame(event) && event is End),
        steps.last() is NextFrame ==> states.last().0.rest().len() == 0,
        steps.last() matches FetchStep::WriteToFile(bytes) ==> bytes@ == states.last().0.rest()
            && bytes@.len() > 0,
        steps.last() is Spill || steps.last() is WriteToFile || steps.last() is AwaitTransition
            ==> states.last().0.rest().len() > 0,
{
    let n = moves.len() - 1;
    let earlier = moves.drop_last();
    lemma_fetch_run(max_size, spillover_size, states.drop_last(), earlier, steps.drop_last());
    lemma_fetch_moves(states[n], moves[n], states[n + 1], steps[n], all_brought(earlier));
}

/// An element that decodes to a text is that text; one that does not stays as it is.
pub proof fn law_elements_are_decoded(item: Seq<char>, text: Seq<char>)
    ensures
        percent::percent_decoded(vstd::utf8::encode_utf8(item)) == vstd::utf8::encode_utf8(text)
            ==> decoded_element(item) == text,
        !vstd::utf8::valid_utf8(percent::percent_decoded(vstd::utf8::encode_utf8(item)))
            ==> decoded_element(item) == item,
{
    vstd::utf8::encode_utf8_valid_utf8(text);
    vstd::utf8::encode_utf8_decode_utf8(text);
}

/// A body stays in memory only as long as it takes no more of it than it may: a piece that
/// would take more makes it move into a file first, with all that was taken in.
pub proof fn law_large_bodies_move_into_a_file(before: BodyFetch, after: BodyFetch, step: FetchStep)
    requires
        writes(before, after, step),
        before.well_formed(),
        before.body.is_ram(),
        before.rest().len() > 0,
        before.body.spec_len() + before.rest().len() <= before.body.max_size,
    ensures
        step is Spill <==> before.body.ram().data.len() + before.rest().len()
            > before.body.max_ram_size,
        step matches FetchStep::Spill { bytes, cursor } ==> bytes@ == before.body.ram().data
            && cursor == bytes@.len() && after.body.is_transitioning() && after.rest()
            == before.rest(),
        step is NextFrame ==> after.body.ram().data == before.body.ram().data + before.rest(),
        step is Spill || step is NextFrame,
{
}

} // verus!
