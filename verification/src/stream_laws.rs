//! What holds of whole runs of reads: a compressed source hands out its range, and
//! a paged one all its chunks.
use vstd::prelude::*;
use crate::byte_range::ByteRange;
use crate::foreign::bytes_buf;
use crate::foreign::lz4;
use crate::frame;
use crate::frame::{AsyncFrameDecoder, AsyncFrameEncoder};
use crate::stream;
use crate::stream::{BlobReadStream, Fetched, PagedChunks, StreamStep};

verus! {

/// One call on a stream of compressed data.
pub enum CompressedEvent {
    /// A read of at most `max` bytes, and what came of it.
    Read { max: nat, step: StreamStep },
    /// These bytes came from the source; none if it has no more.
    TakeIn(Seq<u8>),
}

/// The decoder of a stream of compressed data.
pub open spec fn decoder_of(stream: BlobReadStream) -> AsyncFrameDecoder {
    match stream {
        BlobReadStream::Lz4(decoder) => decoder,
        BlobReadStream::Lz4Segment { decoder, .. } => decoder,
        _ => arbitrary(),
    }
}

/// Whether `bytes` may be all that the source of a stream of compressed data has.
pub open spec fn may_be_source(stream: BlobReadStream, bytes: Seq<u8>) -> bool {
    if decoder_of(stream).at_eof() {
        bytes == decoder_of(stream).source()
    } else {
        decoder_of(stream).source().is_prefix_of(bytes)
    }
}

/// What one call makes of a stream of compressed data.
pub open spec fn compressed_step(
    before: BlobReadStream,
    event: CompressedEvent,
    after: BlobReadStream,
) -> bool {
    match event {
        CompressedEvent::Read { max, step } => match before {
            BlobReadStream::Lz4(decoder) => after matches BlobReadStream::Lz4(next)
                && stream::decoder_reads(decoder, next, max, step),
            BlobReadStream::Lz4Segment { decoder, limit, bytes_to_discard } => {
                &&& after matches BlobReadStream::Lz4Segment {
                    decoder: next,
                    limit: next_limit,
                    bytes_to_discard: next_discard,
                }
                &&& stream::segment_reads(
                    (decoder, limit, bytes_to_discard),
                    (next, next_limit, next_discard),
                    max,
                    step,
                )
            },
            _ => false,
        },
        CompressedEvent::TakeIn(bytes) => {
            &&& bytes.len() > 0 ==> !decoder_of(before).at_eof()
            &&& stream::decoder_takes_in(decoder_of(before), decoder_of(after), bytes)
            &&& match before {
                BlobReadStream::Lz4(_) => after is Lz4,
                BlobReadStream::Lz4Segment { limit, bytes_to_discard, .. } => {
                    &&& after matches BlobReadStream::Lz4Segment {
                        limit: next_limit,
                        bytes_to_discard: next_discard,
                        ..
                    }
                    &&& next_limit == limit
                    &&& next_discard == bytes_to_discard
                },
                _ => false,
            }
        },
    }
}

/// Whether a stream of compressed data goes through these states by these calls. All
/// reads have room, and none but the last gives nothing.
pub open spec fn compressed_run(
    states: Seq<BlobReadStream>,
    events: Seq<CompressedEvent>,
) -> bool {
    &&& states.len() == events.len() + 1
    &&& forall|i: int| 0 <= i < states.len() ==> (#[trigger] states[i]).well_formed()
    &&& forall|i: int|
        0 <= i < events.len() ==> ((#[trigger] events[i]) matches CompressedEvent::Read {
            max,
            ..
        } ==> max > 0)
    &&& forall|i: int| 0 <= i < events.len() - 1 ==> !says_end(#[trigger] events[i])
    &&& forall|i: int|
        0 <= i < events.len() ==> compressed_step(states[i], #[trigger] events[i], states[i + 1])
}

/// Whether a stream of a range of compressed data is as it is made.
pub open spec fn begins(stream: BlobReadStream, range: ByteRange) -> bool {
    &&& stream.decoded().len() == 0
    &&& if range.spec_is_full() {
        stream is Lz4
    } else {
        stream.is_segment_of(range)
    }
    &&& decoder_of(stream).is_first()
    &&& !decoder_of(stream).at_eof()
    &&& decoder_of(stream).source().len() == 0
}

/// The bytes that a call gave.
pub open spec fn bytes_of(event: CompressedEvent) -> Seq<u8> {
    match event {
        CompressedEvent::Read { step: StreamStep::Ready(bytes), .. } => bytes@,
        _ => Seq::empty(),
    }
}

/// The bytes that these calls gave, in order.
pub open spec fn delivered(events: Seq<CompressedEvent>) -> Seq<u8>
    decreases events.len(),
{
    if events.len() == 0 {
        Seq::empty()
    } else {
        delivered(events.drop_last()) + bytes_of(events.last())
    }
}

/// Whether a call was a read of something that gave nothing.
pub open spec fn says_end(event: CompressedEvent) -> bool {
    event matches CompressedEvent::Read { max, step: StreamStep::Ready(bytes) } && max > 0
        && bytes@.len() == 0
}

/// Whether `out` is what was read of the range so far.
spec fn keeps_up(stream: BlobReadStream, out: Seq<u8>, range: ByteRange) -> bool {
    let decoder = decoder_of(stream);
    &&& stream.well_formed()
    &&& out == range.select(decoder.drawn())
    &&& match stream {
        BlobReadStream::Lz4(_) => range.spec_is_full(),
        BlobReadStream::Lz4Segment { limit, bytes_to_discard, .. } => stream::segment_matches(
            decoder.drawn(),
            limit,
            bytes_to_discard,
            range,
        ),
        _ => false,
    }
}

/// What may be the source after a call may be it before.
proof fn lemma_source_grows(
    before: BlobReadStream,
    event: CompressedEvent,
    after: BlobReadStream,
    source: Seq<u8>,
)
    requires
        compressed_step(before, event, after),
        may_be_source(after, source),
    ensures
        may_be_source(before, source),
{
    if let CompressedEvent::TakeIn(bytes) = event {
        let old_source = decoder_of(before).source();
        if bytes.len() == 0 {
            assert(old_source + bytes =~= old_source);
        } else {
            assert(old_source =~= (old_source + bytes).take(old_source.len() as int));
            assert(old_source =~= source.take(old_source.len() as int));
        }
    }
}

/// One call keeps up with the range.
proof fn lemma_step_keeps_up(
    before: BlobReadStream,
    event: CompressedEvent,
    after: BlobReadStream,
    out: Seq<u8>,
    range: ByteRange,
    source: Seq<u8>,
    data: Seq<u8>,
)
    requires
        compressed_step(before, event, after),
        keeps_up(before, out, range),
        decoder_of(before).is_first(),
        after.well_formed(),
        event matches CompressedEvent::Read { max, .. } ==> max > 0,
        may_be_source(before, source),
        lz4::unframe(source) == Some(data),
        data.len() <= u64::MAX,
    ensures
        keeps_up(after, out + bytes_of(event), range),
        decoder_of(after).drawn().is_prefix_of(data),
        event matches CompressedEvent::Read { step, .. } ==> !(step is Failed),
        !says_end(event) ==> decoder_of(after).is_first(),
        says_end(event) ==> out + bytes_of(event) == range.select(data),
{
    let first = decoder_of(before);
    let next = decoder_of(after);
    assert(first.rest() =~= first.source());
    assert(first.out() =~= first.drawn());
    assert(first.may_be_rest(source));
    frame::law_decoder_keeps_to_source(first, source);
    if next.is_first() && next.may_be_rest(source) {
        frame::law_decoder_keeps_to_source(next, source);
        assert(next.out() =~= next.drawn());
    }
    assert(next.drawn().skip(0) =~= next.drawn());
    match event {
        CompressedEvent::TakeIn(_) => {
            assert(out + bytes_of(event) =~= out);
        },
        CompressedEvent::Read { max, step } => {
            let bytes = bytes_of(event);
            if bytes.len() == 0 {
                assert(out + bytes =~= out);
            }
            match before {
                BlobReadStream::Lz4(_) => {
                    assert(first.drawn() + bytes =~= next.drawn());
                    assert(range.select(first.drawn()) =~= first.drawn());
                    assert(range.select(next.drawn()) =~= next.drawn());
                },
                BlobReadStream::Lz4Segment { limit, bytes_to_discard, .. } => {
                    if let BlobReadStream::Lz4Segment {
                        limit: next_limit,
                        bytes_to_discard: next_discard,
                        ..
                    } = after {
                        stream::law_segment_advances(
                            (first.drawn(), next.drawn()),
                            (limit, next_limit),
                            (bytes_to_discard, next_discard),
                            bytes,
                            range,
                        );
                        if says_end(event) {
                            stream::law_segment_is_complete(
                                next.drawn(),
                                next_limit,
                                next_discard,
                                data,
                                range,
                            );
                        }
                    }
                },
                _ => {},
            }
        },
    }
}

/// Every state of a run keeps up with the range.
proof fn lemma_run_keeps_up(
    states: Seq<BlobReadStream>,
    events: Seq<CompressedEvent>,
    range: ByteRange,
    source: Seq<u8>,
    data: Seq<u8>,
)
    requires
        compressed_run(states, events),
        begins(states[0], range),
        may_be_source(states.last(), source),
        lz4::unframe(source) == Some(data),
        data.len() <= u64::MAX,
    ensures
        keeps_up(states.last(), delivered(events), range),
        decoder_of(states.last()).drawn().is_prefix_of(data),
        may_be_source(states[0], source),
        events.len() == 0 || !says_end(events.last()) ==> decoder_of(states.last()).is_first(),
        forall|i: int|
            0 <= i < events.len() ==> ((#[trigger] events[i]) matches CompressedEvent::Read {
                step,
                ..
            } ==> !(step is Failed)),
        events.len() > 0 && says_end(events.last()) ==> delivered(events) == range.select(data),
    decreases events.len(),
{
    if events.len() == 0 {
        let drawn = decoder_of(states[0]).drawn();
        assert(drawn =~= Seq::<u8>::empty());
        assert(range.select(drawn) =~= Seq::<u8>::empty());
    } else {
        let n = events.len() - 1;
        let fewer = events.drop_last();
        let earlier = states.drop_last();
        assert(compressed_step(states[n], events[n], states[n + 1]));
        assert(states[n + 1].well_formed());
        assert forall|i: int| 0 <= i < earlier.len() implies (
        #[trigger] earlier[i]).well_formed() by {
            assert(states[i].well_formed());
        }
        assert forall|i: int| 0 <= i < fewer.len() implies compressed_step(
            earlier[i],
            #[trigger] fewer[i],
            earlier[i + 1],
        ) && !says_end(fewer[i]) && (fewer[i] matches CompressedEvent::Read { max, .. } ==> max
            > 0) by {
            assert(events[i] == fewer[i]);
        }
        lemma_source_grows(states[n], events[n], states[n + 1], source);
        lemma_run_keeps_up(earlier, fewer, range, source, data);
        lemma_step_keeps_up(
            states[n],
            events[n],
            states[n + 1],
            delivered(fewer),
            range,
            source,
            data,
        );
        assert forall|i: int| 0 <= i < events.len() implies ((
        #[trigger] events[i]) matches CompressedEvent::Read { step, .. } ==> !(step is Failed)) by {
            if i < n {
                assert(events[i] == fewer[i]);
            }
        }
    }
}

/// A stream of a range of compressed data, read in pieces of any size until a read
/// gives nothing, hands out the range: no read fails, what came out so far is the beginning
/// of what the range selects, and it is all of it once a read gives nothing.
/// `source` is what the source holds, and `data` what it decodes to.
pub proof fn law_compressed_run(
    states: Seq<BlobReadStream>,
    events: Seq<CompressedEvent>,
    range: ByteRange,
    source: Seq<u8>,
    data: Seq<u8>,
)
    requires
        compressed_run(states, events),
        begins(states[0], range),
        may_be_source(states.last(), source),
        lz4::unframe(source) == Some(data),
        data.len() <= u64::MAX,
    ensures
        forall|i: int|
            0 <= i < events.len() ==> ((#[trigger] events[i]) matches CompressedEvent::Read {
                step,
                ..
            } ==> !(step is Failed)),
        delivered(events).is_prefix_of(range.select(data)),
        events.len() > 0 && says_end(events.last()) ==> delivered(events) == range.select(data),
{
    lemma_run_keeps_up(states, events, range, source, data);
    let drawn = decoder_of(states.last()).drawn();
    assert(range.select(drawn) =~= range.select(data).take(range.select(drawn).len() as int));
}

/// What was written to an encoder that was shut down comes out again: a stream of a
/// range of the compressed bytes hands out that range of the data.
pub proof fn law_encoded_is_streamed(
    encoder: AsyncFrameEncoder,
    states: Seq<BlobReadStream>,
    events: Seq<CompressedEvent>,
    range: ByteRange,
)
    requires
        encoder.well_formed(),
        encoder.is_shut_down(),
        encoder.waiting().len() == 0,
        encoder.data().len() <= u64::MAX,
        compressed_run(states, events),
        begins(states[0], range),
        may_be_source(states.last(), encoder.delivered()),
        events.len() > 0,
        says_end(events.last()),
    ensures
        delivered(events) == range.select(encoder.data()),
{
    frame::law_encoded_decodes(encoder);
    law_compressed_run(states, events, range, encoder.delivered(), encoder.data());
}

/// One call on a stream of the chunks of pages.
#[allow(inconsistent_fields)]
pub enum PagedEvent {
    /// A read of at most `max` bytes, and what came of it.
    Read { max: nat, step: StreamStep },
    /// A chunk was to be fetched, and at most `max` bytes of it read.
    Chunk { fetched: Fetched<bytes::Bytes>, max: nat, step: StreamStep },
    /// A page was to be fetched.
    Page { fetched: Fetched<()>, step: StreamStep },
}

/// What came of a call.
pub open spec fn paged_outcome(event: PagedEvent) -> StreamStep {
    match event {
        PagedEvent::Read { step, .. } => step,
        PagedEvent::Chunk { step, .. } => step,
        PagedEvent::Page { step, .. } => step,
    }
}

/// The bytes that a call gave.
pub open spec fn paged_bytes_of(event: PagedEvent) -> Seq<u8> {
    match paged_outcome(event) {
        StreamStep::Ready(bytes) => bytes@,
        _ => Seq::empty(),
    }
}

/// The bytes that these calls gave, in order.
pub open spec fn paged_delivered(events: Seq<PagedEvent>) -> Seq<u8>
    decreases events.len(),
{
    if events.len() == 0 {
        Seq::empty()
    } else {
        paged_delivered(events.drop_last()) + paged_bytes_of(events.last())
    }
}

/// Whether a call gave nothing, though it could have given something.
pub open spec fn paged_says_end(event: PagedEvent) -> bool {
    &&& paged_outcome(event) matches StreamStep::Ready(bytes) && bytes@.len() == 0
    &&& match event {
        PagedEvent::Read { max, .. } => max > 0,
        PagedEvent::Chunk { max, .. } => max > 0,
        PagedEvent::Page { .. } => true,
    }
}

/// What one call makes of a stream of chunks.
pub open spec fn paged_step(before: PagedChunks, event: PagedEvent, after: PagedChunks) -> bool {
    match event {
        PagedEvent::Read { max, step } => stream::chunks_read(before, after, max, step),
        PagedEvent::Chunk { fetched, max, step } => {
            &&& before.at_hand().len() == 0
            &&& before.in_page
            &&& stream::chunk_taken(before, after, fetched, max, step)
        },
        PagedEvent::Page { fetched, step } => {
            &&& before.at_hand().len() == 0
            &&& !before.in_page
            &&& stream::page_taken(before, after, fetched, step)
        },
    }
}

/// Whether a call fetches what comes next in `pages`, where the number of the page
/// and of the chunk in it that come next were `before` and are then `after`.
pub open spec fn fetches(
    pages: Seq<Seq<Seq<u8>>>,
    before: (int, int),
    event: PagedEvent,
    after: (int, int),
) -> bool {
    match event {
        PagedEvent::Read { .. } => after == before,
        PagedEvent::Chunk { fetched, .. } => match fetched {
            Fetched::Got(chunk) => {
                &&& before.1 < pages[before.0].len()
                &&& bytes_buf::content(chunk) == pages[before.0][before.1]
                &&& after == (before.0, before.1 + 1)
            },
            Fetched::Failed(_) => false,
            Fetched::End => before.1 == pages[before.0].len() && after == before,
        },
        PagedEvent::Page { fetched, .. } => match fetched {
            Fetched::Got(_) => before.0 + 1 < pages.len() && after == (before.0 + 1, 0int),
            Fetched::Failed(_) => false,
            Fetched::End => before.0 + 1 == pages.len() && after == before,
        },
    }
}

/// Whether a stream of chunks goes through these states by these calls, while the
/// pages are fetched in order.
pub open spec fn paged_run(
    pages: Seq<Seq<Seq<u8>>>,
    states: Seq<PagedChunks>,
    places: Seq<(int, int)>,
    events: Seq<PagedEvent>,
) -> bool {
    &&& states.len() == events.len() + 1
    &&& places.len() == events.len() + 1
    &&& forall|i: int|
        0 <= i < events.len() ==> paged_step(states[i], #[trigger] events[i], states[i + 1])
            && fetches(pages, places[i], events[i], places[i + 1])
}

/// The bytes of chunks, in order.
pub open spec fn joined(chunks: Seq<Seq<u8>>) -> Seq<u8>
    decreases chunks.len(),
{
    if chunks.len() == 0 {
        Seq::empty()
    } else {
        joined(chunks.drop_last()) + chunks.last()
    }
}

/// The bytes of all chunks of pages, in order.
pub open spec fn all_joined(pages: Seq<Seq<Seq<u8>>>) -> Seq<u8>
    decreases pages.len(),
{
    if pages.len() == 0 {
        Seq::empty()
    } else {
        all_joined(pages.drop_last()) + joined(pages.last())
    }
}

/// The bytes of all chunks before the given place.
spec fn joined_to(pages: Seq<Seq<Seq<u8>>>, place: (int, int)) -> Seq<u8> {
    all_joined(pages.take(place.0)) + joined(pages[place.0].take(place.1))
}

/// Whether `out` and what is at hand are all chunks before the place.
spec fn keeps_place(
    pages: Seq<Seq<Seq<u8>>>,
    chunks: PagedChunks,
    place: (int, int),
    out: Seq<u8>,
) -> bool {
    &&& 0 <= place.0 < pages.len()
    &&& 0 <= place.1 <= pages[place.0].len()
    &&& out + chunks.at_hand() == joined_to(pages, place)
    &&& !chunks.in_page ==> place.1 == pages[place.0].len()
}

/// The bytes before the next page are those to the end of this one.
proof fn lemma_page_ends(pages: Seq<Seq<Seq<u8>>>, page: int)
    requires
        0 <= page < pages.len(),
    ensures
        joined_to(pages, (page, pages[page].len() as int)) == all_joined(pages.take(page + 1)),
{
    assert(pages.take(page + 1).drop_last() =~= pages.take(page));
    assert(pages[page].take(pages[page].len() as int) =~= pages[page]);
}

/// One call keeps its place.
proof fn lemma_paged_step(
    pages: Seq<Seq<Seq<u8>>>,
    before: PagedChunks,
    place: (int, int),
    event: PagedEvent,
    after: PagedChunks,
    next: (int, int),
    out: Seq<u8>,
)
    requires
        paged_step(before, event, after),
        fetches(pages, place, event, next),
        keeps_place(pages, before, place, out),
    ensures
        keeps_place(pages, after, next, out + paged_bytes_of(event)),
        !(paged_outcome(event) is Failed),
        paged_says_end(event) ==> out + paged_bytes_of(event) == all_joined(pages),
{
    let bytes = paged_bytes_of(event);
    match event {
        PagedEvent::Read { .. } => {
            assert(out + bytes + after.at_hand() =~= out + (bytes + after.at_hand()));
            assert(bytes + after.at_hand() =~= before.at_hand());
        },
        PagedEvent::Chunk { fetched, .. } => {
            assert(before.at_hand() =~= Seq::<u8>::empty());
            if let Fetched::Got(chunk) = fetched {
                let page = pages[place.0];
                assert(page.take(place.1 + 1).drop_last() =~= page.take(place.1));
                assert(bytes + after.at_hand() =~= bytes_buf::content(chunk));
                assert(out + bytes + after.at_hand() =~= out + bytes_buf::content(chunk));
                assert(joined_to(pages, next) =~= joined_to(pages, place) + bytes_buf::content(
                    chunk,
                ));
                assert(out + before.at_hand() =~= out);
            } else {
                assert(out + bytes + after.at_hand() =~= out + before.at_hand());
            }
        },
        PagedEvent::Page { fetched, .. } => {
            assert(before.at_hand() =~= Seq::<u8>::empty());
            assert(bytes =~= Seq::<u8>::empty());
            assert(out + bytes =~= out + before.at_hand());
            assert(out + bytes + after.at_hand() =~= out + before.at_hand());
            lemma_page_ends(pages, place.0);
            if let Fetched::Got(_) = fetched {
                assert(pages[next.0].take(0) =~= Seq::<Seq<u8>>::empty());
                assert(joined_to(pages, next) =~= all_joined(pages.take(next.0)));
            } else {
                assert(pages.take(place.0 + 1) =~= pages);
            }
        },
    }
}

/// Every state of a run keeps its place.
proof fn lemma_paged_run(
    pages: Seq<Seq<Seq<u8>>>,
    states: Seq<PagedChunks>,
    places: Seq<(int, int)>,
    events: Seq<PagedEvent>,
)
    requires
        paged_run(pages, states, places, events),
        pages.len() > 0,
        pages[0].len() > 0,
        states[0].in_page,
        states[0].at_hand() == pages[0][0],
        places[0] == (0int, 1int),
    ensures
        keeps_place(pages, states.last(), places.last(), paged_delivered(events)),
        forall|i: int|
            0 <= i < events.len() ==> !(paged_outcome(#[trigger] events[i]) is Failed),
        events.len() > 0 && paged_says_end(events.last()) ==> paged_delivered(events)
            == all_joined(pages),
    decreases events.len(),
{
    if events.len() == 0 {
        let first = pages[0].take(1);
        assert(first.drop_last() =~= Seq::<Seq<u8>>::empty());
        assert(pages.take(0) =~= Seq::<Seq<Seq<u8>>>::empty());
        assert(joined(first.drop_last()) =~= Seq::<u8>::empty());
        assert(joined(first) =~= pages[0][0]);
        assert(joined_to(pages, (0, 1)) =~= pages[0][0]);
        assert(paged_delivered(events) + states[0].at_hand() =~= pages[0][0]);
    } else {
        let n = events.len() - 1;
        let fewer = events.drop_last();
        let earlier = states.drop_last();
        let passed = places.drop_last();
        assert(paged_step(states[n], events[n], states[n + 1]));
        assert forall|i: int| 0 <= i < fewer.len() implies paged_step(
            earlier[i],
            #[trigger] fewer[i],
            earlier[i + 1],
        ) && fetches(pages, passed[i], fewer[i], passed[i + 1]) by {
            assert(events[i] == fewer[i]);
        }
        lemma_paged_run(pages, earlier, passed, fewer);
        lemma_paged_step(
            pages,
            states[n],
            places[n],
            events[n],
            states[n + 1],
            places[n + 1],
            paged_delivered(fewer),
        );
        assert forall|i: int| 0 <= i < events.len() implies !(paged_outcome(
            #[trigger] events[i],
        ) is Failed) by {
            if i < n {
                assert(events[i] == fewer[i]);
            }
        }
    }
}

/// The bytes of the first chunks are the beginning of those of all.
proof fn lemma_joined_prefix(chunks: Seq<Seq<u8>>, n: int)
    requires
        0 <= n <= chunks.len(),
    ensures
        joined(chunks.take(n)).is_prefix_of(joined(chunks)),
    decreases chunks.len() - n,
{
    if n == chunks.len() {
        assert(chunks.take(n) =~= chunks);
    } else {
        lemma_joined_prefix(chunks, n + 1);
        assert(chunks.take(n + 1).drop_last() =~= chunks.take(n));
    }
}

/// The bytes of the first pages are the beginning of those of all.
proof fn lemma_all_joined_prefix(pages: Seq<Seq<Seq<u8>>>, n: int)
    requires
        0 <= n <= pages.len(),
    ensures
        all_joined(pages.take(n)).is_prefix_of(all_joined(pages)),
    decreases pages.len() - n,
{
    if n == pages.len() {
        assert(pages.take(n) =~= pages);
    } else {
        lemma_all_joined_prefix(pages, n + 1);
        assert(pages.take(n + 1).drop_last() =~= pages.take(n));
    }
}

/// A stream of the chunks of pages, read however often and in pieces of any size,
/// hands out all chunks of all pages in order: what came out so far is their
/// beginning, it is all of them once a call gives nothing, and no empty chunk or
/// page is taken for the end. No call fails while the pages can be fetched.
pub proof fn law_paged_run(
    pages: Seq<Seq<Seq<u8>>>,
    states: Seq<PagedChunks>,
    places: Seq<(int, int)>,
    events: Seq<PagedEvent>,
)
    requires
        paged_run(pages, states, places, events),
        pages.len() > 0,
        pages[0].len() > 0,
        states[0].in_page,
        states[0].at_hand() == pages[0][0],
        places[0] == (0int, 1int),
    ensures
        forall|i: int|
            0 <= i < events.len() ==> !(paged_outcome(#[trigger] events[i]) is Failed),
        paged_delivered(events).is_prefix_of(all_joined(pages)),
        events.len() > 0 && paged_says_end(events.last()) ==> paged_delivered(events)
            == all_joined(pages),
{
    lemma_paged_run(pages, states, places, events);
    let place = places.last();
    let out = paged_delivered(events);
    let page = pages[place.0];
    lemma_joined_prefix(page, place.1);
    lemma_all_joined_prefix(pages, place.0 + 1);
    assert(pages.take(place.0 + 1).drop_last() =~= pages.take(place.0));
    assert(out =~= joined_to(pages, place).take(out.len() as int));
    let so_far = all_joined(pages.take(place.0));
    assert(joined_to(pages, place).is_prefix_of(so_far + joined(page)));
}

/// A read of a stream of compressed data is one step of a run, and so is taking in what
/// came from its source; a stream of a range is made to begin one.
pub proof fn law_calls_make_a_run(
    before: BlobReadStream,
    after: BlobReadStream,
    max: nat,
    step: StreamStep,
    next: BlobReadStream,
    bytes: Vec<u8>,
    read: Option<Vec<u8>>,
    range: ByteRange,
)
    requires
        before is Lz4 || before is Lz4Segment,
    ensures
        stream::stream_reads(before, after, max, step) ==> compressed_step(
            before,
            CompressedEvent::Read { max, step },
            after,
        ),
        stream::stream_takes_in(before, next, bytes, read) && (bytes@.len() > 0 ==> !decoder_of(
            before,
        ).at_eof()) ==> compressed_step(before, CompressedEvent::TakeIn(bytes@), next)
            && read is None,
        stream::begins_range(before, range) ==> begins(before, range),
{
}

/// A read of a stream in pages is one step of a run.
pub proof fn law_paged_read_makes_a_run(
    before: PagedChunks,
    after: BlobReadStream,
    max: nat,
    step: StreamStep,
)
    requires
        stream::stream_reads(BlobReadStream::Azure(before), after, max, step),
    ensures
        after matches BlobReadStream::Azure(next) && stream::chunks_read(before, next, max, step),
{
}

} // verus!
