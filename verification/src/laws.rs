//! What holds of the decoders: of the streaming decoder however the body is
//! cut into chunks, and of the reader of complete responses.

use crate::decode::content_blocks_of;
use crate::error::ApiErrorView;
use crate::frame::{
    first_separator, lemma_first_separator_extends, lemma_next_separator, separator_at, LINE_FEED,
};
use crate::json::{member, JsonView};
use crate::response::{all_have_text, body_outcome, first_text};
use crate::stream::{
    concat, delivered_text, drain, frame_outcome, joined, DecoderState, Drained, EventView,
    FrameOutcome, StreamStatus,
};
use crate::types::ContentBlockView;
use vstd::prelude::*;
use vstd::string::*;
use vstd::utf8::{
    decode_utf8, encode_utf8, encode_utf8_decode_utf8, encode_utf8_valid_utf8, is_ascii_chars,
    is_ascii_chars_encode_utf8, valid_utf8,
};

verus! {

/// A pass leaves a well-formed state: no complete frame waits while the
/// stream goes on, and nothing waits once it has ended.
pub proof fn lemma_drain_leaves_no_frame(verbose: bool, buffer: Seq<u8>)
    ensures
        match drain(verbose, buffer).status {
            StreamStatus::Receiving => first_separator(drain(verbose, buffer).pending) is None,
            _ => drain(verbose, buffer).pending.len() == 0,
        },
    decreases buffer.len(),
{
    lemma_next_separator(buffer, 0);
    if let Some(i) = first_separator(buffer) {
        lemma_drain_leaves_no_frame(verbose, buffer.skip(i + 2));
    }
}

/// A pass over a buffer with more bytes behind it is the pass over the
/// buffer, followed, while the stream goes on, by a pass over what it left
/// and the new bytes.
pub proof fn lemma_drain_extends(verbose: bool, buffer: Seq<u8>, more: Seq<u8>)
    ensures
        drain(verbose, buffer + more) == match drain(verbose, buffer).status {
            StreamStatus::Receiving => joined(
                drain(verbose, buffer).events,
                drain(verbose, drain(verbose, buffer).pending + more),
            ),
            _ => drain(verbose, buffer),
        },
    decreases buffer.len(),
{
    let whole = buffer + more;
    match first_separator(buffer) {
        None => {
            assert(Seq::<EventView>::empty() + drain(verbose, whole).events =~= drain(
                verbose,
                whole,
            ).events);
        },
        Some(i) => {
            lemma_next_separator(buffer, 0);
            lemma_first_separator_extends(buffer, more);
            assert(whole.take(i) =~= buffer.take(i));
            assert(whole.skip(i + 2) =~= buffer.skip(i + 2) + more);
            lemma_drain_extends(verbose, buffer.skip(i + 2), more);
            let rest = drain(verbose, buffer.skip(i + 2));
            match frame_outcome(verbose, buffer.take(i)) {
                FrameOutcome::Emit(event) => {
                    if rest.status is Receiving {
                        let tail = drain(verbose, rest.pending + more);
                        assert(seq![event] + (rest.events + tail.events) =~= (seq![event]
                            + rest.events) + tail.events);
                    }
                },
                _ => {},
            }
        },
    }
}

/// Two chunks, one after the other, leave the decoder where their bytes as
/// one chunk leave it, and complete the same events in the same order.
pub proof fn lemma_feed_split(state: DecoderState, first: Seq<u8>, second: Seq<u8>)
    ensures
        state.feed(first + second) == (
            state.feed(first).0.feed(second).0,
            state.feed(first).1 + state.feed(first).0.feed(second).1,
        ),
{
    match state.status {
        StreamStatus::Receiving => {
            lemma_drain_extends(state.verbose, state.pending + first, second);
            assert((state.pending + first) + second =~= state.pending + (first + second));
            let drained = drain(state.verbose, state.pending + first);
            if !(drained.status is Receiving) {
                assert(drained.events + Seq::<EventView>::empty() =~= drained.events);
            }
        },
        _ => {
            assert(Seq::<EventView>::empty() + Seq::<EventView>::empty() =~= Seq::<
                EventView,
            >::empty());
        },
    }
}

/// A chunk leaves a well-formed state.
pub proof fn lemma_feed_keeps_wf(state: DecoderState, chunk: Seq<u8>)
    requires
        state.wf(),
    ensures
        state.feed(chunk).0.wf(),
{
    if state.status is Receiving {
        lemma_drain_leaves_no_frame(state.verbose, state.pending + chunk);
    }
}

/// Chunks leave a well-formed state.
pub proof fn lemma_feed_all_keeps_wf(state: DecoderState, chunks: Seq<Seq<u8>>)
    requires
        state.wf(),
    ensures
        state.feed_all(chunks).0.wf(),
    decreases chunks.len(),
{
    if chunks.len() > 0 {
        lemma_feed_all_keeps_wf(state, chunks.drop_last());
        lemma_feed_keeps_wf(state.feed_all(chunks.drop_last()).0, chunks.last());
    }
}

/// However a body is cut into chunks, the decoder ends where the whole
/// body as one chunk leaves it, with the same events in the same order.
pub proof fn lemma_chunks_as_one(state: DecoderState, chunks: Seq<Seq<u8>>)
    requires
        state.wf(),
    ensures
        state.feed_all(chunks) == state.feed(concat(chunks)),
    decreases chunks.len(),
{
    if chunks.len() == 0 {
        if state.status is Receiving {
            assert(state.pending + Seq::<u8>::empty() =~= state.pending);
        }
    } else {
        lemma_chunks_as_one(state, chunks.drop_last());
        lemma_feed_split(state, concat(chunks.drop_last()), chunks.last());
    }
}

/// Two ways of cutting one body into chunks give the same events in the
/// same order, leave the decoder in the same state, and so hand the same
/// text to the callback.
pub proof fn lemma_split_invariance(state: DecoderState, one: Seq<Seq<u8>>, other: Seq<Seq<u8>>)
    requires
        state.wf(),
        concat(one) == concat(other),
    ensures
        state.feed_all(one) == state.feed_all(other),
        delivered_text(state.feed_all(one).1) == delivered_text(state.feed_all(other).1),
{
    lemma_chunks_as_one(state, one);
    lemma_chunks_as_one(state, other);
}

/// A decoder that starts afresh gives the same events for one body, however
/// the body is cut into chunks, and so hands the same text to the callback.
pub proof fn lemma_split_invariance_from_start(
    verbose: bool,
    one: Seq<Seq<u8>>,
    other: Seq<Seq<u8>>,
)
    requires
        concat(one) == concat(other),
    ensures
        DecoderState::initial(verbose).feed_all(one) == DecoderState::initial(verbose).feed_all(
            other,
        ),
        delivered_text(DecoderState::initial(verbose).feed_all(one).1) == delivered_text(
            DecoderState::initial(verbose).feed_all(other).1,
        ),
{
    lemma_split_invariance(DecoderState::initial(verbose), one, other);
}

/// A stream that has ended takes nothing from a further chunk and gives
/// nothing for it.
pub proof fn lemma_ended_stream_ignores(state: DecoderState, chunk: Seq<u8>)
    requires
        !(state.status is Receiving),
    ensures
        state.feed(chunk) == (state, Seq::<EventView>::empty()),
{
}

/// The sentinel frame ends the stream, in either mode: the pass gives the
/// events of the frames before it and nothing for the sentinel or for what
/// stands behind it.
pub proof fn lemma_sentinel_ends_stream(verbose: bool, buffer: Seq<u8>)
    requires
        first_separator(buffer) matches Some(i) && valid_utf8(buffer.take(i)) && decode_utf8(
            buffer.take(i),
        ) == "data: [DONE]"@,
    ensures
        drain(verbose, buffer) == (Drained {
            events: Seq::empty(),
            status: StreamStatus::Done,
            pending: Seq::empty(),
        }),
{
}

/// Whether `frame` can stand in a body as one frame: it holds no blank
/// line and does not end in a line feed.
pub open spec fn is_frame(frame: Seq<u8>) -> bool {
    &&& forall|j: int|
        0 <= j && j + 1 < frame.len() ==> !(#[trigger] frame[j] == LINE_FEED && frame[j + 1]
            == LINE_FEED)
    &&& (frame.len() > 0 ==> frame.last() != LINE_FEED)
}

/// `frame` with the separator behind it.
pub open spec fn framed(frame: Seq<u8>) -> Seq<u8> {
    frame + seq![LINE_FEED, LINE_FEED]
}

/// A pass reads a body frame by frame: the first frame decides whether the
/// stream ends there, and otherwise what comes before the events of the
/// rest.
pub proof fn lemma_first_frame(verbose: bool, frame: Seq<u8>, rest: Seq<u8>)
    requires
        is_frame(frame),
    ensures
        drain(verbose, framed(frame) + rest) == match frame_outcome(verbose, frame) {
            FrameOutcome::Fail => Drained {
                events: Seq::empty(),
                status: StreamStatus::Failed,
                pending: Seq::empty(),
            },
            FrameOutcome::Stop => Drained {
                events: Seq::empty(),
                status: StreamStatus::Done,
                pending: Seq::empty(),
            },
            FrameOutcome::Skip => drain(verbose, rest),
            FrameOutcome::Emit(event) => joined(seq![event], drain(verbose, rest)),
        },
{
    let buffer = framed(frame) + rest;
    let at = frame.len() as int;
    lemma_next_separator(buffer, 0);
    assert(separator_at(buffer, at));
    assert forall|j: int| 0 <= j < at implies !separator_at(buffer, j) by {
        assert(buffer[j] == frame[j]);
        if j + 1 < at {
            assert(buffer[j + 1] == frame[j + 1]);
        }
    }
    assert(buffer.take(at) =~= frame);
    assert(buffer.skip(at + 2) =~= rest);
}

/// The bytes of the sentinel frame.
pub open spec fn sentinel() -> Seq<u8> {
    encode_utf8("data: [DONE]"@)
}

/// A body that begins with the sentinel frame gives no event, whatever
/// stands behind the sentinel, and its stream is complete.
pub proof fn lemma_sentinel_first(verbose: bool, rest: Seq<u8>)
    ensures
        drain(verbose, framed(sentinel()) + rest) == (Drained {
            events: Seq::empty(),
            status: StreamStatus::Done,
            pending: Seq::empty(),
        }),
{
    let chars = "data: [DONE]"@;
    reveal_strlit("data: [DONE]");
    assert(is_ascii_chars(chars));
    is_ascii_chars_encode_utf8(chars);
    encode_utf8_valid_utf8(chars);
    encode_utf8_decode_utf8(chars);
    assert forall|j: int| 0 <= j < sentinel().len() implies sentinel()[j] != LINE_FEED by {
        assert(chars[j] as u8 == sentinel()[j]);
    }
    lemma_first_frame(verbose, sentinel(), rest);
}

/// The text that the callback has received after two runs of events is the
/// text after the first run and then the text of the second.
pub proof fn lemma_delivered_text_adds(events: Seq<EventView>, more: Seq<EventView>)
    ensures
        delivered_text(events + more) == delivered_text(events) + delivered_text(more),
    decreases more.len(),
{
    if more.len() == 0 {
        assert(events + more =~= events);
        assert(delivered_text(events) + Seq::<char>::empty() =~= delivered_text(events));
    } else {
        assert((events + more).drop_last() =~= events + more.drop_last());
        lemma_delivered_text_adds(events, more.drop_last());
        match more.last() {
            EventView::Fragment(text) => {
                assert(delivered_text(events) + (delivered_text(more.drop_last()) + text) =~= (
                delivered_text(events) + delivered_text(more.drop_last())) + text);
            },
            EventView::Unparsed(_) => {},
        }
    }
}

/// A frame that holds no well-formed event does not end the stream: with
/// such a frame between two frames that carry text, the callback receives
/// both texts, in their order, before what the rest of the body gives.
pub proof fn lemma_malformed_frame_between_two(
    verbose: bool,
    first: Seq<u8>,
    malformed: Seq<u8>,
    second: Seq<u8>,
    rest: Seq<u8>,
)
    requires
        is_frame(first),
        is_frame(malformed),
        is_frame(second),
        frame_outcome(verbose, first) matches FrameOutcome::Emit(EventView::Fragment(_)),
        frame_outcome(verbose, malformed) matches FrameOutcome::Emit(EventView::Unparsed(_)),
        frame_outcome(verbose, second) matches FrameOutcome::Emit(EventView::Fragment(_)),
    ensures
        drain(verbose, framed(first) + framed(malformed) + framed(second) + rest) == joined(
            seq![
                frame_outcome(verbose, first)->Emit_0,
                frame_outcome(verbose, malformed)->Emit_0,
                frame_outcome(verbose, second)->Emit_0,
            ],
            drain(verbose, rest),
        ),
        delivered_text(
            drain(verbose, framed(first) + framed(malformed) + framed(second) + rest).events,
        ) == frame_outcome(verbose, first)->Emit_0->Fragment_0 + frame_outcome(
            verbose,
            second,
        )->Emit_0->Fragment_0 + delivered_text(drain(verbose, rest).events),
{
    let one = frame_outcome(verbose, first)->Emit_0;
    let two = frame_outcome(verbose, malformed)->Emit_0;
    let three = frame_outcome(verbose, second)->Emit_0;
    let after_two = framed(second) + rest;
    let after_one = framed(malformed) + after_two;
    let tail = drain(verbose, rest);
    assert(framed(first) + framed(malformed) + framed(second) + rest =~= framed(first)
        + after_one);
    lemma_first_frame(verbose, first, after_one);
    lemma_first_frame(verbose, malformed, after_two);
    lemma_first_frame(verbose, second, rest);
    assert(seq![one] + (seq![two] + (seq![three] + tail.events)) =~= seq![one, two, three]
        + tail.events);
    lemma_delivered_text_adds(seq![one, two, three], tail.events);
    let head = seq![one, two, three];
    assert(head.drop_last() =~= seq![one, two]);
    assert(seq![one, two].drop_last() =~= seq![one]);
    assert(seq![one].drop_last() =~= Seq::<EventView>::empty());
    assert(delivered_text(Seq::<EventView>::empty()) =~= Seq::<char>::empty());
    assert(seq![one].last() == one);
    assert(delivered_text(seq![one]) =~= one->Fragment_0);
    assert(seq![one, two].last() == two);
    assert(head.last() == three);
    assert(delivered_text(seq![one, two]) == delivered_text(seq![one]));
    assert(delivered_text(head) == delivered_text(seq![one, two]) + three->Fragment_0);
}

/// Among blocks of which none has the type `text` there is no first text.
pub proof fn lemma_no_text_block(blocks: Seq<ContentBlockView>)
    requires
        forall|i: int| 0 <= i < blocks.len() ==> (#[trigger] blocks[i]).content_type != "text"@,
    ensures
        first_text(blocks) is None,
    decreases blocks.len(),
{
    if blocks.len() > 0 {
        assert(blocks[0].content_type != "text"@);
        assert forall|i: int| 0 <= i < blocks.skip(1).len() implies (#[trigger] blocks.skip(
            1,
        )[i]).content_type != "text"@ by {
            assert(blocks.skip(1)[i] == blocks[i + 1]);
        }
        lemma_no_text_block(blocks.skip(1));
    }
}

/// A well-formed response without a block of type `text` gives the callback
/// nothing, and is no failure.
pub proof fn lemma_response_without_text_block(j: JsonView, body: Seq<char>)
    requires
        j is Object,
        member(j, "content"@) matches Some(JsonView::Array(items)) && content_blocks_of(items)
            matches Some(blocks) && all_have_text(blocks) && forall|i: int|
            0 <= i < blocks.len() ==> (#[trigger] blocks[i]).content_type != "text"@,
    ensures
        body_outcome(Some(j), body, false, false) == Ok::<Option<Seq<char>>, ApiErrorView>(None),
{
    let items = member(j, "content"@)->0->Array_0;
    lemma_no_text_block(content_blocks_of(items)->0);
}

} // verus!
