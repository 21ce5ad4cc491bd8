//! The streaming decoder: from the byte chunks of a response body, however
//! they are cut, to the text fragments that its frames carry.

use crate::decode::chunk_of;
use crate::error::{ApiError, ApiErrorView};
use crate::frame::{find_separator, first_separator, lemma_next_separator};
use crate::json::{parsed_json, Json, JsonView};
use crate::text::{chars_of, payload_of, payload_start, same_text};
use crate::types::AnthropicChatCompletionChunk;
use vstd::prelude::*;
use vstd::slice::{slice_subrange, slice_to_vec};
use vstd::string::*;
use vstd::utf8::{decode_utf8, valid_utf8};

verus! {

/// What one frame gives to the caller.
#[derive(Debug, Clone, PartialEq, Eq)]
pub enum StreamEvent {
    /// Text for the callback: the text of a delta or, in verbose mode, a
    /// whole frame.
    Fragment(String),
    /// The payload of a frame that holds no well-formed event. The stream
    /// goes on.
    Unparsed(String),
}

pub enum EventView {
    Fragment(Seq<char>),
    Unparsed(Seq<char>),
}

impl View for StreamEvent {
    type V = EventView;

    open spec fn view(&self) -> EventView {
        match self {
            StreamEvent::Fragment(text) => EventView::Fragment(text@),
            StreamEvent::Unparsed(payload) => EventView::Unparsed(payload@),
        }
    }
}

/// The views of `events`, in their order.
pub open spec fn events_view(events: Seq<StreamEvent>) -> Seq<EventView> {
    events.map_values(|e: StreamEvent| e@)
}

/// What the decoder does on one frame.
#[derive(Debug, Clone, PartialEq, Eq)]
pub enum FrameAction {
    /// The frame is no valid UTF-8: the stream has failed.
    Fail,
    /// The frame is the sentinel: the stream is complete.
    Stop,
    /// The frame gives nothing to the caller.
    Skip,
    /// The frame gives one event to the caller.
    Emit(StreamEvent),
}

pub enum FrameOutcome {
    Fail,
    Stop,
    Skip,
    Emit(EventView),
}

impl View for FrameAction {
    type V = FrameOutcome;

    open spec fn view(&self) -> FrameOutcome {
        match self {
            FrameAction::Fail => FrameOutcome::Fail,
            FrameAction::Stop => FrameOutcome::Stop,
            FrameAction::Skip => FrameOutcome::Skip,
            FrameAction::Emit(event) => FrameOutcome::Emit(event@),
        }
    }
}

/// What the frame with this payload gives, once the payload has been read
/// as JSON: the text of the event's delta where the document is a
/// well-formed event with a delta that has a text, and the text is not
/// empty; nothing for another well-formed event; the payload itself where
/// there is no document or no well-formed event in it.
pub open spec fn document_outcome(document: Option<JsonView>, payload: Seq<char>) -> FrameOutcome {
    match document {
        None => FrameOutcome::Emit(EventView::Unparsed(payload)),
        Some(j) => match chunk_of(j) {
            None => FrameOutcome::Emit(EventView::Unparsed(payload)),
            Some(chunk) => match chunk.delta {
                Some(delta) => match delta.text {
                    Some(text) => if text.len() > 0 {
                        FrameOutcome::Emit(EventView::Fragment(text))
                    } else {
                        FrameOutcome::Skip
                    },
                    None => FrameOutcome::Skip,
                },
                None => FrameOutcome::Skip,
            },
        },
    }
}

/// What the frame with the text `text` gives. The sentinel ends the stream
/// in either mode. In verbose mode every other frame is handed on whole.
pub open spec fn text_outcome(verbose: bool, text: Seq<char>) -> FrameOutcome {
    if text == "data: [DONE]"@ {
        FrameOutcome::Stop
    } else if verbose {
        FrameOutcome::Emit(EventView::Fragment(text))
    } else {
        document_outcome(parsed_json(payload_of(text)), payload_of(text))
    }
}

/// What the frame with the bytes `frame` gives.
pub open spec fn frame_outcome(verbose: bool, frame: Seq<u8>) -> FrameOutcome {
    if valid_utf8(frame) {
        text_outcome(verbose, decode_utf8(frame))
    } else {
        FrameOutcome::Fail
    }
}

/// Where a streamed response stands.
#[derive(Debug, Clone, Copy, PartialEq, Eq)]
pub enum StreamStatus {
    /// More frames may come.
    Receiving,
    /// The sentinel has come, or the body has ended.
    Done,
    /// A frame was no valid UTF-8.
    Failed,
}

/// What a pass over a buffer leaves: the events of its complete frames, up
/// to the frame that ends the stream, if there is one; where the stream
/// then stands; and the bytes that wait for more.
pub struct Drained {
    pub events: Seq<EventView>,
    pub status: StreamStatus,
    pub pending: Seq<u8>,
}

/// One pass over `buffer`: frame after frame is cut off at its separator
/// and read, until no separator is left or a frame ends the stream. Nothing
/// is kept of a buffer whose stream has ended.
pub open spec fn drain(verbose: bool, buffer: Seq<u8>) -> Drained
    decreases buffer.len(),
    via drain_terminates
{
    match first_separator(buffer) {
        None => Drained { events: Seq::empty(), status: StreamStatus::Receiving, pending: buffer },
        Some(i) => match frame_outcome(verbose, buffer.take(i)) {
            FrameOutcome::Fail => Drained {
                events: Seq::empty(),
                status: StreamStatus::Failed,
                pending: Seq::empty(),
            },
            FrameOutcome::Stop => Drained {
                events: Seq::empty(),
                status: StreamStatus::Done,
                pending: Seq::empty(),
            },
            FrameOutcome::Skip => drain(verbose, buffer.skip(i + 2)),
            FrameOutcome::Emit(event) => {
                let rest = drain(verbose, buffer.skip(i + 2));
                joined(seq![event], rest)
            },
        },
    }
}

/// `drained`, with `events` before its own.
pub open spec fn joined(events: Seq<EventView>, drained: Drained) -> Drained {
    Drained { events: events + drained.events, status: drained.status, pending: drained.pending }
}

#[via_fn]
proof fn drain_terminates(verbose: bool, buffer: Seq<u8>) {
    lemma_next_separator(buffer, 0);
}

/// The state of a decoder.
pub struct DecoderState {
    pub verbose: bool,
    pub status: StreamStatus,
    pub pending: Seq<u8>,
}

impl DecoderState {
    /// The state before the first chunk.
    pub open spec fn initial(verbose: bool) -> DecoderState {
        DecoderState { verbose, status: StreamStatus::Receiving, pending: Seq::empty() }
    }

    /// Between two chunks the buffer holds no complete frame, and nothing
    /// once the stream has ended.
    pub open spec fn wf(self) -> bool {
        match self.status {
            StreamStatus::Receiving => first_separator(self.pending) is None,
            _ => self.pending.len() == 0,
        }
    }

    /// The state after the chunk `chunk`, and the events that the chunk
    /// completes. A stream that has ended takes no more chunks.
    pub open spec fn feed(self, chunk: Seq<u8>) -> (DecoderState, Seq<EventView>) {
        match self.status {
            StreamStatus::Receiving => {
                let drained = drain(self.verbose, self.pending + chunk);
                (
                    DecoderState {
                        verbose: self.verbose,
                        status: drained.status,
                        pending: drained.pending,
                    },
                    drained.events,
                )
            },
            _ => (self, Seq::empty()),
        }
    }

    /// The state after the chunks `chunks`, one after the other, and the
    /// events that they complete, in their order.
    pub open spec fn feed_all(self, chunks: Seq<Seq<u8>>) -> (DecoderState, Seq<EventView>)
        decreases chunks.len(),
    {
        if chunks.len() == 0 {
            (self, Seq::empty())
        } else {
            let (before, events) = self.feed_all(chunks.drop_last());
            let (after, more) = before.feed(chunks.last());
            (after, events + more)
        }
    }

    /// The state after the body has ended.
    pub open spec fn end(self) -> DecoderState {
        match self.status {
            StreamStatus::Receiving => DecoderState {
                verbose: self.verbose,
                status: StreamStatus::Done,
                pending: Seq::empty(),
            },
            _ => self,
        }
    }
}

/// The bytes of `chunks`, one chunk after the other.
pub open spec fn concat(chunks: Seq<Seq<u8>>) -> Seq<u8>
    decreases chunks.len(),
{
    if chunks.len() == 0 {
        Seq::empty()
    } else {
        concat(chunks.drop_last()) + chunks.last()
    }
}

/// The text that the callback has received after `events`: their fragments,
/// one after the other.
pub open spec fn delivered_text(events: Seq<EventView>) -> Seq<char>
    decreases events.len(),
{
    if events.len() == 0 {
        Seq::empty()
    } else {
        match events.last() {
            EventView::Fragment(text) => delivered_text(events.drop_last()) + text,
            EventView::Unparsed(_) => delivered_text(events.drop_last()),
        }
    }
}

/// Decides what a frame gives from its payload and from the JSON document
/// that was read from it, `None` where the payload is no JSON.
pub fn action_of_document(document: Option<Json>, payload: &str) -> (action: FrameAction)
    ensures
        action@ == document_outcome(
            match document {
                Some(j) => Some(j@),
                None => None,
            },
            payload@,
        ),
{
    let chunk = match document {
        Some(j) => AnthropicChatCompletionChunk::from_json(&j),
        None => None,
    };
    match chunk {
        None => FrameAction::Emit(StreamEvent::Unparsed(payload.to_owned())),
        Some(chunk) => match chunk.delta {
            Some(delta) => match delta.text {
                Some(text) => if text.as_str().unicode_len() > 0 {
                    FrameAction::Emit(StreamEvent::Fragment(text))
                } else {
                    FrameAction::Skip
                },
                None => FrameAction::Skip,
            },
            None => FrameAction::Skip,
        },
    }
}

/// Reads one frame, without its separator.
pub fn read_frame(verbose: bool, frame: &[u8]) -> (action: FrameAction)
    ensures
        action@ == frame_outcome(verbose, frame@),
{
    let text = match crate::text::utf8_text(frame) {
        Some(text) => text,
        None => { return FrameAction::Fail; },
    };
    proof {
        vstd::utf8::encode_utf8_decode_utf8(text@);
    }
    if same_text(text, "data: [DONE]") {
        return FrameAction::Stop;
    }
    if verbose {
        return FrameAction::Emit(StreamEvent::Fragment(text.to_owned()));
    }
    let chars = chars_of(text);
    let start = payload_start(&chars);
    let payload = text.substring_char(start, chars.len());
    assert(payload@ =~= payload_of(text@));
    let document = Json::parse(payload);
    action_of_document(document, payload)
}

/// The decoder of one streamed response.
pub struct StreamDecoder {
    verbose: bool,
    status: StreamStatus,
    pending: Vec<u8>,
}

impl View for StreamDecoder {
    type V = DecoderState;

    closed spec fn view(&self) -> DecoderState {
        DecoderState { verbose: self.verbose, status: self.status, pending: self.pending@ }
    }
}

impl StreamDecoder {
    /// A decoder that has received nothing yet.
    pub fn new(verbose: bool) -> (decoder: StreamDecoder)
        ensures
            decoder@ == DecoderState::initial(verbose),
            decoder@.wf(),
    {
        StreamDecoder { verbose, status: StreamStatus::Receiving, pending: Vec::new() }
    }

    /// Whether whole frames are handed on undecoded.
    pub fn verbose(&self) -> (verbose: bool)
        ensures
            verbose == self@.verbose,
    {
        self.verbose
    }

    /// Where the stream stands.
    pub fn status(&self) -> (status: StreamStatus)
        ensures
            status == self@.status,
    {
        self.status
    }

    /// Why the stream has failed, if it has.
    pub fn error(&self) -> (error: Option<ApiError>)
        ensures
            match error {
                Some(e) => self@.status is Failed && e@ == ApiErrorView::Encoding,
                None => !(self@.status is Failed),
            },
    {
        match self.status {
            StreamStatus::Failed => Some(ApiError::Encoding),
            _ => None,
        }
    }

    /// The number of bytes that wait for the rest of their frame.
    pub fn pending_len(&self) -> (len: usize)
        ensures
            len == self@.pending.len(),
    {
        self.pending.len()
    }

    /// Takes the next chunk of the body and returns the events of the
    /// frames that it completes, in their order. The bytes behind the last
    /// separator wait for the next chunk. After the sentinel, or after a
    /// frame that is no valid UTF-8, the rest of the chunk is dropped and
    /// later chunks are ignored.
    pub fn feed(&mut self, chunk: &[u8]) -> (events: Vec<StreamEvent>)
        ensures
            (final(self)@, events_view(events@)) == old(self)@.feed(chunk@),
            old(self)@.wf() ==> final(self)@.wf(),
    {
        let mut events: Vec<StreamEvent> = Vec::new();
        assert(events_view(events@) =~= Seq::empty());
        match self.status {
            StreamStatus::Receiving => {},
            _ => {
                return events;
            },
        }
        let verbose = self.verbose;
        self.pending.extend_from_slice(chunk);
        let ghost buffer = self.pending@;
        assert(buffer =~= old(self)@.pending + chunk@);
        let mut rest: &[u8] = self.pending.as_slice();
        assert(rest@ =~= buffer);
        let mut status = StreamStatus::Receiving;
        let mut running = true;
        while running
            invariant
                running ==> status is Receiving,
                status is Receiving ==> drain(verbose, buffer) == joined(
                    events_view(events@),
                    drain(verbose, rest@),
                ),
                !running && status is Receiving ==> first_separator(rest@) is None,
                status !is Receiving ==> drain(verbose, buffer) == (Drained {
                    events: events_view(events@),
                    status,
                    pending: Seq::empty(),
                }),
            decreases rest@.len() + if running { 1int } else { 0int },
        {
            match find_separator(rest) {
                None => {
                    running = false;
                },
                Some(i) => {
                    proof {
                        lemma_next_separator(rest@, 0);
                    }
                    let ghost before = rest@;
                    let ghost seen = events_view(events@);
                    let frame = slice_subrange(rest, 0, i);
                    assert(frame@ =~= before.take(i as int));
                    let action = read_frame(verbose, frame);
                    let len: usize = rest.len();
                    assert(i + 1 < len);
                    rest = slice_subrange(rest, i + 2, len);
                    assert(rest@ =~= before.skip(i + 2));
                    match action {
                        FrameAction::Fail => {
                            status = StreamStatus::Failed;
                            running = false;
                            assert(seen + Seq::<EventView>::empty() =~= seen);
                        },
                        FrameAction::Stop => {
                            status = StreamStatus::Done;
                            running = false;
                            assert(seen + Seq::<EventView>::empty() =~= seen);
                        },
                        FrameAction::Skip => {},
                        FrameAction::Emit(event) => {
                            events.push(event);
                            assert(events_view(events@) =~= seen.push(event@));
                            let ghost later = drain(verbose, rest@).events;
                            assert(seen + (seq![event@] + later) =~= seen.push(event@) + later);
                        },
                    }
                },
            }
        }
        let remainder = match status {
            StreamStatus::Receiving => {
                assert(events_view(events@) + Seq::<EventView>::empty() =~= events_view(events@));
                slice_to_vec(rest)
            },
            _ => Vec::new(),
        };
        self.pending = remainder;
        self.status = status;
        events
    }

    /// Takes the end of the body: the stream is complete, and the bytes of
    /// a frame that was never ended are dropped.
    pub fn end_of_stream(&mut self)
        ensures
            final(self)@ == old(self)@.end(),
            old(self)@.wf() ==> final(self)@.wf(),
    {
        match self.status {
            StreamStatus::Receiving => {
                self.pending = Vec::new();
                self.status = StreamStatus::Done;
            },
            _ => {},
        }
    }
}

} // verus!
