use anthropic_sdk::stream::read_frame;
use anthropic_sdk::{ApiError, FrameAction, StreamDecoder, StreamEvent, StreamStatus};

const BODY: &str = "event: message_start\ndata: {\"type\":\"message_start\",\"message\":{\"id\":\"msg_1\",\"type\":\"message\",\"role\":\"assistant\",\"content\":[],\"model\":\"m\",\"stop_reason\":null,\"stop_sequence\":null,\"usage\":{\"input_tokens\":10,\"output_tokens\":1}}}\n\nevent: content_block_start\ndata: {\"type\":\"content_block_start\",\"index\":0,\"content_block\":{\"type\":\"text\",\"text\":\"\"}}\n\nevent: ping\ndata: {\"type\":\"ping\"}\n\nevent: content_block_delta\ndata: {\"type\":\"content_block_delta\",\"index\":0,\"delta\":{\"type\":\"text_delta\",\"text\":\"Gr\u{00fc}\u{00df}e \"}}\n\nevent: content_block_delta\ndata: {\"type\":\"content_block_delta\",\"index\":0,\"delta\":{\"type\":\"text_delta\",\"text\":\"\u{4e16}\u{754c}!\"}}\n\nevent: content_block_stop\ndata: {\"type\":\"content_block_stop\",\"index\":0}\n\nevent: message_delta\ndata: {\"type\":\"message_delta\",\"delta\":{\"stop_reason\":\"end_turn\",\"stop_sequence\":null},\"usage\":{\"output_tokens\":15}}\n\nevent: message_stop\ndata: {\"type\":\"message_stop\"}\n\n";

fn fragment(text: &str) -> StreamEvent {
    StreamEvent::Fragment(text.to_string())
}

fn delivered(events: &[StreamEvent]) -> String {
    let mut text = String::new();
    for event in events {
        if let StreamEvent::Fragment(t) = event {
            text.push_str(t);
        }
    }
    text
}

fn feed_all(verbose: bool, chunks: &[&[u8]]) -> (Vec<StreamEvent>, StreamStatus, usize) {
    let mut decoder = StreamDecoder::new(verbose);
    let mut events = Vec::new();
    for chunk in chunks {
        events.extend(decoder.feed(chunk));
    }
    (events, decoder.status(), decoder.pending_len())
}

#[test]
fn whole_body_delivers_delta_texts_in_order() {
    let (events, status, pending) = feed_all(false, &[BODY.as_bytes()]);
    assert_eq!(events, vec![fragment("Gr\u{00fc}\u{00df}e "), fragment("\u{4e16}\u{754c}!")]);
    assert_eq!(delivered(&events), "Gr\u{00fc}\u{00df}e \u{4e16}\u{754c}!");
    assert_eq!(status, StreamStatus::Receiving);
    assert_eq!(pending, 0);
}

#[test]
fn every_two_way_split_gives_the_same_events() {
    let bytes = BODY.as_bytes();
    let whole = feed_all(false, &[bytes]);
    for cut in 0..=bytes.len() {
        let split = feed_all(false, &[&bytes[..cut], &bytes[cut..]]);
        assert_eq!(split, whole);
    }
}

#[test]
fn byte_by_byte_gives_the_same_events() {
    let bytes = BODY.as_bytes();
    let whole = feed_all(false, &[bytes]);
    let mut decoder = StreamDecoder::new(false);
    let mut events = Vec::new();
    for i in 0..bytes.len() {
        events.extend(decoder.feed(&bytes[i..i + 1]));
    }
    assert_eq!((events, decoder.status(), decoder.pending_len()), whole);
}

#[test]
fn every_three_way_split_of_a_short_body_gives_the_same_events() {
    let body = "data: {\"type\":\"x\",\"delta\":{\"text\":\"\u{00e9}a\"}}\n\nbad\n\ndata: [DONE]\n\nrest";
    let bytes = body.as_bytes();
    let whole = feed_all(false, &[bytes]);
    assert_eq!(whole.0, vec![fragment("\u{00e9}a"), StreamEvent::Unparsed("bad".to_string())]);
    assert_eq!(whole.1, StreamStatus::Done);
    for a in 0..=bytes.len() {
        for b in a..=bytes.len() {
            let split = feed_all(false, &[&bytes[..a], &bytes[a..b], &bytes[b..]]);
            assert_eq!(split, whole);
        }
    }
}

#[test]
fn a_character_cut_in_two_is_put_together() {
    let body = "data: {\"type\":\"d\",\"delta\":{\"text\":\"\u{1f600}\"}}\n\n";
    let bytes = body.as_bytes();
    let cut = body.find('\u{1f600}').unwrap() + 2;
    let mut decoder = StreamDecoder::new(false);
    assert_eq!(decoder.feed(&bytes[..cut]), vec![]);
    assert_eq!(decoder.status(), StreamStatus::Receiving);
    assert_eq!(decoder.feed(&bytes[cut..]), vec![fragment("\u{1f600}")]);
}

#[test]
fn sentinel_ends_the_stream_without_an_event() {
    let mut decoder = StreamDecoder::new(false);
    let events = decoder.feed(b"data: [DONE]\n\ndata: {\"type\":\"d\",\"delta\":{\"text\":\"late\"}}\n\n");
    assert_eq!(events, vec![]);
    assert_eq!(decoder.status(), StreamStatus::Done);
    assert_eq!(decoder.pending_len(), 0);
    let later = decoder.feed(b"data: {\"type\":\"d\",\"delta\":{\"text\":\"later\"}}\n\n");
    assert_eq!(later, vec![]);
    assert_eq!(decoder.status(), StreamStatus::Done);
}

#[test]
fn sentinel_ends_the_stream_in_verbose_mode() {
    let mut decoder = StreamDecoder::new(true);
    let events = decoder.feed(b"first\n\ndata: [DONE]\n\nsecond\n\n");
    assert_eq!(events, vec![fragment("first")]);
    assert_eq!(decoder.status(), StreamStatus::Done);
}

#[test]
fn delta_frame_then_sentinel_delivers_hi_once() {
    let mut decoder = StreamDecoder::new(false);
    let mut events = decoder.feed(
        "event: content_block_delta\ndata: {\"type\":\"content_block_delta\",\"delta\":{\"text\":\"Hi\"}}\n\n"
            .as_bytes(),
    );
    events.extend(decoder.feed("data: [DONE]\n\n".as_bytes()));
    assert_eq!(events, vec![fragment("Hi")]);
    assert_eq!(decoder.status(), StreamStatus::Done);
}

#[test]
fn malformed_frame_between_two_deltas_does_not_stop_the_stream() {
    let body = "data: {\"type\":\"content_block_delta\",\"delta\":{\"text\":\"one\"}}\n\ndata: {\"type\":\n\ndata: {\"type\":\"content_block_delta\",\"delta\":{\"text\":\"two\"}}\n\n";
    let (events, status, _) = feed_all(false, &[body.as_bytes()]);
    assert_eq!(
        events,
        vec![fragment("one"), StreamEvent::Unparsed("{\"type\":".to_string()), fragment("two")]
    );
    assert_eq!(delivered(&events), "onetwo");
    assert_eq!(status, StreamStatus::Receiving);
}

#[test]
fn unterminated_last_frame_is_dropped_at_the_end() {
    let mut decoder = StreamDecoder::new(false);
    let mut events = decoder.feed(b"data: {\"type\":\"d\",\"delta\":{\"text\":\"a\"}}\n\n");
    let tail = b"data: {\"type\":\"d\",\"delta\":{\"text\":\"b\"}}\n";
    events.extend(decoder.feed(tail));
    assert_eq!(events, vec![fragment("a")]);
    assert_eq!(decoder.status(), StreamStatus::Receiving);
    assert_eq!(decoder.pending_len(), tail.len());
    decoder.end_of_stream();
    assert_eq!(decoder.status(), StreamStatus::Done);
    assert_eq!(decoder.pending_len(), 0);
    assert_eq!(decoder.feed(b"\n"), vec![]);
}

#[test]
fn end_of_stream_keeps_a_failed_stream_failed() {
    let mut decoder = StreamDecoder::new(false);
    decoder.feed(&[0xff, b'\n', b'\n']);
    assert_eq!(decoder.status(), StreamStatus::Failed);
    decoder.end_of_stream();
    assert_eq!(decoder.status(), StreamStatus::Failed);
}

#[test]
fn frame_that_is_no_utf8_fails_the_stream() {
    let mut decoder = StreamDecoder::new(false);
    let mut bytes = b"data: {\"type\":\"d\",\"delta\":{\"text\":\"ok\"}}\n\n".to_vec();
    bytes.extend_from_slice(&[b'a', 0xc3, 0x28, b'\n', b'\n']);
    bytes.extend_from_slice(b"data: {\"type\":\"d\",\"delta\":{\"text\":\"never\"}}\n\n");
    let events = decoder.feed(&bytes);
    assert_eq!(events, vec![fragment("ok")]);
    assert_eq!(decoder.status(), StreamStatus::Failed);
    assert_eq!(decoder.pending_len(), 0);
    assert_eq!(decoder.feed(b"data: {\"type\":\"d\",\"delta\":{\"text\":\"x\"}}\n\n"), vec![]);
}

#[test]
fn verbose_mode_hands_on_whole_frames() {
    let (events, status, pending) =
        feed_all(true, &[b"event: ping\ndata: {\"type\":\"ping\"}\n\nnot json\n\n\n\ntail"]);
    assert_eq!(
        events,
        vec![fragment("event: ping\ndata: {\"type\":\"ping\"}"), fragment("not json"), fragment("")]
    );
    assert_eq!(status, StreamStatus::Receiving);
    assert_eq!(pending, 4);
}

#[test]
fn new_decoder_waits_for_bytes() {
    let decoder = StreamDecoder::new(true);
    assert!(decoder.verbose());
    assert_eq!(decoder.status(), StreamStatus::Receiving);
    assert_eq!(decoder.pending_len(), 0);
    assert!(!StreamDecoder::new(false).verbose());
}

#[test]
fn three_line_feeds_end_a_frame_at_the_first_pair() {
    let (events, _, pending) = feed_all(true, &[b"a\n\n\nb"]);
    assert_eq!(events, vec![fragment("a")]);
    assert_eq!(pending, 2);
}

#[test]
fn events_without_delta_text_give_nothing() {
    assert_eq!(read_frame(false, b"event: ping\ndata: {\"type\":\"ping\"}"), FrameAction::Skip);
    assert_eq!(
        read_frame(false, b"data: {\"type\":\"message_delta\",\"delta\":{\"stop_reason\":\"end_turn\"}}"),
        FrameAction::Skip
    );
    assert_eq!(
        read_frame(false, b"data: {\"type\":\"content_block_delta\",\"delta\":{\"text\":null}}"),
        FrameAction::Skip
    );
}

#[test]
fn empty_delta_text_gives_nothing() {
    assert_eq!(
        read_frame(false, b"data: {\"type\":\"content_block_delta\",\"delta\":{\"text\":\"\"}}"),
        FrameAction::Skip
    );
}

#[test]
fn read_frame_tells_the_four_actions_apart() {
    assert_eq!(read_frame(false, b"data: [DONE]"), FrameAction::Stop);
    assert_eq!(read_frame(true, b"data: [DONE]"), FrameAction::Stop);
    assert_eq!(read_frame(false, &[0x80]), FrameAction::Fail);
    assert_eq!(read_frame(true, &[0xe2, 0x82]), FrameAction::Fail);
    assert_eq!(
        read_frame(false, b"data: {\"type\":\"d\",\"delta\":{\"text\":\"x\"}}"),
        FrameAction::Emit(fragment("x"))
    );
    assert_eq!(
        read_frame(false, b" data: [DONE]"),
        FrameAction::Emit(StreamEvent::Unparsed("[DONE]".to_string()))
    );
    assert_eq!(read_frame(false, b""), FrameAction::Emit(StreamEvent::Unparsed(String::new())));
}

#[test]
fn frame_without_data_prefix_is_read_as_it_stands() {
    assert_eq!(
        read_frame(false, b"{\"type\":\"d\",\"delta\":{\"text\":\"bare\"}}"),
        FrameAction::Emit(fragment("bare"))
    );
    assert_eq!(
        read_frame(false, b"event: ping  nothing"),
        FrameAction::Emit(StreamEvent::Unparsed("  nothing".to_string()))
    );
}

#[test]
fn well_formed_json_that_is_no_event_is_reported() {
    assert_eq!(
        read_frame(false, b"data: {\"index\":1}"),
        FrameAction::Emit(StreamEvent::Unparsed("{\"index\":1}".to_string()))
    );
    assert_eq!(
        read_frame(false, b"data: [1,2]"),
        FrameAction::Emit(StreamEvent::Unparsed("[1,2]".to_string()))
    );
}

#[test]
fn failed_stream_names_its_error() {
    let mut decoder = StreamDecoder::new(false);
    assert_eq!(decoder.error(), None);
    decoder.feed(b"data: x\n\n");
    assert_eq!(decoder.error(), None);
    decoder.feed(&[0xf8, b'\n', b'\n']);
    assert_eq!(decoder.status(), StreamStatus::Failed);
    assert_eq!(decoder.error(), Some(ApiError::Encoding));
    let mut done = StreamDecoder::new(true);
    done.end_of_stream();
    assert_eq!(done.error(), None);
}

#[test]
fn invalid_bytes_wait_for_the_end_of_their_frame() {
    let mut decoder = StreamDecoder::new(false);
    assert_eq!(decoder.feed(&[b'a', 0xff, b'b']), vec![]);
    assert_eq!(decoder.status(), StreamStatus::Receiving);
    assert_eq!(decoder.pending_len(), 3);
    assert_eq!(decoder.feed(b"\n"), vec![]);
    assert_eq!(decoder.status(), StreamStatus::Receiving);
    assert_eq!(decoder.feed(b"\n"), vec![]);
    assert_eq!(decoder.status(), StreamStatus::Failed);
}
