//! From JSON documents to the typed events of a stream and to the text of a
//! complete response.
//!
//! An object is read member by member. A member that is absent or `null`
//! leaves an optional field empty; a member of the wrong kind, or a missing
//! mandatory one, makes the whole document malformed. Members that no field
//! names are passed over.

use crate::json::{lemma_view_unfolds, member, Json, JsonView};
use crate::types::{
    text_view, AnthropicChatCompletionChunk, AnthropicContentBlock, AnthropicMessage,
    AnthropicTextDelta, AnthropicUsage, ChunkView, ContentBlockView, MessageView, TextDeltaView,
};
use vstd::prelude::*;

verus! {

/// The text of the mandatory member `name` of `j`.
pub open spec fn required_text(j: JsonView, name: Seq<char>) -> Option<Seq<char>> {
    match member(j, name) {
        Some(JsonView::Text(s)) => Some(s),
        _ => None,
    }
}

/// The text of the optional member `name` of `j`; `None` where the member is
/// there and is neither `null` nor a text.
pub open spec fn optional_text(j: JsonView, name: Seq<char>) -> Option<Option<Seq<char>>> {
    match member(j, name) {
        None => Some(None),
        Some(JsonView::Null) => Some(None),
        Some(JsonView::Text(s)) => Some(Some(s)),
        _ => None,
    }
}

/// The number of the optional member `name` of `j`; `None` where the member
/// is there and is neither `null` nor a non-negative integer up to `limit`.
pub open spec fn optional_number(j: JsonView, name: Seq<char>, limit: int) -> Option<Option<u64>> {
    match member(j, name) {
        None => Some(None),
        Some(JsonView::Null) => Some(None),
        Some(JsonView::Number(Some(n))) => if n <= limit {
            Some(Some(n))
        } else {
            None
        },
        _ => None,
    }
}

/// The token counts that the object `j` holds.
pub open spec fn usage_of(j: JsonView) -> Option<AnthropicUsage> {
    match (
        j,
        optional_number(j, "input_tokens"@, u32::MAX as int),
        optional_number(j, "output_tokens"@, u32::MAX as int),
    ) {
        (JsonView::Object(_), Some(input), Some(output)) => Some(
            AnthropicUsage {
                input_tokens: match input {
                    Some(n) => Some(n as u32),
                    None => None,
                },
                output_tokens: match output {
                    Some(n) => Some(n as u32),
                    None => None,
                },
            },
        ),
        _ => None,
    }
}

/// The token counts in the optional member `name` of `j`.
pub open spec fn optional_usage(j: JsonView, name: Seq<char>) -> Option<Option<AnthropicUsage>> {
    match member(j, name) {
        None => Some(None),
        Some(JsonView::Null) => Some(None),
        Some(inner) => match usage_of(inner) {
            Some(usage) => Some(Some(usage)),
            None => None,
        },
    }
}

/// The content block that the object `j` holds.
pub open spec fn content_block_of(j: JsonView) -> Option<ContentBlockView> {
    match (j, required_text(j, "type"@), optional_text(j, "text"@)) {
        (JsonView::Object(_), Some(content_type), Some(text)) => Some(
            ContentBlockView { content_type, text },
        ),
        _ => None,
    }
}

/// The content blocks that `items` hold, in their order; `None` where one of
/// them holds none.
pub open spec fn content_blocks_of(items: Seq<JsonView>) -> Option<Seq<ContentBlockView>> {
    if forall|i: int| 0 <= i < items.len() ==> (#[trigger] content_block_of(items[i])) is Some {
        Some(Seq::new(items.len(), |i: int| content_block_of(items[i])->0))
    } else {
        None
    }
}

/// The content blocks in the optional member `name` of `j`.
pub open spec fn optional_content(j: JsonView, name: Seq<char>) -> Option<
    Option<Seq<ContentBlockView>>,
> {
    match member(j, name) {
        None => Some(None),
        Some(JsonView::Null) => Some(None),
        Some(JsonView::Array(items)) => match content_blocks_of(items) {
            Some(blocks) => Some(Some(blocks)),
            None => None,
        },
        _ => None,
    }
}

/// The delta that the object `j` holds.
pub open spec fn delta_of(j: JsonView) -> Option<TextDeltaView> {
    match (
        j,
        optional_text(j, "type"@),
        optional_text(j, "text"@),
        optional_text(j, "stop_reason"@),
        optional_text(j, "stop_sequence"@),
        optional_usage(j, "usage"@),
    ) {
        (
            JsonView::Object(_),
            Some(delta_type),
            Some(text),
            Some(stop_reason),
            Some(stop_sequence),
            Some(usage),
        ) => Some(TextDeltaView { delta_type, text, stop_reason, stop_sequence, usage }),
        _ => None,
    }
}

/// The delta in the optional member `name` of `j`.
pub open spec fn optional_delta(j: JsonView, name: Seq<char>) -> Option<Option<TextDeltaView>> {
    match member(j, name) {
        None => Some(None),
        Some(JsonView::Null) => Some(None),
        Some(inner) => match delta_of(inner) {
            Some(delta) => Some(Some(delta)),
            None => None,
        },
    }
}

/// The message that the object `j` holds.
pub open spec fn message_of(j: JsonView) -> Option<MessageView> {
    match (
        j,
        optional_text(j, "id"@),
        required_text(j, "type"@),
        optional_text(j, "role"@),
        optional_content(j, "content"@),
        optional_text(j, "model"@),
        optional_text(j, "stop_reason"@),
        optional_text(j, "stop_sequence"@),
        optional_usage(j, "usage"@),
    ) {
        (
            JsonView::Object(_),
            Some(id),
            Some(message_type),
            Some(role),
            Some(content),
            Some(model),
            Some(stop_reason),
            Some(stop_sequence),
            Some(usage),
        ) => Some(
            MessageView {
                id,
                message_type,
                role,
                content,
                model,
                stop_reason,
                stop_sequence,
                usage,
            },
        ),
        _ => None,
    }
}

/// The message in the optional member `name` of `j`.
pub open spec fn optional_message(j: JsonView, name: Seq<char>) -> Option<Option<MessageView>> {
    match member(j, name) {
        None => Some(None),
        Some(JsonView::Null) => Some(None),
        Some(inner) => match message_of(inner) {
            Some(message) => Some(Some(message)),
            None => None,
        },
    }
}

/// The stream event that the object `j` holds; `None` where `j` is
/// malformed.
pub open spec fn chunk_of(j: JsonView) -> Option<ChunkView> {
    match (
        j,
        required_text(j, "type"@),
        optional_number(j, "index"@, usize::MAX as int),
        optional_delta(j, "delta"@),
        optional_message(j, "message"@),
    ) {
        (JsonView::Object(_), Some(event_type), Some(index), Some(delta), Some(message)) => Some(
            ChunkView {
                event_type,
                index: match index {
                    Some(n) => Some(n as usize),
                    None => None,
                },
                delta,
                message,
            },
        ),
        _ => None,
    }
}

/// Reads the text of the mandatory member `name` of `j`.
fn read_required_text(j: &Json, name: &str) -> (text: Option<String>)
    ensures
        text_view(text) == required_text(j@, name@),
{
    match j.get(name) {
        Some(Json::Text(s)) => Some(s.clone()),
        _ => None,
    }
}

/// Reads the text of the optional member `name` of `j`.
fn read_optional_text(j: &Json, name: &str) -> (text: Option<Option<String>>)
    ensures
        match text {
            Some(t) => optional_text(j@, name@) == Some(text_view(t)),
            None => optional_text(j@, name@) is None,
        },
{
    match j.get(name) {
        None => Some(None),
        Some(Json::Null) => Some(None),
        Some(Json::Text(s)) => Some(Some(s.clone())),
        _ => None,
    }
}

/// Reads the number of the optional member `name` of `j`, which may be at
/// most `limit`.
fn read_optional_number(j: &Json, name: &str, limit: u64) -> (number: Option<Option<u64>>)
    ensures
        number == optional_number(j@, name@, limit as int),
{
    match j.get(name) {
        None => Some(None),
        Some(Json::Null) => Some(None),
        Some(Json::Number(Some(n))) => if *n <= limit {
            Some(Some(*n))
        } else {
            None
        },
        _ => None,
    }
}

/// Whether `j` is an object.
fn is_object(j: &Json) -> (yes: bool)
    ensures
        yes == (j@ is Object),
{
    match j {
        Json::Object(_) => true,
        _ => false,
    }
}

/// A token count in its own width.
fn narrow(number: Option<u64>) -> (narrowed: Option<u32>)
    requires
        number matches Some(n) ==> n <= u32::MAX,
    ensures
        narrowed == match number {
            Some(n) => Some(n as u32),
            None => None,
        },
{
    match number {
        Some(n) => Some(n as u32),
        None => None,
    }
}

/// Reads the token counts that `j` holds.
fn read_usage(j: &Json) -> (usage: Option<AnthropicUsage>)
    ensures
        usage == usage_of(j@),
{
    if !is_object(j) {
        return None;
    }
    let input = match read_optional_number(j, "input_tokens", 0xffff_ffff) {
        Some(n) => n,
        None => { return None; },
    };
    let output = match read_optional_number(j, "output_tokens", 0xffff_ffff) {
        Some(n) => n,
        None => { return None; },
    };
    Some(AnthropicUsage { input_tokens: narrow(input), output_tokens: narrow(output) })
}

/// Reads the token counts in the optional member `name` of `j`.
fn read_optional_usage(j: &Json, name: &str) -> (usage: Option<Option<AnthropicUsage>>)
    ensures
        usage == optional_usage(j@, name@),
{
    match j.get(name) {
        None => Some(None),
        Some(Json::Null) => Some(None),
        Some(inner) => match read_usage(inner) {
            Some(usage) => Some(Some(usage)),
            None => None,
        },
    }
}

/// Reads the content block that `j` holds.
fn read_content_block(j: &Json) -> (block: Option<AnthropicContentBlock>)
    ensures
        match block {
            Some(b) => content_block_of(j@) == Some(b@),
            None => content_block_of(j@) is None,
        },
{
    if !is_object(j) {
        return None;
    }
    let content_type = match read_required_text(j, "type") {
        Some(t) => t,
        None => { return None; },
    };
    let text = match read_optional_text(j, "text") {
        Some(t) => t,
        None => { return None; },
    };
    Some(AnthropicContentBlock { content_type, text })
}

/// Reads the content blocks that `items` hold.
pub(crate) fn read_content_blocks(items: &Vec<Json>) -> (blocks: Option<Vec<AnthropicContentBlock>>)
    ensures
        match blocks {
            Some(b) => content_blocks_of(items@.map_values(|j: Json| j@)) == Some(
                b@.map_values(|b: AnthropicContentBlock| b@),
            ),
            None => content_blocks_of(items@.map_values(|j: Json| j@)) is None,
        },
{
    let ghost views = items@.map_values(|j: Json| j@);
    let mut blocks: Vec<AnthropicContentBlock> = Vec::new();
    let mut i: usize = 0;
    while i < items.len()
        invariant
            i <= items.len(),
            blocks.len() == i,
            views == items@.map_values(|j: Json| j@),
            forall|k: int|
                0 <= k < i ==> (#[trigger] content_block_of(views[k])) == Some(blocks@[k]@),
        decreases items.len() - i,
    {
        match read_content_block(&items[i]) {
            Some(block) => {
                blocks.push(block);
            },
            None => {
                assert(content_block_of(views[i as int]) is None);
                return None;
            },
        }
        i += 1;
    }
    assert(content_blocks_of(views)->0 =~= blocks@.map_values(|b: AnthropicContentBlock| b@));
    Some(blocks)
}

/// Reads the content blocks in the optional member `name` of `j`.
fn read_optional_content(j: &Json, name: &str) -> (content: Option<
    Option<Vec<AnthropicContentBlock>>,
>)
    ensures
        match content {
            Some(c) => optional_content(j@, name@) == Some(crate::types::content_view(c)),
            None => optional_content(j@, name@) is None,
        },
{
    match j.get(name) {
        None => Some(None),
        Some(Json::Null) => Some(None),
        Some(Json::Array(items)) => {
            let ghost inner = Json::Array(*items);
            proof {
                lemma_view_unfolds(inner);
                assert(inner@->Array_0 =~= items@.map_values(|j: Json| j@));
            }
            match read_content_blocks(items) {
                Some(blocks) => Some(Some(blocks)),
                None => None,
            }
        },
        _ => None,
    }
}

/// Reads the delta that `j` holds.
fn read_delta(j: &Json) -> (delta: Option<AnthropicTextDelta>)
    ensures
        match delta {
            Some(d) => delta_of(j@) == Some(d@),
            None => delta_of(j@) is None,
        },
{
    if !is_object(j) {
        return None;
    }
    let delta_type = match read_optional_text(j, "type") {
        Some(t) => t,
        None => { return None; },
    };
    let text = match read_optional_text(j, "text") {
        Some(t) => t,
        None => { return None; },
    };
    let stop_reason = match read_optional_text(j, "stop_reason") {
        Some(t) => t,
        None => { return None; },
    };
    let stop_sequence = match read_optional_text(j, "stop_sequence") {
        Some(t) => t,
        None => { return None; },
    };
    let usage = match read_optional_usage(j, "usage") {
        Some(u) => u,
        None => { return None; },
    };
    Some(AnthropicTextDelta { delta_type, text, stop_reason, stop_sequence, usage })
}

/// Reads the delta in the optional member `name` of `j`.
fn read_optional_delta(j: &Json, name: &str) -> (delta: Option<Option<AnthropicTextDelta>>)
    ensures
        match delta {
            Some(Some(d)) => optional_delta(j@, name@) == Some(Some(d@)),
            Some(None) => optional_delta(j@, name@) == Some(None::<TextDeltaView>),
            None => optional_delta(j@, name@) is None,
        },
{
    match j.get(name) {
        None => Some(None),
        Some(Json::Null) => Some(None),
        Some(inner) => match read_delta(inner) {
            Some(delta) => Some(Some(delta)),
            None => None,
        },
    }
}

/// Reads the message that `j` holds.
fn read_message(j: &Json) -> (message: Option<AnthropicMessage>)
    ensures
        match message {
            Some(m) => message_of(j@) == Some(m@),
            None => message_of(j@) is None,
        },
{
    if !is_object(j) {
        return None;
    }
    let id = match read_optional_text(j, "id") {
        Some(t) => t,
        None => { return None; },
    };
    let message_type = match read_required_text(j, "type") {
        Some(t) => t,
        None => { return None; },
    };
    let role = match read_optional_text(j, "role") {
        Some(t) => t,
        None => { return None; },
    };
    let content = match read_optional_content(j, "content") {
        Some(c) => c,
        None => { return None; },
    };
    let model = match read_optional_text(j, "model") {
        Some(t) => t,
        None => { return None; },
    };
    let stop_reason = match read_optional_text(j, "stop_reason") {
        Some(t) => t,
        None => { return None; },
    };
    let stop_sequence = match read_optional_text(j, "stop_sequence") {
        Some(t) => t,
        None => { return None; },
    };
    let usage = match read_optional_usage(j, "usage") {
        Some(u) => u,
        None => { return None; },
    };
    Some(
        AnthropicMessage {
            id,
            message_type,
            role,
            content,
            model,
            stop_reason,
            stop_sequence,
            usage,
        },
    )
}

/// Reads the message in the optional member `name` of `j`.
fn read_optional_message(j: &Json, name: &str) -> (message: Option<Option<AnthropicMessage>>)
    ensures
        match message {
            Some(Some(m)) => optional_message(j@, name@) == Some(Some(m@)),
            Some(None) => optional_message(j@, name@) == Some(None::<MessageView>),
            None => optional_message(j@, name@) is None,
        },
{
    match j.get(name) {
        None => Some(None),
        Some(Json::Null) => Some(None),
        Some(inner) => match read_message(inner) {
            Some(message) => Some(Some(message)),
            None => None,
        },
    }
}

/// An index in its own width.
fn narrow_index(number: Option<u64>) -> (narrowed: Option<usize>)
    requires
        number matches Some(n) ==> n <= usize::MAX,
    ensures
        narrowed == match number {
            Some(n) => Some(n as usize),
            None => None,
        },
{
    match number {
        Some(n) => Some(n as usize),
        None => None,
    }
}

impl AnthropicChatCompletionChunk {
    /// Decodes the stream event that the document `j` holds. It is there
    /// exactly where `j` is an object with a text `type`, an `index` that
    /// fits `usize`, a well-formed `delta` and a well-formed `message`, the
    /// last three optional.
    pub fn from_json(j: &Json) -> (chunk: Option<AnthropicChatCompletionChunk>)
        ensures
            match chunk {
                Some(c) => chunk_of(j@) == Some(c@),
                None => chunk_of(j@) is None,
            },
    {
        if !is_object(j) {
            return None;
        }
        let event_type = match read_required_text(j, "type") {
            Some(t) => t,
            None => { return None; },
        };
        let index = match read_optional_number(j, "index", usize::MAX as u64) {
            Some(n) => n,
            None => { return None; },
        };
        let delta = match read_optional_delta(j, "delta") {
            Some(d) => d,
            None => { return None; },
        };
        let message = match read_optional_message(j, "message") {
            Some(m) => m,
            None => { return None; },
        };
        let index = narrow_index(index);
        Some(AnthropicChatCompletionChunk { event_type, index, delta, message })
    }
}

} // verus!
