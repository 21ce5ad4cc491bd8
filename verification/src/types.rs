//! The typed events and messages of the API, and their mathematical views.

use crate::json::{Json, JsonView};
use vstd::prelude::*;

verus! {

/// The view of an optional text.
pub open spec fn text_view(text: Option<String>) -> Option<Seq<char>> {
    match text {
        Some(s) => Some(s@),
        None => None,
    }
}

/// Token counts of a response.
#[derive(Debug, Clone, Copy, PartialEq, Eq)]
pub struct AnthropicUsage {
    pub input_tokens: Option<u32>,
    pub output_tokens: Option<u32>,
}

/// One block of a message's content.
#[derive(Debug, Clone, PartialEq, Eq)]
pub struct AnthropicContentBlock {
    pub content_type: String,
    pub text: Option<String>,
}

pub struct ContentBlockView {
    pub content_type: Seq<char>,
    pub text: Option<Seq<char>>,
}

impl View for AnthropicContentBlock {
    type V = ContentBlockView;

    open spec fn view(&self) -> ContentBlockView {
        ContentBlockView { content_type: self.content_type@, text: text_view(self.text) }
    }
}

/// The views of the blocks of an optional content list.
pub open spec fn content_view(content: Option<Vec<AnthropicContentBlock>>) -> Option<
    Seq<ContentBlockView>,
> {
    match content {
        Some(blocks) => Some(blocks@.map_values(|b: AnthropicContentBlock| b@)),
        None => None,
    }
}

/// An incremental fragment of a streamed response.
#[derive(Debug, Clone, PartialEq, Eq)]
pub struct AnthropicTextDelta {
    pub delta_type: Option<String>,
    pub text: Option<String>,
    pub stop_reason: Option<String>,
    pub stop_sequence: Option<String>,
    pub usage: Option<AnthropicUsage>,
}

pub struct TextDeltaView {
    pub delta_type: Option<Seq<char>>,
    pub text: Option<Seq<char>>,
    pub stop_reason: Option<Seq<char>>,
    pub stop_sequence: Option<Seq<char>>,
    pub usage: Option<AnthropicUsage>,
}

impl View for AnthropicTextDelta {
    type V = TextDeltaView;

    open spec fn view(&self) -> TextDeltaView {
        TextDeltaView {
            delta_type: text_view(self.delta_type),
            text: text_view(self.text),
            stop_reason: text_view(self.stop_reason),
            stop_sequence: text_view(self.stop_sequence),
            usage: self.usage,
        }
    }
}

/// A complete or aggregate response message.
#[derive(Debug, Clone, PartialEq, Eq)]
pub struct AnthropicMessage {
    pub id: Option<String>,
    pub message_type: String,
    pub role: Option<String>,
    pub content: Option<Vec<AnthropicContentBlock>>,
    pub model: Option<String>,
    pub stop_reason: Option<String>,
    pub stop_sequence: Option<String>,
    pub usage: Option<AnthropicUsage>,
}

pub struct MessageView {
    pub id: Option<Seq<char>>,
    pub message_type: Seq<char>,
    pub role: Option<Seq<char>>,
    pub content: Option<Seq<ContentBlockView>>,
    pub model: Option<Seq<char>>,
    pub stop_reason: Option<Seq<char>>,
    pub stop_sequence: Option<Seq<char>>,
    pub usage: Option<AnthropicUsage>,
}

impl View for AnthropicMessage {
    type V = MessageView;

    open spec fn view(&self) -> MessageView {
        MessageView {
            id: text_view(self.id),
            message_type: self.message_type@,
            role: text_view(self.role),
            content: content_view(self.content),
            model: text_view(self.model),
            stop_reason: text_view(self.stop_reason),
            stop_sequence: text_view(self.stop_sequence),
            usage: self.usage,
        }
    }
}

/// One event of a streamed response.
#[derive(Debug, Clone, PartialEq, Eq)]
pub struct AnthropicChatCompletionChunk {
    pub event_type: String,
    pub index: Option<usize>,
    pub delta: Option<AnthropicTextDelta>,
    pub message: Option<AnthropicMessage>,
}

pub struct ChunkView {
    pub event_type: Seq<char>,
    pub index: Option<usize>,
    pub delta: Option<TextDeltaView>,
    pub message: Option<MessageView>,
}

impl View for AnthropicChatCompletionChunk {
    type V = ChunkView;

    open spec fn view(&self) -> ChunkView {
        ChunkView {
            event_type: self.event_type@,
            index: self.index,
            delta: match self.delta {
                Some(d) => Some(d@),
                None => None,
            },
            message: match self.message {
                Some(m) => Some(m@),
                None => None,
            },
        }
    }
}

/// An error report of the API.
#[derive(Debug)]
pub struct AnthropicErrorMessage {
    pub error_type: String,
    pub error: AnthropicErrorDetails,
}

/// The body of an error report.
#[derive(Debug)]
pub struct AnthropicErrorDetails {
    pub details: Option<serde_json::Value>,
    pub error_type: String,
    pub message: String,
}

/// Which tool the model is to use.
#[derive(Debug, Clone, PartialEq, Eq)]
pub enum ToolChoice {
    Auto,
    Any,
    Tool(String),
}

impl ToolChoice {
    /// The JSON object that stands for this choice in a request.
    pub open spec fn json(self) -> JsonView {
        match self {
            ToolChoice::Auto => JsonView::Object(seq![("type"@, JsonView::Text("auto"@))]),
            ToolChoice::Any => JsonView::Object(seq![("type"@, JsonView::Text("any"@))]),
            ToolChoice::Tool(name) => JsonView::Object(
                seq![("type"@, JsonView::Text("tool"@)), ("name"@, JsonView::Text(name@))],
            ),
        }
    }

    /// Builds the JSON object that stands for this choice in a request.
    pub fn to_json(&self) -> (tree: Json)
        ensures
            tree@ == self.json(),
    {
        let mut members: Vec<(String, Json)> = Vec::new();
        match self {
            ToolChoice::Auto => {
                members.push(("type".to_owned(), Json::Text("auto".to_owned())));
            },
            ToolChoice::Any => {
                members.push(("type".to_owned(), Json::Text("any".to_owned())));
            },
            ToolChoice::Tool(name) => {
                members.push(("type".to_owned(), Json::Text("tool".to_owned())));
                members.push(("name".to_owned(), Json::Text(name.clone())));
            },
        }
        let tree = Json::Object(members);
        proof {
            crate::json::lemma_view_unfolds(tree);
            assert(tree@->Object_0 =~= self.json()->Object_0);
        }
        tree
    }
}

} // verus!
