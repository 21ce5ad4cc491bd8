//! Decoder for the responses of a chat-completion HTTP API.
//!
//! A response is either streamed, as frames of text that a blank line ends
//! and that arrive cut into chunks of bytes at arbitrary places, or comes as
//! one JSON body. [`dispatch`] tells from the status which of the two is to
//! be read, [`StreamDecoder`] turns the chunks of a stream into the text
//! fragments of its events, and [`read_body`] picks the text from a complete
//! body. Sending the request and calling the caller's callback are left to
//! the program around this library.
//!
//! Every function is verified against a contract over the mathematical
//! model of its module. The laws in [`laws`] state what follows for a whole
//! stream: the same events come out however the body is cut into chunks.

pub mod decode;
pub mod dispatch;
pub mod error;
pub mod frame;
pub mod json;
pub mod laws;
pub mod response;
pub mod stream;
pub mod text;
pub mod types;

pub use crate::dispatch::{dispatch, ResponseMode};
pub use crate::error::ApiError;
pub use crate::json::Json;
pub use crate::response::read_body;
pub use crate::stream::{FrameAction, StreamDecoder, StreamEvent, StreamStatus};
pub use crate::types::{
    AnthropicChatCompletionChunk, AnthropicContentBlock, AnthropicErrorDetails,
    AnthropicErrorMessage, AnthropicMessage, AnthropicTextDelta, AnthropicUsage, ToolChoice,
};
