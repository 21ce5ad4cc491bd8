//! From the status of a response to the way its body is read.

use crate::error::{ApiError, ApiErrorView};
use vstd::prelude::*;

verus! {

/// How the body of an accepted request is read.
#[derive(Debug, Clone, Copy, PartialEq, Eq)]
pub enum ResponseMode {
    /// Chunk by chunk, through a stream decoder.
    Streaming,
    /// As one text.
    Complete,
}

/// What the status `code` asks for: the body is read on 200, in the mode
/// that the request was made for, and every other status is a failure.
pub open spec fn route(code: u16, stream: bool) -> Result<ResponseMode, ApiErrorView> {
    if code == 200 {
        if stream {
            Ok(ResponseMode::Streaming)
        } else {
            Ok(ResponseMode::Complete)
        }
    } else if code == 400 {
        Err(ApiErrorView::BadRequest)
    } else if code == 401 {
        Err(ApiErrorView::Unauthorized)
    } else {
        Err(ApiErrorView::UnexpectedStatus(code))
    }
}

/// Decides from the status of a response how its body is read, or why the
/// request has failed.
pub fn dispatch(code: u16, stream: bool) -> (mode: Result<ResponseMode, ApiError>)
    ensures
        match mode {
            Ok(m) => route(code, stream) == Ok::<ResponseMode, ApiErrorView>(m),
            Err(e) => route(code, stream) == Err::<ResponseMode, ApiErrorView>(e@),
        },
{
    if code == 200 {
        if stream {
            Ok(ResponseMode::Streaming)
        } else {
            Ok(ResponseMode::Complete)
        }
    } else if code == 400 {
        Err(ApiError::BadRequest)
    } else if code == 401 {
        Err(ApiError::Unauthorized)
    } else {
        Err(ApiError::UnexpectedStatus(code))
    }
}

} // verus!
