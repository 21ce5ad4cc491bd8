//! The body of a complete response: the text of its first text block.

use crate::decode::{content_blocks_of, read_content_blocks};
use crate::error::{ApiError, ApiErrorView};
use crate::json::{lemma_view_unfolds, member, parsed_json, Json, JsonView};
use crate::text::same_text;
use crate::types::{text_view, AnthropicContentBlock, ContentBlockView};
use vstd::prelude::*;

verus! {

/// Whether each of `blocks` has a text.
pub open spec fn all_have_text(blocks: Seq<ContentBlockView>) -> bool {
    forall|i: int| 0 <= i < blocks.len() ==> (#[trigger] blocks[i]).text is Some
}

/// The text of the first of `blocks` whose type is `text`; `None` where
/// there is no such block.
pub open spec fn first_text(blocks: Seq<ContentBlockView>) -> Option<Seq<char>>
    decreases blocks.len(),
{
    if blocks.len() == 0 {
        None
    } else if blocks[0].content_type == "text"@ {
        blocks[0].text
    } else {
        first_text(blocks.skip(1))
    }
}

/// The text that the response `j` carries: that of the first block of type
/// `text` in its `content`. The outer `None` stands for a malformed
/// response: `j` is no object, it has no array `content`, or one of the
/// blocks lacks a text `type` or a text `text`.
pub open spec fn reply_text(j: JsonView) -> Option<Option<Seq<char>>> {
    match (j, member(j, "content"@)) {
        (JsonView::Object(_), Some(JsonView::Array(items))) => match content_blocks_of(items) {
            Some(blocks) => if all_have_text(blocks) {
                Some(first_text(blocks))
            } else {
                None
            },
            None => None,
        },
        _ => None,
    }
}

/// What the callback receives for the body `body`, once the body has been
/// read as JSON, `document` being `None` where it is no JSON. With tools in
/// the request, or in verbose mode, it is the body as it came.
pub open spec fn body_outcome(
    document: Option<JsonView>,
    body: Seq<char>,
    verbose: bool,
    tools: bool,
) -> Result<Option<Seq<char>>, ApiErrorView> {
    if verbose || tools {
        Ok(Some(body))
    } else {
        match document {
            Some(j) => match reply_text(j) {
                Some(text) => Ok(text),
                None => Err(ApiErrorView::ResponseParse(body)),
            },
            None => Err(ApiErrorView::ResponseParse(body)),
        }
    }
}

/// Whether `found` is what `outcome` says.
pub open spec fn agrees(
    found: Result<Option<String>, ApiError>,
    outcome: Result<Option<Seq<char>>, ApiErrorView>,
) -> bool {
    match found {
        Ok(text) => outcome == Ok::<Option<Seq<char>>, ApiErrorView>(text_view(text)),
        Err(e) => outcome == Err::<Option<Seq<char>>, ApiErrorView>(e@),
    }
}

/// Picks the text of the first block of type `text` from the response `j`.
pub fn text_of_reply(j: &Json) -> (text: Option<Option<String>>)
    ensures
        match text {
            Some(t) => reply_text(j@) == Some(text_view(t)),
            None => reply_text(j@) is None,
        },
{
    let items = match j {
        Json::Object(_) => match j.get("content") {
            Some(Json::Array(items)) => items,
            _ => { return None; },
        },
        _ => { return None; },
    };
    proof {
        lemma_view_unfolds(Json::Array(*items));
        assert(Json::Array(*items)@->Array_0 =~= items@.map_values(|j: Json| j@));
    }
    let blocks = match read_content_blocks(items) {
        Some(blocks) => blocks,
        None => { return None; },
    };
    let ghost views = blocks@.map_values(|b: AnthropicContentBlock| b@);
    let ghost item_views = items@.map_values(|j: Json| j@);
    let mut found: Option<String> = None;
    let mut searching = true;
    let mut i: usize = 0;
    assert(views.skip(0) =~= views);
    while i < blocks.len()
        invariant
            i <= blocks.len(),
            views == blocks@.map_values(|b: AnthropicContentBlock| b@),
            j@ is Object,
            member(j@, "content"@) == Some(JsonView::Array(item_views)),
            content_blocks_of(item_views) == Some(views),
            forall|k: int| 0 <= k < i ==> (#[trigger] views[k]).text is Some,
            searching ==> found is None && first_text(views.skip(i as int)) == first_text(views),
            !searching ==> text_view(found) == first_text(views),
        decreases blocks.len() - i,
    {
        assert(views[i as int] == blocks@[i as int]@);
        assert(views.skip(i as int)[0] == views[i as int]);
        assert(views.skip(i as int).skip(1) =~= views.skip(i + 1));
        match &blocks[i].text {
            None => {
                return None;
            },
            Some(text) => {
                if searching && same_text(blocks[i].content_type.as_str(), "text") {
                    found = Some(text.clone());
                    searching = false;
                }
            },
        }
        i += 1;
    }
    Some(found)
}

/// Decides what the callback receives for the body `body` from the JSON
/// document that was read from it.
pub fn text_of_document(document: Option<Json>, body: &str, verbose: bool, tools: bool) -> (found:
    Result<Option<String>, ApiError>)
    ensures
        agrees(
            found,
            body_outcome(
                match document {
                    Some(j) => Some(j@),
                    None => None,
                },
                body@,
                verbose,
                tools,
            ),
        ),
{
    if verbose || tools {
        return Ok(Some(body.to_owned()));
    }
    let text = match document {
        Some(j) => text_of_reply(&j),
        None => None,
    };
    match text {
        Some(text) => Ok(text),
        None => Err(ApiError::ResponseParse(body.to_owned())),
    }
}

/// Reads the body of a complete response. In verbose mode, and with tools
/// in the request, the callback receives the body as it came. Otherwise it
/// receives the text of the first block of type `text`, nothing where there
/// is no such block, and the request fails where the body is no well-formed
/// response.
pub fn read_body(body: &str, verbose: bool, tools: bool) -> (found: Result<
    Option<String>,
    ApiError,
>)
    ensures
        agrees(found, body_outcome(parsed_json(body@), body@, verbose, tools)),
{
    if verbose || tools {
        return Ok(Some(body.to_owned()));
    }
    let document = Json::parse(body);
    text_of_document(document, body, verbose, tools)
}

} // verus!
