//! The failures of one request.

use vstd::prelude::*;
use vstd::string::*;

verus! {

/// Why a request gave no result.
#[derive(Debug, Clone, PartialEq, Eq)]
pub enum ApiError {
    /// Status 400: the remote side rejected the parameters.
    BadRequest,
    /// Status 401: the remote side rejected the credential.
    Unauthorized,
    /// Another status than 200, 400 and 401.
    UnexpectedStatus(u16),
    /// The body of a complete response has not the expected shape. It is
    /// kept as it came.
    ResponseParse(String),
    /// A frame of a streamed response is no valid UTF-8.
    Encoding,
}

pub enum ApiErrorView {
    BadRequest,
    Unauthorized,
    UnexpectedStatus(u16),
    ResponseParse(Seq<char>),
    Encoding,
}

impl View for ApiError {
    type V = ApiErrorView;

    open spec fn view(&self) -> ApiErrorView {
        match self {
            ApiError::BadRequest => ApiErrorView::BadRequest,
            ApiError::Unauthorized => ApiErrorView::Unauthorized,
            ApiError::UnexpectedStatus(code) => ApiErrorView::UnexpectedStatus(*code),
            ApiError::ResponseParse(body) => ApiErrorView::ResponseParse(body@),
            ApiError::Encoding => ApiErrorView::Encoding,
        }
    }
}

/// The character of the decimal digit `d`.
pub open spec fn digit(d: nat) -> char {
    if d == 0 {
        '0'
    } else if d == 1 {
        '1'
    } else if d == 2 {
        '2'
    } else if d == 3 {
        '3'
    } else if d == 4 {
        '4'
    } else if d == 5 {
        '5'
    } else if d == 6 {
        '6'
    } else if d == 7 {
        '7'
    } else if d == 8 {
        '8'
    } else {
        '9'
    }
}

/// `n` in decimal, without leading zeros.
pub open spec fn decimal(n: nat) -> Seq<char>
    decreases n,
{
    if n < 10 {
        seq![digit(n)]
    } else {
        decimal(n / 10).push(digit(n % 10))
    }
}

impl ApiErrorView {
    /// The text that describes the failure.
    pub open spec fn message(self) -> Seq<char> {
        match self {
            ApiErrorView::BadRequest => "Bad request. Check your request parameters."@,
            ApiErrorView::Unauthorized => "Unauthorized. Check your authorization."@,
            ApiErrorView::UnexpectedStatus(code) => "Unexpected status code: "@ + decimal(
                code as nat,
            ),
            ApiErrorView::ResponseParse(_) => "Unable to parse JSON"@,
            ApiErrorView::Encoding => "Invalid UTF-8 sequence"@,
        }
    }
}

/// The text of the decimal digit `d`.
fn digit_text(d: u16) -> (text: &'static str)
    requires
        d < 10,
    ensures
        text@ == seq![digit(d as nat)],
{
    proof {
        reveal_strlit("0");
        reveal_strlit("1");
        reveal_strlit("2");
        reveal_strlit("3");
        reveal_strlit("4");
        reveal_strlit("5");
        reveal_strlit("6");
        reveal_strlit("7");
        reveal_strlit("8");
        reveal_strlit("9");
    }
    let text = if d == 0 {
        "0"
    } else if d == 1 {
        "1"
    } else if d == 2 {
        "2"
    } else if d == 3 {
        "3"
    } else if d == 4 {
        "4"
    } else if d == 5 {
        "5"
    } else if d == 6 {
        "6"
    } else if d == 7 {
        "7"
    } else if d == 8 {
        "8"
    } else {
        "9"
    };
    assert(text@ =~= seq![digit(d as nat)]);
    text
}

/// Writes `n` in decimal.
pub fn decimal_text(n: u16) -> (text: String)
    ensures
        text@ == decimal(n as nat),
    decreases n,
{
    if n < 10 {
        digit_text(n).to_owned()
    } else {
        let mut text = decimal_text(n / 10);
        text.append(digit_text(n % 10));
        assert(text@ =~= decimal(n as nat));
        text
    }
}

impl ApiError {
    /// The text that describes the failure.
    pub fn message(&self) -> (text: String)
        ensures
            text@ == self@.message(),
    {
        match self {
            ApiError::BadRequest => "Bad request. Check your request parameters.".to_owned(),
            ApiError::Unauthorized => "Unauthorized. Check your authorization.".to_owned(),
            ApiError::UnexpectedStatus(code) => {
                let mut text = "Unexpected status code: ".to_owned();
                text.append(decimal_text(*code).as_str());
                text
            },
            ApiError::ResponseParse(_) => "Unable to parse JSON".to_owned(),
            ApiError::Encoding => "Invalid UTF-8 sequence".to_owned(),
        }
    }
}

} // verus!
