//! The decisions of fetching a quote page: where the page is, what to send
//! with the request, and what each answer of the server means. The transfer
//! itself is the caller's.

use vstd::prelude::*;
use vstd::string::StringExecFns;
use crate::error::{ErrorKind, StockError, StockErrorView};

verus! {

/// What every address of a quote page starts with.
pub const BASE_URL: &'static str = "https://www.google.com/finance/quote/";

/// The name of the header that is sent with every request.
pub const HEADER_NAME: &'static str = "User-Agent";

/// The value of the header that is sent with every request.
pub const HEADER_VALUE: &'static str = "Mozilla/5.0";

/// A `GET` request for a quote page.
#[derive(Debug)]
pub struct Request {
    /// The address of the page, as the parser of addresses writes it.
    pub url: String,
    /// The name of the one header to send.
    pub header_name: String,
    /// The value of that header.
    pub header_value: String,
}

/// A request as plain values.
pub struct RequestView {
    pub url: Seq<char>,
    pub header_name: Seq<char>,
    pub header_value: Seq<char>,
}

impl View for Request {
    type V = RequestView;

    open spec fn view(&self) -> RequestView {
        RequestView {
            url: self.url@,
            header_name: self.header_name@,
            header_value: self.header_value@,
        }
    }
}

/// The plain value of a parsed address or of the parser's complaint.
pub open spec fn parsed_view(parsed: Result<String, String>) -> Result<Seq<char>, Seq<char>> {
    match parsed {
        Ok(url) => Ok(url@),
        Err(message) => Err(message@),
    }
}

/// The plain value of a request or of the failure to build one.
pub open spec fn request_view(outcome: Result<Request, StockError>) -> Result<
    RequestView,
    StockErrorView,
> {
    match outcome {
        Ok(request) => Ok(request@),
        Err(error) => Err(error@),
    }
}

/// What parsing a text as an absolute URL gives: the URL in its serialized
/// form, or the text of the parse error.
pub uninterp spec fn parsed_url(text: Seq<char>) -> Result<Seq<char>, Seq<char>>;

/// `url::Url::parse`, with the URL handed back as its serialization and the
/// error as its text. The result depends on the argument alone.
#[verifier::external_body]
fn parse_url(text: &str) -> (parsed: Result<String, String>)
    ensures
        parsed_view(parsed) == parsed_url(text@),
{
    match url::Url::parse(text) {
        Ok(url) => Ok(String::from(url)),
        Err(error) => Err(error.to_string()),
    }
}

/// The text from which the address of the quote page of `stock` is parsed.
pub open spec fn address_text(stock: Seq<char>) -> Seq<char> {
    BASE_URL@ + stock
}

/// The request that a parsed address stands for, or the failure that the
/// parser's complaint stands for.
pub open spec fn request_for(parsed: Result<Seq<char>, Seq<char>>) -> Result<
    RequestView,
    StockErrorView,
> {
    match parsed {
        Ok(url) => Ok(RequestView { url, header_name: HEADER_NAME@, header_value: HEADER_VALUE@ }),
        Err(message) => Err(
            StockErrorView { code: ErrorKind::ParseUrlFailed.code_text(), message },
        ),
    }
}

/// Whether a status code reports success: the codes from 200 to 299.
pub open spec fn success_status(code: u16) -> bool {
    200 <= code <= 299
}

/// The text from which the address of the quote page of `stock` is parsed.
pub fn quote_address(stock: &str) -> (address: String)
    ensures
        address@ == address_text(stock@),
{
    BASE_URL.to_owned().concat(stock)
}

/// Turns a parsed address into a request, and the parser's complaint into a
/// failure of kind `ParseUrlFailed`.
pub fn request_from(parsed: Result<String, String>) -> (outcome: Result<Request, StockError>)
    ensures
        request_view(outcome) == request_for(parsed_view(parsed)),
{
    match parsed {
        Ok(url) => Ok(
            Request {
                url,
                header_name: HEADER_NAME.to_owned(),
                header_value: HEADER_VALUE.to_owned(),
            },
        ),
        Err(message) => Err(StockError::of(ErrorKind::ParseUrlFailed, message)),
    }
}

/// The request for the quote page of `stock`.
pub fn fetch_request(stock: &str) -> (outcome: Result<Request, StockError>)
    ensures
        request_view(outcome) == request_for(parsed_url(address_text(stock@))),
{
    let address = quote_address(stock);
    request_from(parse_url(address.as_str()))
}

/// The failure of a request that got no response; `message` says why.
pub fn request_failure(message: String) -> (error: StockError)
    ensures
        error@ == (StockErrorView { code: ErrorKind::RequestFailed.code_text(), message: message@ }),
{
    StockError::of(ErrorKind::RequestFailed, message)
}

/// Accepts a response by its status: a success status passes, every other
/// status is a failure of kind `ResponseFailed` that carries the status line.
pub fn accept_status(code: u16, status_line: String) -> (outcome: Result<(), StockError>)
    ensures
        outcome is Ok <==> success_status(code),
        outcome matches Err(error) ==> error@ == (StockErrorView {
            code: ErrorKind::ResponseFailed.code_text(),
            message: status_line@,
        }),
{
    if 200 <= code && code <= 299 {
        Ok(())
    } else {
        Err(StockError::of(ErrorKind::ResponseFailed, status_line))
    }
}

/// The failure of a response whose body could not be read; `message` says
/// why.
pub fn body_failure(message: String) -> (error: StockError)
    ensures
        error@ == (StockErrorView {
            code: ErrorKind::ResponseBodyFailed.code_text(),
            message: message@,
        }),
{
    StockError::of(ErrorKind::ResponseBodyFailed, message)
}

} // verus!
