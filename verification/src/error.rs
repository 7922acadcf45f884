//! Failures of fetching and extracting a quote.

use vstd::prelude::*;
use vstd::string::StringExecFns;

verus! {

/// What went wrong while a quote was fetched or extracted.
#[derive(Clone, Copy, Debug, PartialEq, Eq, Structural)]
pub enum ErrorKind {
    /// The address of the quote page could not be built.
    ParseUrlFailed,
    /// The request did not reach the server or no response came back.
    RequestFailed,
    /// The server answered with a status other than success.
    ResponseFailed,
    /// The body of the response could not be read.
    ResponseBodyFailed,
    /// A selector that locates an element of the page is not valid.
    SelectorFailed,
}

impl ErrorKind {
    /// The code under which the kind is reported.
    pub open spec fn code_text(self) -> Seq<char> {
        match self {
            ErrorKind::ParseUrlFailed => "PARSE_URL_FAILED"@,
            ErrorKind::RequestFailed => "REQUEST_FAILED"@,
            ErrorKind::ResponseFailed => "RESPONSE_FAILED"@,
            ErrorKind::ResponseBodyFailed => "RESPONSE_BODY_FAILED"@,
            ErrorKind::SelectorFailed => "SELECTOR_FAILED"@,
        }
    }

    /// The code under which the kind is reported.
    pub fn code(&self) -> (code: &'static str)
        ensures
            code@ == self.code_text(),
    {
        match self {
            ErrorKind::ParseUrlFailed => "PARSE_URL_FAILED",
            ErrorKind::RequestFailed => "REQUEST_FAILED",
            ErrorKind::ResponseFailed => "RESPONSE_FAILED",
            ErrorKind::ResponseBodyFailed => "RESPONSE_BODY_FAILED",
            ErrorKind::SelectorFailed => "SELECTOR_FAILED",
        }
    }
}

/// Different kinds have different codes.
pub proof fn lemma_codes_differ(a: ErrorKind, b: ErrorKind)
    ensures
        a.code_text() == b.code_text() <==> a == b,
{
    reveal_strlit("PARSE_URL_FAILED");
    reveal_strlit("REQUEST_FAILED");
    reveal_strlit("RESPONSE_FAILED");
    reveal_strlit("RESPONSE_BODY_FAILED");
    reveal_strlit("SELECTOR_FAILED");
    let p = "PARSE_URL_FAILED"@;
    let q = "REQUEST_FAILED"@;
    let r = "RESPONSE_FAILED"@;
    let s = "RESPONSE_BODY_FAILED"@;
    let t = "SELECTOR_FAILED"@;
    assert(p.len() == 16 && q.len() == 14 && r.len() == 15 && s.len() == 20 && t.len() == 15);
    assert(r[0] == 'R' && t[0] == 'S');
}

/// The `Debug` form of a text: the text between double quotes, with the
/// characters that cannot stand there as they are written as escapes.
pub uninterp spec fn debug_of(text: Seq<char>) -> Seq<char>;

/// A text of ASCII letters, digits and `_` only.
pub open spec fn word(text: Seq<char>) -> bool {
    forall|i: int|
        0 <= i < text.len() ==> {
            let c = #[trigger] text[i];
            ('a' <= c <= 'z') || ('A' <= c <= 'Z') || ('0' <= c <= '9') || c == '_'
        }
}

/// `format!("{:?}", text)`: the `Debug` form of a string slice, which is a
/// function of the text alone. A word needs no escape, so its form is the
/// word between double quotes.
#[verifier::external_body]
fn debug_text(text: &str) -> (quoted: String)
    ensures
        quoted@ == debug_of(text@),
        word(text@) ==> quoted@ == seq!['"'] + text@ + seq!['"'],
{
    format!("{:?}", text)
}

/// A failure: a code that names its kind, and a message.
#[derive(Debug)]
pub struct StockError {
    pub code: String,
    pub message: String,
}

/// A failure as plain values.
pub struct StockErrorView {
    pub code: Seq<char>,
    pub message: Seq<char>,
}

impl View for StockError {
    type V = StockErrorView;

    open spec fn view(&self) -> StockErrorView {
        StockErrorView { code: self.code@, message: self.message@ }
    }
}

impl StockError {
    /// Whether the failure is of the given kind.
    pub open spec fn is_kind(self, kind: ErrorKind) -> bool {
        self.code@ == kind.code_text()
    }

    /// A failure with the given code and message.
    pub fn new(code: String, message: String) -> (error: StockError)
        ensures
            error@ == (StockErrorView { code: code@, message: message@ }),
    {
        StockError { code, message }
    }

    /// The failure as one line of text: the code in its `Debug` form, a
    /// colon, a space, and the message.
    pub fn to_text(&self) -> (line: String)
        ensures
            line@ == debug_of(self.code@) + ": "@ + self.message@,
            word(self.code@) ==> line@ == seq!['"'] + self.code@ + seq!['"'] + ": "@
                + self.message@,
    {
        debug_text(self.code.as_str()).concat(": ").concat(self.message.as_str())
    }

    /// A failure of the given kind, and of no other.
    pub fn of(kind: ErrorKind, message: String) -> (error: StockError)
        ensures
            error@ == (StockErrorView { code: kind.code_text(), message: message@ }),
            forall|other: ErrorKind| error.is_kind(other) <==> other == kind,
    {
        proof {
            assert forall|other: ErrorKind| other.code_text() == kind.code_text() implies other
                == kind by {
                lemma_codes_differ(other, kind);
            }
        }
        StockError::new(kind.code().to_owned(), message)
    }
}

} // verus!
