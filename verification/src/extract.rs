//! Extracting a quote from the markup of a quote page.
//!
//! The page is searched with two selectors, one for the element that holds
//! the company name and one for the element that holds the price. What the
//! search finds is turned into a quote here; the search itself is the work of
//! the `scraper` crate.

use vstd::prelude::*;
use crate::error::{ErrorKind, StockError, StockErrorView};
use crate::price::Price;
use crate::status::Status;
use crate::stock::{Stock, StockView};
use crate::text::{
    ascii_uppercase, chars_of, first_piece, lemma_split_first, remove_all, split, to_uppercase,
    uppercase_of, without,
};
use vstd::utf8::is_ascii_chars;

verus! {

/// What a search of a page with one selector found.
///
/// - `Err(message)`: the selector is not valid; the message says why.
/// - `Ok(None)`: no element of the page matches the selector.
/// - `Ok(Some(None))`: the first matching element holds no text.
/// - `Ok(Some(Some(text)))`: the first piece of text under the first
///   matching element.
pub type Found = Result<Option<Option<String>>, String>;

/// A search result as plain values.
pub type FoundView = Result<Option<Option<Seq<char>>>, Seq<char>>;

/// The plain value of a search result.
pub open spec fn found_view(found: Found) -> FoundView {
    match found {
        Err(message) => Err(message@),
        Ok(None) => Ok(None),
        Ok(Some(None)) => Ok(Some(None)),
        Ok(Some(Some(text))) => Ok(Some(Some(text@))),
    }
}

/// What searching the document parsed from `markup` with the selector group
/// parsed from `selector` finds: the first text node under the first
/// matching element to which the search comes.
pub uninterp spec fn first_text_of(markup: Seq<char>, selector: Seq<char>) -> FoundView;

/// The longest selector that is handed to the search, in characters.
pub const MAX_SELECTOR_LENGTH: usize = 256;

/// A character of a plain selector: an ASCII letter or digit, `-`, `_`, `.`
/// or `#`.
pub open spec fn plain_char(c: char) -> bool {
    ('a' <= c <= 'z') || ('A' <= c <= 'Z') || ('0' <= c <= '9') || c == '-' || c == '_' || c == '.'
        || c == '#'
}

/// A plain selector: at most `MAX_SELECTOR_LENGTH` characters, all of them
/// plain. Such a text can only be read as one compound of a tag name,
/// classes and ids. It has no combinator and no selector inside it, so
/// matching an element against it looks at that element alone: it neither
/// calls itself nor walks the document, however deep the document is.
pub open spec fn plain_selector(selector: Seq<char>) -> bool {
    &&& selector.len() <= MAX_SELECTOR_LENGTH
    &&& forall|i: int| 0 <= i < selector.len() ==> plain_char(#[trigger] selector[i])
}

/// `scraper::Selector::parse`, `scraper::Html::parse_document`,
/// `Html::select` and `ElementRef::text`, each iterator asked for its first
/// item. Parsing a document never fails; parsing a selector may, and its
/// error is handed back as text. The result depends on the two texts alone.
/// Matching goes one call deeper for every combinator of a selector and,
/// under `:has`, for every level of the document, so only plain selectors
/// are let in.
#[verifier::external_body]
fn select_first_text(markup: &str, selector: &str) -> (found: Found)
    requires
        plain_selector(selector@),
    ensures
        found_view(found) == first_text_of(markup@, selector@),
{
    match scraper::Selector::parse(selector) {
        Ok(parsed) => Ok(
            scraper::Html::parse_document(markup).select(&parsed).next().map(
                |element| element.text().next().map(|text| text.to_string()),
            ),
        ),
        Err(error) => Err(error.to_string()),
    }
}

/// The selector of the element that holds the company name.
pub const COMPANY_SELECTOR: &'static str = ".zzDege";

/// The selector of the element that holds the price.
pub const VALUE_SELECTOR: &'static str = ".YMlKec.fxKbKc";

/// A quote as it is read from a page: the price is still text.
#[derive(Debug)]
pub struct RawQuote {
    /// The symbol under which the quote is stored.
    pub symbol: String,
    /// The company name, `"N/A"` where the page shows none.
    pub company_name: String,
    /// The text to be read as the price, `None` where the page has no price
    /// element.
    pub price_text: Option<String>,
}

/// A raw quote as plain values.
pub struct RawQuoteView {
    pub symbol: Seq<char>,
    pub company_name: Seq<char>,
    pub price_text: Option<Seq<char>>,
}

impl View for RawQuote {
    type V = RawQuoteView;

    open spec fn view(&self) -> RawQuoteView {
        RawQuoteView {
            symbol: self.symbol@,
            company_name: self.company_name@,
            price_text: match self.price_text {
                Some(text) => Some(text@),
                None => None,
            },
        }
    }
}

/// The plain value of the outcome of an extraction.
pub open spec fn extraction_view(outcome: Result<RawQuote, StockError>) -> Result<
    RawQuoteView,
    StockErrorView,
> {
    match outcome {
        Ok(quote) => Ok(quote@),
        Err(error) => Err(error@),
    }
}

/// The symbol of a code in upper case: what stands before the first colon.
pub open spec fn symbol_of(upper: Seq<char>) -> Seq<char> {
    split(upper, ':')[0]
}

/// A price text without currency signs and thousands separators.
pub open spec fn cleaned(text: Seq<char>) -> Seq<char> {
    without(without(without(text, "$"@), "Rp\u{a0}"@), ","@)
}

/// The company name that a search result stands for.
pub open spec fn company_name_of(found: Option<Option<Seq<char>>>) -> Seq<char> {
    match found {
        Some(Some(text)) => text,
        _ => "N/A"@,
    }
}

/// The price text that a search result stands for.
pub open spec fn price_text_of(found: Option<Option<Seq<char>>>) -> Option<Seq<char>> {
    match found {
        None => None,
        Some(None) => Some(cleaned("0,0"@)),
        Some(Some(text)) => Some(cleaned(text)),
    }
}

/// The quote of a symbol that two search results stand for. An invalid
/// selector is the only failure, the company selector's first.
pub open spec fn extraction(name: FoundView, value: FoundView, symbol: Seq<char>) -> Result<
    RawQuoteView,
    StockErrorView,
> {
    match name {
        Err(message) => Err(
            StockErrorView { code: ErrorKind::SelectorFailed.code_text(), message },
        ),
        Ok(name_found) => match value {
            Err(message) => Err(
                StockErrorView { code: ErrorKind::SelectorFailed.code_text(), message },
            ),
            Ok(value_found) => Ok(
                RawQuoteView {
                    symbol,
                    company_name: company_name_of(name_found),
                    price_text: price_text_of(value_found),
                },
            ),
        },
    }
}

/// The price of a quote: the number that its price text was read as where
/// that is finite and not below zero, and zero in every other case, which
/// are: no price text, a text that is no number, a number below zero, an
/// infinity, not-a-number.
pub open spec fn price_of(price_text: Option<Seq<char>>, number: Option<Price>) -> Price {
    match (price_text, number) {
        (Some(_), Some(price)) => if price.quotable() {
            price
        } else {
            Price { bits: 0 }
        },
        _ => Price { bits: 0 },
    }
}

/// The quote with its price. The status is `Up` until the quote is
/// classified.
pub open spec fn priced(quote: RawQuoteView, number: Option<Price>) -> StockView {
    StockView {
        symbol: quote.symbol,
        company_name: quote.company_name,
        price: price_of(quote.price_text, number),
        status: Status::Up,
    }
}

/// Removes `"$"`, `"Rp"` followed by a no-break space, and `","`, in that
/// order.
pub fn clean_price_text(text: &str) -> (clean: String)
    ensures
        clean@ == cleaned(text@),
{
    let without_dollar = remove_all(text, "$");
    let without_rupiah = remove_all(without_dollar.as_str(), "Rp\u{a0}");
    remove_all(without_rupiah.as_str(), ",")
}

/// The symbol of a code does not depend on the case of its letters nor on
/// the exchange: a code of ASCII characters that is a symbol without a
/// colon, alone or followed by a colon and anything, has that symbol in
/// upper case as its symbol.
pub proof fn lemma_symbol_of_code(symbol: Seq<char>, exchange: Seq<char>)
    requires
        !symbol.contains(':'),
    ensures
        symbol_of(symbol) == symbol,
        symbol_of(symbol + seq![':'] + exchange) == symbol,
        symbol_of(ascii_uppercase(symbol)) == ascii_uppercase(symbol),
        symbol_of(ascii_uppercase(symbol + seq![':'] + exchange)) == ascii_uppercase(symbol),
        ascii_uppercase(ascii_uppercase(symbol)) == ascii_uppercase(symbol),
{
    let code = symbol + seq![':'] + exchange;
    let upper = ascii_uppercase(symbol);
    let upper_code = ascii_uppercase(code);
    assert(!upper.contains(':')) by {
        if upper.contains(':') {
            let j = choose|j: int| 0 <= j < upper.len() && upper[j] == ':';
            assert(symbol.contains(symbol[j]));
        }
    }
    assert(upper_code =~= upper + seq![':'] + ascii_uppercase(exchange));
    assert(ascii_uppercase(upper) =~= upper);
    lemma_split_first(symbol, ':', symbol.len() as int);
    lemma_split_first(upper, ':', upper.len() as int);
    lemma_split_first(code, ':', symbol.len() as int);
    lemma_split_first(upper_code, ':', upper.len() as int);
    assert(symbol.take(symbol.len() as int) =~= symbol);
    assert(upper.take(upper.len() as int) =~= upper);
    assert(code.take(symbol.len() as int) =~= symbol);
    assert(upper_code.take(upper.len() as int) =~= upper);
}

/// The symbol of a code: the code in upper case, cut before its first colon.
pub fn normalize_symbol(code: &str) -> (symbol: String)
    ensures
        symbol@ == symbol_of(uppercase_of(code@)),
        is_ascii_chars(code@) ==> symbol@ == symbol_of(ascii_uppercase(code@)),
{
    let upper = to_uppercase(code);
    first_piece(upper.as_str(), ':')
}

/// Turns what the two searches found into a quote of the symbol.
pub fn extract_from(name: Found, value: Found, symbol: String) -> (outcome: Result<
    RawQuote,
    StockError,
>)
    ensures
        extraction_view(outcome) == extraction(found_view(name), found_view(value), symbol@),
{
    let name_found = match name {
        Ok(found) => found,
        Err(message) => {
            return Err(StockError::of(ErrorKind::SelectorFailed, message));
        },
    };
    let value_found = match value {
        Ok(found) => found,
        Err(message) => {
            return Err(StockError::of(ErrorKind::SelectorFailed, message));
        },
    };
    let company_name = match name_found {
        Some(Some(text)) => text,
        _ => "N/A".to_owned(),
    };
    let price_text = match value_found {
        None => None,
        Some(None) => Some(clean_price_text("0,0")),
        Some(Some(text)) => Some(clean_price_text(text.as_str())),
    };
    Ok(RawQuote { symbol, company_name, price_text })
}

/// Whether a text is a plain selector.
pub fn is_plain_selector(selector: &str) -> (plain: bool)
    ensures
        plain == plain_selector(selector@),
{
    let chars = chars_of(selector);
    if chars.len() > MAX_SELECTOR_LENGTH {
        return false;
    }
    let mut at: usize = 0;
    while at < chars.len()
        invariant
            at <= chars.len(),
            chars@ == selector@,
            forall|i: int| 0 <= i < at ==> plain_char(#[trigger] chars@[i]),
        decreases chars.len() - at,
    {
        let c = chars[at];
        let plain = ('a' <= c && c <= 'z') || ('A' <= c && c <= 'Z') || ('0' <= c && c <= '9')
            || c == '-' || c == '_' || c == '.' || c == '#';
        if !plain {
            return false;
        }
        at += 1;
    }
    true
}

/// Extracts the quote of `stock` from the markup of a page, with the given
/// selectors for the company name and the price. The selectors have to be
/// plain, which [`is_plain_selector`] tests: the depth of the stack is the
/// machine's limit, and only for a plain selector does the search stay
/// within it on every page.
pub fn parse_stock_value_with(
    html_content: &str,
    stock: &str,
    company_selector: &str,
    value_selector: &str,
) -> (outcome: Result<RawQuote, StockError>)
    requires
        plain_selector(company_selector@),
        plain_selector(value_selector@),
    ensures
        extraction_view(outcome) == extraction(
            first_text_of(html_content@, company_selector@),
            first_text_of(html_content@, value_selector@),
            symbol_of(uppercase_of(stock@)),
        ),
        is_ascii_chars(stock@) ==> (outcome matches Ok(quote) ==> quote.symbol@ == symbol_of(
            ascii_uppercase(stock@),
        )),
{
    let name = select_first_text(html_content, company_selector);
    let value = select_first_text(html_content, value_selector);
    extract_from(name, value, normalize_symbol(stock))
}

/// Extracts the quote of `stock` from the markup of its quote page.
pub fn parse_stock_value(html_content: &str, stock: &str) -> (outcome: Result<
    RawQuote,
    StockError,
>)
    ensures
        extraction_view(outcome) == extraction(
            first_text_of(html_content@, COMPANY_SELECTOR@),
            first_text_of(html_content@, VALUE_SELECTOR@),
            symbol_of(uppercase_of(stock@)),
        ),
        is_ascii_chars(stock@) ==> (outcome matches Ok(quote) ==> quote.symbol@ == symbol_of(
            ascii_uppercase(stock@),
        )),
{
    proof {
        reveal_strlit(".zzDege");
        reveal_strlit(".YMlKec.fxKbKc");
    }
    parse_stock_value_with(html_content, stock, COMPANY_SELECTOR, VALUE_SELECTOR)
}

impl RawQuote {
    /// The quote with its price. `number` is what the price text reads as a
    /// decimal number, `None` where it is no number. The price is that number
    /// where it is finite and not below zero, and zero otherwise.
    pub fn priced(self, number: Option<Price>) -> (stock: Stock)
        ensures
            stock@ == priced(self@, number),
            stock.price.quotable(),
    {
        let price = match (&self.price_text, number) {
            (Some(_), Some(price)) => if price.is_quotable() {
                price
            } else {
                Price::zero()
            },
            _ => Price::zero(),
        };
        Stock::new(self.symbol, self.company_name, price, Status::Up)
    }
}

} // verus!
