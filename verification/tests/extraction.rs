use stock_tracker::extract::{
    clean_price_text, extract_from, is_plain_selector, normalize_symbol, parse_stock_value,
    parse_stock_value_with, RawQuote, COMPANY_SELECTOR, MAX_SELECTOR_LENGTH, VALUE_SELECTOR,
};
use stock_tracker::price::Price;
use stock_tracker::status::Status;

fn page(body: &str) -> String {
    format!("<!DOCTYPE html><html><head><title>Quote</title></head><body>{body}</body></html>")
}

fn read_number(quote: &RawQuote) -> Option<Price> {
    match &quote.price_text {
        Some(text) => match text.parse::<f64>() {
            Ok(number) => Some(Price::from_bits(number.to_bits())),
            Err(_) => None,
        },
        None => None,
    }
}

fn extracted(markup: &str, code: &str) -> RawQuote {
    match parse_stock_value(markup, code) {
        Ok(quote) => quote,
        Err(error) => panic!("extraction failed: {error:?}"),
    }
}

fn price_in(markup: &str, code: &str) -> f64 {
    let quote = extracted(markup, code);
    let number = read_number(&quote);
    f64::from_bits(quote.priced(number).price.to_bits())
}

#[test]
fn extracts_name_and_dollar_price() {
    let markup = page(
        "<div class=\"zzDege\">Apple Inc.</div><div class=\"YMlKec fxKbKc\">$172.50</div>",
    );
    let quote = extracted(&markup, "AAPL:NASDAQ");
    assert_eq!(quote.symbol, "AAPL");
    assert_eq!(quote.company_name, "Apple Inc.");
    assert_eq!(quote.price_text.as_deref(), Some("172.50"));
    let number = read_number(&quote);
    let stock = quote.priced(number);
    assert_eq!(stock.symbol, "AAPL");
    assert_eq!(stock.company_name, "Apple Inc.");
    assert_eq!(f64::from_bits(stock.price.to_bits()), 172.5);
    assert_eq!(stock.status, Status::Up);
}

#[test]
fn extracts_rupiah_price_with_thousands_separator() {
    let markup = page(
        "<div class=\"zzDege\">Bank Central Asia</div><div class=\"YMlKec fxKbKc\">Rp\u{a0}15,000</div>",
    );
    let quote = extracted(&markup, "bbca:idx");
    assert_eq!(quote.symbol, "BBCA");
    assert_eq!(quote.price_text.as_deref(), Some("15000"));
    assert_eq!(price_in(&markup, "bbca:idx"), 15000.0);
}

#[test]
fn missing_elements_give_defaults() {
    let markup = page("<p>nothing to see</p>");
    let quote = extracted(&markup, "TLKM:IDX");
    assert_eq!(quote.symbol, "TLKM");
    assert_eq!(quote.company_name, "N/A");
    assert_eq!(quote.price_text, None);
    let stock = quote.priced(None);
    assert_eq!(stock.company_name, "N/A");
    assert_eq!(f64::from_bits(stock.price.to_bits()), 0.0);
    assert_eq!(stock.price.to_bits(), 0);
}

#[test]
fn empty_markup_gives_defaults() {
    let quote = extracted("", "TLKM");
    assert_eq!(quote.company_name, "N/A");
    assert_eq!(quote.price_text, None);
}

#[test]
fn elements_without_text_give_defaults() {
    let markup = page("<div class=\"zzDege\"></div><div class=\"YMlKec fxKbKc\"></div>");
    let quote = extracted(&markup, "TLKM:IDX");
    assert_eq!(quote.company_name, "N/A");
    assert_eq!(quote.price_text.as_deref(), Some("00"));
    assert_eq!(price_in(&markup, "TLKM:IDX"), 0.0);
}

#[test]
fn first_match_and_first_text_are_taken() {
    let markup = page(
        "<div class=\"zzDege\"><b>Alphabet</b> Inc.</div><div class=\"zzDege\">Other</div>\
         <span class=\"YMlKec\">1.00</span><span class=\"fxKbKc YMlKec\">$2,345.75</span>\
         <span class=\"YMlKec fxKbKc\">9.00</span>",
    );
    let quote = extracted(&markup, "GOOG:NASDAQ");
    assert_eq!(quote.company_name, "Alphabet");
    assert_eq!(quote.price_text.as_deref(), Some("2345.75"));
    assert_eq!(price_in(&markup, "GOOG:NASDAQ"), 2345.75);
}

#[test]
fn price_text_that_is_no_number_gives_zero() {
    let markup = page("<div class=\"YMlKec fxKbKc\">n/a today</div>");
    let quote = extracted(&markup, "X");
    assert_eq!(quote.price_text.as_deref(), Some("n/a today"));
    assert_eq!(read_number(&quote), None);
    assert_eq!(price_in(&markup, "X"), 0.0);
}

#[test]
fn priced_ignores_a_number_without_price_text() {
    let quote = RawQuote { symbol: "X".to_string(), company_name: "N/A".to_string(), price_text: None };
    let stock = quote.priced(Some(Price::from_bits(5.0f64.to_bits())));
    assert_eq!(stock.price.to_bits(), 0);
}

#[test]
fn invalid_company_selector_is_a_selector_failure() {
    let markup = page("<div class=\"zzDege\">Apple Inc.</div>");
    assert!(is_plain_selector("..zzDege"));
    let error = match parse_stock_value_with(&markup, "AAPL", "..zzDege", VALUE_SELECTOR) {
        Ok(quote) => panic!("extracted {quote:?}"),
        Err(error) => error,
    };
    assert_eq!(error.code, "SELECTOR_FAILED");
    assert!(!error.message.is_empty());
}

#[test]
fn invalid_value_selector_is_a_selector_failure() {
    let markup = page("<div class=\"zzDege\">Apple Inc.</div>");
    let error = match parse_stock_value_with(&markup, "AAPL", COMPANY_SELECTOR, "") {
        Ok(quote) => panic!("extracted {quote:?}"),
        Err(error) => error,
    };
    assert_eq!(error.code, "SELECTOR_FAILED");
}

#[test]
fn other_selectors_find_other_elements() {
    let markup = page("<h1 id=\"name\">Telkom</h1><span>1</span><span class=\"last\">3,500</span>");
    assert!(is_plain_selector("#name"));
    assert!(is_plain_selector("span.last"));
    let quote = match parse_stock_value_with(&markup, "tlkm:idx", "#name", "span.last") {
        Ok(quote) => quote,
        Err(error) => panic!("extraction failed: {error:?}"),
    };
    assert_eq!(quote.symbol, "TLKM");
    assert_eq!(quote.company_name, "Telkom");
    assert_eq!(quote.price_text.as_deref(), Some("3500"));
}

#[test]
fn extract_from_reports_the_company_selector_first() {
    let error = match extract_from(Err("first".to_string()), Err("second".to_string()), "AAPL".to_string()) {
        Ok(quote) => panic!("extracted {quote:?}"),
        Err(error) => error,
    };
    assert_eq!(error.code, "SELECTOR_FAILED");
    assert_eq!(error.message, "first");
    let error = match extract_from(Ok(None), Err("second".to_string()), "AAPL".to_string()) {
        Ok(quote) => panic!("extracted {quote:?}"),
        Err(error) => error,
    };
    assert_eq!(error.code, "SELECTOR_FAILED");
    assert_eq!(error.message, "second");
}

#[test]
fn extract_from_fills_in_defaults() {
    let quote = match extract_from(Ok(Some(None)), Ok(Some(Some("$1,000.25".to_string()))), "MSFT".to_string()) {
        Ok(quote) => quote,
        Err(error) => panic!("extraction failed: {error:?}"),
    };
    assert_eq!(quote.symbol, "MSFT");
    assert_eq!(quote.company_name, "N/A");
    assert_eq!(quote.price_text.as_deref(), Some("1000.25"));
}

#[test]
fn clean_price_text_strips_signs_and_separators() {
    assert_eq!(clean_price_text("$172.50"), "172.50");
    assert_eq!(clean_price_text("Rp\u{a0}15,000"), "15000");
    assert_eq!(clean_price_text("0,0"), "00");
    assert_eq!(clean_price_text("$1,234,567.89"), "1234567.89");
    assert_eq!(clean_price_text("Rp 15,000"), "Rp 15000");
    assert_eq!(clean_price_text("R$p\u{a0}1"), "1");
}

#[test]
fn symbol_normalization() {
    assert_eq!(normalize_symbol("bbca:idx"), "BBCA");
    assert_eq!(normalize_symbol("BBCA:IDX"), "BBCA");
    assert_eq!(normalize_symbol("aapl"), "AAPL");
    assert_eq!(normalize_symbol("TLKM:IDX:extra"), "TLKM");
    assert_eq!(normalize_symbol(""), "");
    assert_eq!(normalize_symbol(":idx"), "");
    assert_eq!(normalize_symbol("straße:x"), "STRASSE");
}

#[test]
fn a_price_below_zero_gives_zero() {
    let markup = page("<div class=\"YMlKec fxKbKc\">-5</div>");
    let quote = extracted(&markup, "X");
    assert_eq!(quote.price_text.as_deref(), Some("-5"));
    let number = read_number(&quote);
    assert_eq!(number.map(|price| f64::from_bits(price.to_bits())), Some(-5.0));
    let stock = quote.priced(number);
    assert_eq!(stock.price.to_bits(), 0);
    assert_eq!(price_in(&page("<div class=\"YMlKec fxKbKc\">$-1,234.50</div>"), "X"), 0.0);
    assert_eq!(price_in(&page("<div class=\"YMlKec fxKbKc\">-5e-324</div>"), "X"), 0.0);
}

#[test]
fn a_price_that_is_not_finite_gives_zero() {
    for text in ["NaN", "nan", "-nan", "inf", "+inf", "-inf", "infinity", "1e999", "-1e999"] {
        let markup = page(&format!("<div class=\"YMlKec fxKbKc\">{text}</div>"));
        let quote = extracted(&markup, "X");
        let number = read_number(&quote);
        assert!(number.is_some(), "{text} reads as a number");
        assert_eq!(quote.priced(number).price.to_bits(), 0, "{text}");
    }
}

#[test]
fn priced_keeps_finite_numbers_from_zero_up() {
    for value in [0.0f64, -0.0, 5e-324, 0.01, 172.5, 15000.0, f64::MAX] {
        let quote = RawQuote {
            symbol: "X".to_string(),
            company_name: "N/A".to_string(),
            price_text: Some("text".to_string()),
        };
        let stock = quote.priced(Some(Price::from_bits(value.to_bits())));
        assert_eq!(stock.price.to_bits(), value.to_bits(), "{value}");
        assert!(stock.price.is_quotable());
    }
}

#[test]
fn priced_turns_every_other_number_into_zero() {
    for value in [-5.0f64, -5e-324, f64::MIN, f64::NEG_INFINITY, f64::INFINITY, f64::NAN, -f64::NAN] {
        let quote = RawQuote {
            symbol: "X".to_string(),
            company_name: "N/A".to_string(),
            price_text: Some("text".to_string()),
        };
        let stock = quote.priced(Some(Price::from_bits(value.to_bits())));
        assert_eq!(stock.price.to_bits(), 0, "{value}");
        assert!(!Price::from_bits(value.to_bits()).is_quotable());
    }
}

#[test]
fn plain_selectors_are_told_apart() {
    assert!(is_plain_selector(COMPANY_SELECTOR));
    assert!(is_plain_selector(VALUE_SELECTOR));
    for selector in ["", "div", "h1#name.big", "a-b_c.D9", ".", "#", "..", "9"] {
        assert!(is_plain_selector(selector), "{selector:?}");
    }
    for selector in [
        "div span",
        "div>span",
        "a+b",
        "a~b",
        "a,b",
        "span[data-last]",
        "div:has(span)",
        ":not(a)",
        "a:hover",
        "*",
        "a|b",
        "a\\62",
        "caf\u{e9}",
        "a\u{a0}b",
        "a\nb",
    ] {
        assert!(!is_plain_selector(selector), "{selector:?}");
    }
    assert_eq!(MAX_SELECTOR_LENGTH, 256);
    assert!(is_plain_selector(&"a".repeat(256)));
    assert!(!is_plain_selector(&"a".repeat(257)));
    assert!(is_plain_selector(&".a".repeat(128)));
    assert!(!is_plain_selector(&"\u{e9}".repeat(200)));
}

#[test]
fn a_long_plain_selector_is_searched_with() {
    let class = "c".repeat(255);
    let markup = page(&format!("<div class=\"{class}\">Long</div>"));
    let selector = format!(".{class}");
    assert!(is_plain_selector(&selector));
    let quote = match parse_stock_value_with(&markup, "x", &selector, &selector) {
        Ok(quote) => quote,
        Err(error) => panic!("extraction failed: {error:?}"),
    };
    assert_eq!(quote.company_name, "Long");
    assert_eq!(quote.price_text.as_deref(), Some("Long"));
}
