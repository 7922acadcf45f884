//! A quote and its status.

use vstd::prelude::*;
use crate::price::Price;
use crate::status::Status;

verus! {

/// One observation of a symbol: the quote that was fetched, and how its
/// price stands against the previous observation of the same symbol.
#[derive(Debug)]
pub struct Stock {
    pub symbol: String,
    pub company_name: String,
    pub price: Price,
    pub status: Status,
}

/// An observation as plain values.
pub struct StockView {
    pub symbol: Seq<char>,
    pub company_name: Seq<char>,
    pub price: Price,
    pub status: Status,
}

impl View for Stock {
    type V = StockView;

    open spec fn view(&self) -> StockView {
        StockView {
            symbol: self.symbol@,
            company_name: self.company_name@,
            price: self.price,
            status: self.status,
        }
    }
}

impl Clone for Stock {
    fn clone(&self) -> (copy: Stock)
        ensures
            copy@ == self@,
    {
        Stock {
            symbol: self.symbol.clone(),
            company_name: self.company_name.clone(),
            price: self.price,
            status: self.status,
        }
    }
}

impl Stock {
    /// An observation with the given fields.
    pub fn new(symbol: String, company_name: String, price: Price, status: Status) -> (stock: Stock)
        ensures
            stock@ == (StockView {
                symbol: symbol@,
                company_name: company_name@,
                price,
                status,
            }),
    {
        Stock { symbol, company_name, price, status }
    }
}

} // verus!
