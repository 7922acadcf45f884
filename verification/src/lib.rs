//! Valuation tracking for polled equity quotes.
//!
//! The crate keeps the most recent observation per ticker symbol, classifies
//! each new price against the previous one, extracts quotes from quote-page
//! markup, concludes the cycles of a poller and schedules its ticks. Network
//! transfer, decimal-to-float conversion, threads and sleeping are left to
//! the caller.

pub mod coordinator;
pub mod error;
pub mod extract;
pub mod fetch;
pub mod poll;
pub mod price;
pub mod status;
pub mod stock;
pub mod store;
pub mod text;
