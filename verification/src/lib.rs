//! Product prices from the text recognised on receipts.
//!
//! A receipt's text is read line by line: noise lines are dropped, the rest is
//! matched against a cascade of patterns, and each match that passes the checks
//! on its price and its name becomes a record. The records of a batch are then
//! folded into totals per product, where names that are close enough count as
//! the same product, and the totals are ordered for display.
//!
//! Amounts are whole hundredths of the currency unit throughout.

pub mod aggregate;
pub mod analysis;
pub mod cascade;
pub mod digits;
pub mod intake;
pub mod name;
pub mod noise;
pub mod price;
pub mod product;
pub mod quantity;
pub mod receipt;
pub mod report;
pub mod similarity;
pub mod text;
