//! Price-divergence alerting between two market-data sources.
//!
//! Each source keeps a [`price_table::PriceTable`] of the latest price per
//! symbol. [`evaluator::evaluate`] compares one symbol across the two tables
//! and, through the [`ledger::AlertLedger`], notifies at most once per symbol.
//! The remaining modules turn exchange data into table updates and prepare
//! deliveries to the messaging API.

pub mod evaluator;
pub mod feed;
pub mod keys;
pub mod laws;
pub mod ledger;
pub mod price;
pub mod price_table;
pub mod telegram;
pub mod ticker;
