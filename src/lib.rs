//! Estimates the resale value of the items of a collection from recent
//! completed sales: extraction of sale records from a results page, a
//! plausibility filter, price aggregation, a bounded retry policy and a
//! bounded dispatcher, each stated and proved over integer models (prices in
//! cents, points in time as UTC seconds).

pub mod types;
pub mod text;
pub mod numbers;
pub mod date;
pub mod extract;
pub mod filter;
pub mod aggregate;
pub mod controller;
pub mod portfolio;
pub mod dispatch;
pub mod report;
pub mod url;

pub use types::{DateError, EbayResult, FetchError, ItemError, PortfolioItem, PriceAnalysis, RowError};
pub use date::parse_date;
