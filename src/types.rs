use vstd::prelude::*;

verus! {

/// An owned item under valuation: its set number (the search term) and its
/// reference price in cents. Two items are the same item when their set
/// numbers agree, whatever their prices.
#[derive(Debug, Clone)]
pub struct PortfolioItem {
    pub target_price: u64,
    pub set_number: String,
}

impl PartialEq for PortfolioItem {
    fn eq(&self, other: &PortfolioItem) -> (r: bool)
        ensures
            r == (self.set_number@ == other.set_number@),
    {
        self.set_number == other.set_number
    }
}

impl vstd::std_specs::cmp::PartialEqSpecImpl for PortfolioItem {
    open spec fn obeys_eq_spec() -> bool {
        true
    }

    open spec fn eq_spec(&self, other: &PortfolioItem) -> bool {
        self.set_number@ == other.set_number@
    }
}

impl Eq for PortfolioItem {}

/// One completed sale read from a results page: price in cents, end of the
/// sale in UTC seconds, and the listing's title.
#[derive(Debug, Clone)]
pub struct EbayResult {
    pub price: u64,
    pub date: i64,
    pub name: String,
}

/// Statistics over the plausible sales of one item, in cents; `avg` is the
/// arithmetic mean rounded down.
#[derive(Debug, Clone, Copy, PartialEq, Eq)]
pub struct PriceAnalysis {
    pub min: u64,
    pub max: u64,
    pub avg: u64,
    pub data_points: usize,
}

impl Default for PriceAnalysis {
    /// The neutral start of a running minimum and maximum, with no data.
    fn default() -> (r: PriceAnalysis)
        ensures
            r.min == u64::MAX,
            r.max == 0,
            r.avg == 0,
            r.data_points == 0,
    {
        PriceAnalysis { min: u64::MAX, max: 0, avg: 0, data_points: 0 }
    }
}

/// Why a row of the portfolio sheet yields no item.
#[derive(Debug, Clone, Copy, PartialEq, Eq)]
pub enum RowError {
    /// Both cells are empty: the row stands for a blank line of the report.
    EmptyRow,
    MissingSetNumber,
    MissingTargetPrice,
    /// A cell holds text where a number is expected.
    NotANumber,
    /// The set number is empty or the reference price is not positive.
    InvalidValue,
}

/// Why the date text of a listing cannot be read.
#[derive(Debug, Clone, Copy, PartialEq, Eq)]
pub enum DateError {
    /// The month abbreviation is none of the twelve known ones.
    UnknownMonth,
    /// Day, month or time is missing or out of range.
    Malformed,
}

/// Why one attempt at pricing an item failed.
#[derive(Debug, Clone, Copy, PartialEq, Eq)]
pub enum FetchError {
    /// The page could not be fetched.
    Transport,
    /// The page no longer has the expected structure.
    ExtractionFormat(DateError),
    /// A selector or pattern of the engine was refused by the parser.
    BadSelector,
    /// The filter kept no record.
    NoPlausibleEvidence,
}

/// The final failure of one item: the last error after every attempt.
#[derive(Debug, Clone, Copy, PartialEq, Eq)]
pub enum ItemError {
    RetryExhausted(FetchError),
}

} // verus!
