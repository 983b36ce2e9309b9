use vstd::prelude::*;
use crate::text::{chars_of, contains_chars, contains_seq};
use crate::types::{EbayResult, FetchError, PortfolioItem};

verus! {

/// Length of the recency window: thirty days, in seconds.
pub const RECENCY_WINDOW: i64 = 30 * 24 * 60 * 60;

/// The pattern of a strong numeric identifier: a run of five or more digits.
pub const LONG_NUMBER_PATTERN: &'static str = "\\d{5,}";

/// What `regex` reports for `pattern` on `text`: the number of
/// non-overlapping leftmost matches, or `None` where the pattern is refused.
pub uninterp spec fn regex_match_count(pattern: Seq<char>, text: Seq<char>) -> Option<nat>;

pub open spec fn opt_count(r: Option<usize>) -> Option<nat> {
    match r {
        Some(n) => Some(n as nat),
        None => None,
    }
}

/// Relies on regex::Regex::new (compiling the pattern) and Regex::find_iter
/// (walking its non-overlapping matches), whose number is returned.
#[verifier::external_body]
fn count_matches(pattern: &str, text: &str) -> (r: Option<usize>)
    ensures
        opt_count(r) == regex_match_count(pattern@, text@),
{
    match regex::Regex::new(pattern) {
        Ok(re) => Some(re.find_iter(text).count()),
        Err(_) => None,
    }
}

/// The sale ended within the window before `now`, and not after it.
pub open spec fn is_recent(now: int, date: int) -> bool {
    0 <= now - date < RECENCY_WINDOW
}

/// The price exceeds half of the reference price.
pub open spec fn price_is_sane(price: int, target: int) -> bool {
    2 * price > target
}

/// With no strong identifier the title cannot contradict; otherwise exactly
/// one must appear and the item's own set number must occur in the title.
pub open spec fn identity_is_sane(name: Seq<char>, set_number: Seq<char>, long_numbers: nat) -> bool {
    long_numbers == 0 || (contains_seq(name, set_number) && long_numbers == 1)
}

/// The record is evidence of the item's price, given how many strong
/// identifiers its title holds.
pub open spec fn plausible_with(
    item: PortfolioItem,
    record: EbayResult,
    long_numbers: nat,
    now: int,
) -> bool {
    &&& is_recent(now, record.date as int)
    &&& price_is_sane(record.price as int, item.target_price as int)
    &&& identity_is_sane(record.name@, item.set_number@, long_numbers)
}

/// The record is evidence of the item's price; a title that the pattern
/// cannot be run on is not.
pub open spec fn is_plausible(item: PortfolioItem, record: EbayResult, now: int) -> bool {
    match regex_match_count(LONG_NUMBER_PATTERN@, record.name@) {
        Some(n) => plausible_with(item, record, n, now),
        None => false,
    }
}

/// The records of `s` that are evidence of the item's price, in order.
pub open spec fn plausible_records(item: PortfolioItem, s: Seq<EbayResult>, now: int) -> Seq<EbayResult> {
    s.filter(|e: EbayResult| is_plausible(item, e, now))
}

/// A sale that ended thirty days and one second before `now` is too old; one
/// that ended twenty-nine days before is recent.
pub proof fn lemma_recency_boundary(now: int)
    ensures
        !is_recent(now, now - (RECENCY_WINDOW + 1)),
        is_recent(now, now - 29 * 24 * 60 * 60),
{
}

/// A price of exactly half the reference price is refused; one cent more is
/// accepted.
pub proof fn lemma_price_sanity_boundary(price: int, target: int)
    requires
        2 * price == target,
    ensures
        !price_is_sane(price, target),
        price_is_sane(price + 1, target),
{
}

/// A title without strong identifiers never contradicts the item; one with
/// two or more always does; one with exactly one agrees exactly when it holds
/// the item's set number.
pub proof fn lemma_identity_sanity(name: Seq<char>, set_number: Seq<char>, long_numbers: nat)
    ensures
        long_numbers == 0 ==> identity_is_sane(name, set_number, long_numbers),
        long_numbers >= 2 ==> !identity_is_sane(name, set_number, long_numbers),
        long_numbers == 1 ==> (identity_is_sane(name, set_number, long_numbers) <==> contains_seq(
            name,
            set_number,
        )),
{
}

/// Decides whether `record` is evidence for `item`, where `long_numbers`
/// is the number of strong identifiers in its title.
pub fn plausible_with_count(
    item: &PortfolioItem,
    record: &EbayResult,
    long_numbers: usize,
    now: i64,
) -> (r: bool)
    ensures
        r == plausible_with(*item, *record, long_numbers as nat, now as int),
{
    let age: i128 = now as i128 - record.date as i128;
    let recent = 0 <= age && age < RECENCY_WINDOW as i128;
    let price_okay = 2 * (record.price as u128) > item.target_price as u128;
    let identity_okay = if long_numbers == 0 {
        true
    } else {
        let name = chars_of(record.name.as_str());
        let set_number = chars_of(item.set_number.as_str());
        contains_chars(&name, &set_number) && long_numbers == 1
    };
    recent && price_okay && identity_okay
}

/// Decides whether `record` is evidence for `item` at time `now`.
pub fn record_is_plausible(item: &PortfolioItem, record: &EbayResult, now: i64) -> (r: bool)
    ensures
        r == is_plausible(*item, *record, now as int),
{
    match count_matches(LONG_NUMBER_PATTERN, record.name.as_str()) {
        Some(n) => plausible_with_count(item, record, n, now),
        None => false,
    }
}

/// Keeps the records that are evidence of the item's price, in order; fails
/// with `NoPlausibleEvidence` exactly when none is kept.
pub fn filter_plausible(item: &PortfolioItem, results: Vec<EbayResult>, now: i64) -> (r: Result<
    Vec<EbayResult>,
    FetchError,
>)
    ensures
        match r {
            Ok(kept) => kept@ == plausible_records(*item, results@, now as int) && kept@.len() > 0,
            Err(e) => e == FetchError::NoPlausibleEvidence && plausible_records(
                *item,
                results@,
                now as int,
            ).len() == 0,
        },
{
    let ghost all = results@;
    let ghost pred = |e: EbayResult| is_plausible(*item, e, now as int);
    let total: usize = results.len();
    let mut rest = results;
    let mut kept: Vec<EbayResult> = Vec::new();
    let mut i: usize = 0;
    proof {
        reveal(Seq::filter);
        assert(all.take(0) =~= Seq::<EbayResult>::empty());
    }
    while rest.len() > 0
        invariant
            i <= all.len(),
            all.len() == total,
            rest@ == all.skip(i as int),
            kept@ == all.take(i as int).filter(pred),
            pred == (|e: EbayResult| is_plausible(*item, e, now as int)),
        decreases rest.len(),
    {
        let record = rest.remove(0);
        let keep = record_is_plausible(item, &record, now);
        proof {
            reveal(Seq::filter);
            assert(all.take(i as int + 1).drop_last() =~= all.take(i as int));
            assert(all.take(i as int + 1).last() == record);
            assert(all.skip(i as int + 1) =~= all.skip(i as int).remove(0));
        }
        if keep {
            kept.push(record);
        }
        i += 1;
    }
    assert(all.take(i as int) =~= all);
    if kept.len() == 0 {
        Err(FetchError::NoPlausibleEvidence)
    } else {
        Ok(kept)
    }
}

} // verus!
