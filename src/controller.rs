use vstd::prelude::*;
use crate::aggregate::{analyze_crawled_results, describes};
use crate::extract::{collect_plausible_entries, page_listings, records_match};
use crate::filter::plausible_records;
use crate::types::{FetchError, ItemError, PortfolioItem, PriceAnalysis};

verus! {

/// Attempts allowed for one item: the first and five retries.
pub const MAX_ATTEMPTS: u32 = 6;

/// What the controller does after an attempt.
#[derive(Debug, Clone, Copy, PartialEq, Eq)]
pub enum Step {
    /// Query the marketplace again.
    Retry,
    /// Stop with this outcome for the item.
    Finished(Result<PriceAnalysis, ItemError>),
}

/// The decision after attempt number `attempt` (counted from one) gave
/// `result`: the first success is final; a failure is retried until the
/// attempts are spent, and then the last failure is the outcome.
pub open spec fn step_after(attempt: int, result: Result<PriceAnalysis, FetchError>) -> Step {
    match result {
        Ok(a) => Step::Finished(Ok(a)),
        Err(e) => if attempt < MAX_ATTEMPTS {
            Step::Retry
        } else {
            Step::Finished(Err(ItemError::RetryExhausted(e)))
        },
    }
}

/// Decides what follows attempt number `attempt`, which gave `result`.
pub fn next_step(attempt: u32, result: Result<PriceAnalysis, FetchError>) -> (r: Step)
    requires
        1 <= attempt <= MAX_ATTEMPTS,
    ensures
        r == step_after(attempt as int, result),
{
    match result {
        Ok(a) => Step::Finished(Ok(a)),
        Err(e) => if attempt < MAX_ATTEMPTS {
            Step::Retry
        } else {
            Step::Finished(Err(ItemError::RetryExhausted(e)))
        },
    }
}

/// A controller run from attempt `attempt` on, where the `k`-th attempt
/// gives `results[k - 1]`: how many attempts were made, and the outcome;
/// `None` where the run needs more results than given.
pub open spec fn run_from(results: Seq<Result<PriceAnalysis, FetchError>>, attempt: int) -> Option<
    (int, Result<PriceAnalysis, ItemError>),
>
    decreases MAX_ATTEMPTS - attempt,
{
    if attempt < 1 || attempt > MAX_ATTEMPTS || attempt > results.len() {
        None
    } else {
        match step_after(attempt, results[attempt - 1]) {
            Step::Finished(o) => Some((attempt, o)),
            Step::Retry => run_from(results, attempt + 1),
        }
    }
}

/// A whole controller run on the successive results `results`.
pub open spec fn run(results: Seq<Result<PriceAnalysis, FetchError>>) -> Option<(int, Result<PriceAnalysis, ItemError>)> {
    run_from(results, 1)
}

/// A query that always fails is made exactly six times, and the item's
/// outcome is the retry exhaustion that wraps the sixth failure.
pub proof fn lemma_failing_query_stops_after_six(errors: Seq<FetchError>)
    requires
        errors.len() >= MAX_ATTEMPTS,
    ensures
        run(errors.map_values(|e: FetchError| Err::<PriceAnalysis, FetchError>(e))) == Some(
            (MAX_ATTEMPTS as int, Err::<PriceAnalysis, ItemError>(ItemError::RetryExhausted(errors[5]))),
        ),
{
    let results = errors.map_values(|e: FetchError| Err::<PriceAnalysis, FetchError>(e));
    assert(results[5] == Err::<PriceAnalysis, FetchError>(errors[5]));
    assert(forall|k: int| 0 <= k < 6 ==> results[k] is Err);
    reveal_with_fuel(run_from, 7);
}

/// No run makes more attempts than allowed, and the first success ends it.
pub proof fn lemma_run_bounded(results: Seq<Result<PriceAnalysis, FetchError>>, attempt: int)
    requires
        1 <= attempt,
    ensures
        match run_from(results, attempt) {
            Some((n, o)) => attempt <= n <= MAX_ATTEMPTS && (o is Ok <==> results[n - 1] is Ok)
                && forall|k: int| attempt - 1 <= k < n - 1 ==> #[trigger] results[k] is Err,
            None => true,
        },
    decreases MAX_ATTEMPTS - attempt,
{
    if attempt < MAX_ATTEMPTS && attempt <= results.len() {
        lemma_run_bounded(results, attempt + 1);
    }
}

/// The outcome of one attempt at pricing `item` from the results page
/// `document` at time `now`, whose dates get the year `year`: extraction
/// errors pass through, else the statistics of the plausible records.
pub fn determine_current_value(item: &PortfolioItem, document: &str, now: i64, year: i32) -> (r: Result<
    PriceAnalysis,
    FetchError,
>)
    requires
        1 <= year <= 9999,
    ensures
        match page_listings(document@, year as int) {
            Err(e) => r == Err::<PriceAnalysis, FetchError>(e),
            Ok(vs) => exists|recs: Seq<crate::types::EbayResult>|
                #![trigger records_match(recs, vs)]
                records_match(recs, vs) && {
                    let kept = plausible_records(*item, recs, now as int);
                    match r {
                        Ok(a) => describes(a, kept),
                        Err(e) => e == FetchError::NoPlausibleEvidence && kept.len() == 0,
                    }
                },
        },
{
    let results = match collect_plausible_entries(document, year) {
        Ok(v) => v,
        Err(e) => return Err(e),
    };
    let ghost recs = results@;
    let r = analyze_crawled_results(item, results, now);
    assert(records_match(recs, page_listings(document@, year as int)->Ok_0));
    r
}

} // verus!
