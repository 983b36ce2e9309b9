use vstd::prelude::*;
use crate::filter::{filter_plausible, plausible_records};
use crate::types::{EbayResult, FetchError, PortfolioItem, PriceAnalysis};

verus! {

/// The sum of the prices of `s`, in cents.
pub open spec fn sum_prices(s: Seq<EbayResult>) -> int
    decreases s.len(),
{
    if s.len() == 0 {
        0
    } else {
        sum_prices(s.drop_last()) + s.last().price
    }
}

/// `v` is the least price in `s`.
pub open spec fn is_min_price(v: int, s: Seq<EbayResult>) -> bool {
    &&& exists|i: int| 0 <= i < s.len() && s[i].price == v
    &&& forall|i: int| 0 <= i < s.len() ==> v <= #[trigger] s[i].price
}

/// `v` is the greatest price in `s`.
pub open spec fn is_max_price(v: int, s: Seq<EbayResult>) -> bool {
    &&& exists|i: int| 0 <= i < s.len() && s[i].price == v
    &&& forall|i: int| 0 <= i < s.len() ==> #[trigger] s[i].price <= v
}

/// `a` holds the statistics of the non-empty record sequence `s`.
pub open spec fn describes(a: PriceAnalysis, s: Seq<EbayResult>) -> bool {
    &&& s.len() > 0
    &&& a.data_points == s.len()
    &&& is_min_price(a.min as int, s)
    &&& is_max_price(a.max as int, s)
    &&& a.avg == sum_prices(s) / (s.len() as int)
}

proof fn lemma_sum_bounded(s: Seq<EbayResult>)
    ensures
        0 <= sum_prices(s) <= s.len() * (u64::MAX as int),
    decreases s.len(),
{
    if s.len() > 0 {
        lemma_sum_bounded(s.drop_last());
        assert(sum_prices(s) <= (s.len() - 1) * (u64::MAX as int) + u64::MAX) by (nonlinear_arith)
            requires
                sum_prices(s.drop_last()) <= (s.len() - 1) * (u64::MAX as int),
                s.last().price <= u64::MAX,
                sum_prices(s) == sum_prices(s.drop_last()) + s.last().price,
        ;
        assert((s.len() - 1) * (u64::MAX as int) + u64::MAX == s.len() * (u64::MAX as int))
            by (nonlinear_arith);
    }
}

proof fn lemma_sum_le_len_times_max(s: Seq<EbayResult>, m: int)
    requires
        forall|i: int| 0 <= i < s.len() ==> #[trigger] s[i].price <= m,
    ensures
        sum_prices(s) <= s.len() * m,
    decreases s.len(),
{
    if s.len() > 0 {
        let t = s.drop_last();
        assert forall|i: int| 0 <= i < t.len() implies #[trigger] t[i].price <= m by {
            assert(t[i] == s[i]);
        }
        lemma_sum_le_len_times_max(t, m);
        assert(s.last().price <= m) by {
            assert(s[s.len() - 1].price <= m);
        }
        assert((s.len() - 1) * m + m == s.len() * m) by (nonlinear_arith);
    }
}

/// Minimum, maximum, mean (rounded down) and count of the prices of
/// `records`; fails with `NoPlausibleEvidence` on an empty sequence, so that
/// no statistics are ever made of no data.
pub fn aggregate(records: &Vec<EbayResult>) -> (r: Result<PriceAnalysis, FetchError>)
    ensures
        match r {
            Ok(a) => describes(a, records@) && a.data_points > 0,
            Err(e) => e == FetchError::NoPlausibleEvidence && records@.len() == 0,
        },
{
    if records.len() == 0 {
        return Err(FetchError::NoPlausibleEvidence);
    }
    let ghost s = records@;
    let mut result = PriceAnalysis::default();
    let mut sum: u128 = 0;
    let mut i: usize = 0;
    let ghost mut min_at: int = 0;
    let ghost mut max_at: int = 0;
    while i < records.len()
        invariant
            s == records@,
            i <= s.len(),
            sum == sum_prices(s.take(i as int)),
            i > 0 ==> 0 <= min_at < i && s[min_at].price == result.min,
            i > 0 ==> 0 <= max_at < i && s[max_at].price == result.max,
            forall|k: int| 0 <= k < i ==> result.min <= #[trigger] s[k].price <= result.max,
        decreases s.len() - i,
    {
        let price = records[i].price;
        proof {
            assert(s.take(i as int + 1).drop_last() =~= s.take(i as int));
            lemma_sum_bounded(s.take(i as int + 1));
            assert((i + 1) * (u64::MAX as int) <= u128::MAX) by (nonlinear_arith)
                requires
                    i < usize::MAX,
            ;
        }
        if price < result.min || i == 0 {
            result.min = price;
            proof {
                min_at = i as int;
            }
        }
        if price > result.max || i == 0 {
            result.max = price;
            proof {
                max_at = i as int;
            }
        }
        sum = sum + price as u128;
        i += 1;
    }
    proof {
        let t = s.take(i as int);
        assert(t =~= s);
        assert(is_min_price(result.min as int, s)) by {
            assert(s[min_at].price == result.min);
        }
        assert(is_max_price(result.max as int, s)) by {
            assert(s[max_at].price == result.max);
        }
    }
    proof {
        assert(s.take(s.len() as int) =~= s);
        lemma_sum_le_len_times_max(s, result.max as int);
        assert((sum as int) / (s.len() as int) <= result.max) by (nonlinear_arith)
            requires
                sum <= s.len() * (result.max as int),
                s.len() > 0,
        ;
    }
    result.avg = (sum / (records.len() as u128)) as u64;
    result.data_points = records.len();
    Ok(result)
}

/// Prices `item` from the sale records of one results page at time `now`:
/// the statistics of the plausible records, or `NoPlausibleEvidence` when
/// there are none.
pub fn analyze_crawled_results(item: &PortfolioItem, results: Vec<EbayResult>, now: i64) -> (r: Result<
    PriceAnalysis,
    FetchError,
>)
    ensures
        ({
            let kept = plausible_records(*item, results@, now as int);
            match r {
                Ok(a) => describes(a, kept) && a.data_points > 0,
                Err(e) => e == FetchError::NoPlausibleEvidence && kept.len() == 0,
            }
        }),
{
    let kept = filter_plausible(item, results, now)?;
    aggregate(&kept)
}

} // verus!
