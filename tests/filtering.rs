use lego_value::aggregate::{aggregate, analyze_crawled_results};
use lego_value::filter::{filter_plausible, plausible_with_count, record_is_plausible, RECENCY_WINDOW};
use lego_value::{EbayResult, FetchError, PortfolioItem};

const NOW: i64 = 1602599700;
const DAY: i64 = 86400;

fn item(set: &str, target: u64) -> PortfolioItem {
    PortfolioItem { target_price: target, set_number: set.to_string() }
}

fn record(price: u64, date: i64, name: &str) -> EbayResult {
    EbayResult { price, date, name: name.to_string() }
}

#[test]
fn recency_boundary() {
    let it = item("42096", 2000);
    let too_old = record(1500, NOW - (30 * DAY + 1), "");
    let recent = record(1500, NOW - 29 * DAY, "");
    assert!(!plausible_with_count(&it, &too_old, 0, NOW));
    assert!(plausible_with_count(&it, &recent, 0, NOW));
    assert_eq!(RECENCY_WINDOW, 30 * DAY);
}

#[test]
fn future_records_are_not_recent() {
    let it = item("42096", 2000);
    assert!(!plausible_with_count(&it, &record(1500, NOW + 60, ""), 0, NOW));
    assert!(plausible_with_count(&it, &record(1500, NOW, ""), 0, NOW));
}

#[test]
fn price_sanity_boundary() {
    let it = item("42096", 2000);
    assert!(!plausible_with_count(&it, &record(1000, NOW - DAY, ""), 0, NOW));
    assert!(plausible_with_count(&it, &record(1001, NOW - DAY, ""), 0, NOW));
    let odd = item("42096", 2001);
    assert!(!plausible_with_count(&odd, &record(1000, NOW - DAY, ""), 0, NOW));
    assert!(plausible_with_count(&odd, &record(1001, NOW - DAY, ""), 0, NOW));
}

#[test]
fn identity_sanity() {
    let it = item("42096", 2000);
    let when = NOW - DAY;
    assert!(record_is_plausible(&it, &record(1500, when, "Lego 42096 Porsche"), NOW));
    assert!(!record_is_plausible(&it, &record(1500, when, "Lego 42096 Porsche 75192"), NOW));
    assert!(record_is_plausible(&it, &record(1500, when, "Lego Star Wars Set"), NOW));
    assert!(!record_is_plausible(&it, &record(1500, when, "Lego 75192 Falcon"), NOW));
    assert!(record_is_plausible(&item("75192", 2000), &record(1500, when, "Lego Star Wars Set"), NOW));
}

#[test]
fn identity_with_given_counts() {
    let it = item("42096", 2000);
    let r = record(1500, NOW - DAY, "Lego 42096 Porsche");
    assert!(plausible_with_count(&it, &r, 1, NOW));
    assert!(!plausible_with_count(&it, &r, 2, NOW));
    assert!(!plausible_with_count(&it, &record(1500, NOW - DAY, "Lego Porsche"), 1, NOW));
}

#[test]
fn aggregation_correctness() {
    let rs = vec![record(1000, NOW, "a"), record(2000, NOW, "b"), record(3000, NOW, "c")];
    let a = aggregate(&rs).unwrap();
    assert_eq!(a.min, 1000);
    assert_eq!(a.max, 3000);
    assert_eq!(a.avg, 2000);
    assert_eq!(a.data_points, 3);
}

#[test]
fn aggregation_rounds_mean_down_and_ignores_order() {
    let rs = vec![record(3000, NOW, ""), record(1000, NOW, ""), record(1001, NOW, "")];
    let a = aggregate(&rs).unwrap();
    assert_eq!((a.min, a.max, a.avg, a.data_points), (1000, 3000, 1667, 3));
}

#[test]
fn aggregation_of_nothing_fails() {
    assert_eq!(aggregate(&vec![]), Err(FetchError::NoPlausibleEvidence));
}

#[test]
fn empty_evidence_failure() {
    let it = item("42096", 2000);
    let rs = vec![record(100, NOW - DAY, ""), record(1500, NOW - 40 * DAY, "")];
    assert_eq!(analyze_crawled_results(&it, rs, NOW), Err(FetchError::NoPlausibleEvidence));
    let rs = vec![record(100, NOW - DAY, "")];
    assert_eq!(filter_plausible(&it, rs, NOW).unwrap_err(), FetchError::NoPlausibleEvidence);
}

#[test]
fn filter_keeps_plausible_records_in_order() {
    let it = item("42096", 2000);
    let rs = vec![
        record(1500, NOW - DAY, "Lego 42096"),
        record(100, NOW - DAY, ""),
        record(1800, NOW - 2 * DAY, "Porsche"),
        record(1900, NOW - DAY, "Lego 42096 75192"),
    ];
    let kept = filter_plausible(&it, rs, NOW).unwrap();
    assert_eq!(kept.len(), 2);
    assert_eq!(kept[0].price, 1500);
    assert_eq!(kept[1].price, 1800);
    let a = analyze_crawled_results(&it, kept, NOW).unwrap();
    assert_eq!((a.min, a.max, a.avg, a.data_points), (1500, 1800, 1650, 2));
}
