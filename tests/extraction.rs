use lego_value::extract::{collect_plausible_entries, listing_of, parse_price, request_id_of};
use lego_value::{parse_date, DateError, FetchError};

const PAGE: &str = "<html><body><ul>\
<li class=\"s-item\"><h3 class=\"s-item__title\">Lego 42096 Porsche</h3>\
<span class=\"s-item__price\"><span class=\"POSITIVE\">EUR 120,50</span></span>\
<span class=\"s-item__detail\"><span class=\"s-item__ended-date\">12. Okt. 14:35</span></span></li>\
<li class=\"s-item\"><h3 class=\"s-item__title\">No date</h3>\
<span class=\"s-item__price\"><span class=\"POSITIVE\">EUR 10,00</span></span></li>\
<li class=\"s-item\">\
<span class=\"s-item__price\"><span class=\"POSITIVE\">EUR 99</span></span>\
<span class=\"s-item__detail\"><span class=\"s-item__ended-date\">3. Mai 09:07</span></span></li>\
</ul></body></html>";

#[test]
fn parse_date_reads_day_month_time_in_given_year() {
    assert_eq!(parse_date("12. Okt. 14:35".to_string(), 2020), Ok(1602513300));
    assert_eq!(parse_date("3. Mai 09:07".to_string(), 2020), Ok(1588496820));
    assert_eq!(parse_date("29. Feb. 00:05".to_string(), 2024), Ok(1709165100));
}

#[test]
fn parse_date_unknown_month_is_reported() {
    assert_eq!(parse_date("12. Oct. 14:35".to_string(), 2020), Err(DateError::UnknownMonth));
}

#[test]
fn parse_date_malformed_inputs() {
    assert_eq!(parse_date("12.".to_string(), 2020), Err(DateError::Malformed));
    assert_eq!(parse_date("12. Okt.".to_string(), 2020), Err(DateError::Malformed));
    assert_eq!(parse_date("31. Feb. 10:00".to_string(), 2020), Err(DateError::Malformed));
    assert_eq!(parse_date("12. Okt. 24:00".to_string(), 2020), Err(DateError::Malformed));
    assert_eq!(parse_date("123. Okt. 10:00".to_string(), 2020), Err(DateError::Malformed));
    assert_eq!(parse_date("29. Feb. 00:05".to_string(), 2023), Err(DateError::Malformed));
}

#[test]
fn parse_price_strips_marker_and_reads_decimal_comma() {
    assert_eq!(parse_price("EUR 12,34"), Some(1234));
    assert_eq!(parse_price("EUR 7,5"), Some(750));
    assert_eq!(parse_price("EUR 99"), Some(9900));
    assert_eq!(parse_price("EUR 0,01"), Some(1));
    assert_eq!(parse_price("EUR ,50"), Some(50));
    assert_eq!(parse_price("EUR 12,"), Some(1200));
}

#[test]
fn parse_price_rounds_to_the_cent() {
    assert_eq!(parse_price("EUR 1,234"), Some(123));
    assert_eq!(parse_price("EUR 1,235"), Some(124));
    assert_eq!(parse_price("EUR 0,999"), Some(100));
    assert_eq!(parse_price("EUR 2,00049"), Some(200));
}

#[test]
fn parse_price_rejects_what_is_no_price() {
    assert_eq!(parse_price("EUR"), None);
    assert_eq!(parse_price("EUR abc"), None);
    assert_eq!(parse_price("EUR 1.234,56"), None);
    assert_eq!(parse_price("EUR -3,00"), None);
    assert_eq!(parse_price("EUR ,"), None);
    assert_eq!(parse_price("EUR 1,2,3"), None);
    assert_eq!(parse_price("EUR 99999999999999999999"), None);
}

#[test]
fn listing_without_title_gets_empty_title() {
    let r = listing_of(Some("EUR 5,00".to_string()), Some("1. Jan. 00:00".to_string()), None, 2021)
        .unwrap()
        .unwrap();
    assert_eq!(r.price, 500);
    assert_eq!(r.name, "");
}

#[test]
fn listing_without_price_or_date_is_dropped() {
    assert!(listing_of(None, Some("1. Jan. 00:00".to_string()), None, 2021).unwrap().is_none());
    assert!(listing_of(Some("EUR 5,00".to_string()), None, None, 2021).unwrap().is_none());
    assert!(listing_of(Some("EUR x".to_string()), Some("1. Jan. 00:00".to_string()), None, 2021)
        .unwrap()
        .is_none());
}

#[test]
fn listing_with_unknown_month_is_an_error() {
    let r = listing_of(Some("EUR 5,00".to_string()), Some("1. Foo. 00:00".to_string()), None, 2021);
    assert_eq!(r.unwrap_err(), DateError::UnknownMonth);
}

#[test]
fn collect_reads_listings_of_a_page() {
    let records = collect_plausible_entries(PAGE, 2020).unwrap();
    assert_eq!(records.len(), 2);
    assert_eq!(records[0].price, 12050);
    assert_eq!(records[0].date, 1602513300);
    assert_eq!(records[0].name, "Lego 42096 Porsche");
    assert_eq!(records[1].price, 9900);
    assert_eq!(records[1].date, 1588496820);
    assert_eq!(records[1].name, "");
}

#[test]
fn collect_fails_on_unknown_month() {
    let page = PAGE.replace("Okt.", "Xyz.");
    assert_eq!(
        collect_plausible_entries(&page, 2020).unwrap_err(),
        FetchError::ExtractionFormat(DateError::UnknownMonth)
    );
}

#[test]
fn collect_on_page_without_listings_is_empty() {
    assert!(collect_plausible_entries("<html><body><p>nothing</p></body></html>", 2020)
        .unwrap()
        .is_empty());
}

#[test]
fn request_id_is_read_from_hidden_field() {
    let page = "<html><body><form><input type=\"hidden\" name=\"_trksid\" value=\"p2380057.m570.l1313\"></form></body></html>";
    assert_eq!(request_id_of(page), Some("p2380057.m570.l1313".to_string()));
    assert_eq!(request_id_of("<html><body></body></html>"), None);
}
