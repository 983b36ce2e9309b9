use lego_value::url::{escape_query_value, search_url};

#[test]
fn escape_keeps_digits_and_unreserved() {
    assert_eq!(escape_query_value("42096"), "42096");
    assert_eq!(escape_query_value("a-b.c_d*E"), "a-b.c_d*E");
}

#[test]
fn escape_encodes_space_reserved_and_non_ascii() {
    assert_eq!(escape_query_value("a b"), "a+b");
    assert_eq!(escape_query_value("x/y&z"), "x%2Fy%26z");
    assert_eq!(escape_query_value("\u{e4}"), "%C3%A4");
    assert_eq!(escape_query_value("\u{20ac}"), "%E2%82%AC");
    assert_eq!(escape_query_value("\u{1f600}"), "%F0%9F%98%80");
}

#[test]
fn search_url_puts_token_and_escaped_set_number() {
    assert_eq!(
        search_url("p2380057.m570.l1313", "42096"),
        "http://www.ebay.de/sch/i.html?_from=R40&_trksid=p2380057.m570.l1313&_nkw=Lego+42096&_ipg=200&LH_Sold=1&_sop=1&LH_ItemCondition=3"
    );
    assert!(search_url("t", "1 2").contains("&_nkw=Lego+1+2&"));
}
