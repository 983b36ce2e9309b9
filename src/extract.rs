use vstd::prelude::*;
use crate::date::{date_value, parse_date};
use crate::numbers::{all_digits, digits_in, digits_value, find_char, find_char_from};
use crate::text::chars_of;
use crate::types::{DateError, EbayResult, FetchError};

verus! {

/// Selector of one listing of a results page.
pub const LISTING_SELECTOR: &'static str = "li.s-item";

/// Selector of a listing's sale price.
pub const PRICE_SELECTOR: &'static str = "span.s-item__price>span.POSITIVE";

/// Selector of a listing's end date.
pub const DATE_SELECTOR: &'static str = "span.s-item__detail>span.s-item__ended-date";

/// Selector of a listing's title.
pub const TITLE_SELECTOR: &'static str = "h3.s-item__title";

/// Length of the currency marker in front of a price (`EUR `).
pub const PRICE_PREFIX_LEN: usize = 4;

/// What `scraper` gives for the elements of `document` that `selector`
/// matches, each written out as markup; `None` where the selector is refused.
pub uninterp spec fn selected_html(document: Seq<char>, selector: Seq<char>) -> Option<Seq<Seq<char>>>;

/// What `scraper` gives for the first text node of the first element of
/// `fragment` that `selector` matches; `None` where the selector is refused.
pub uninterp spec fn first_text(fragment: Seq<char>, selector: Seq<char>) -> Option<Option<Seq<char>>>;

/// What `scraper` gives for the inner markup of the first element of
/// `fragment` that `selector` matches; `None` where the selector is refused.
pub uninterp spec fn first_inner_html(fragment: Seq<char>, selector: Seq<char>) -> Option<Option<Seq<char>>>;

pub open spec fn opt_string_view(o: Option<String>) -> Option<Seq<char>> {
    match o {
        Some(s) => Some(s@),
        None => None,
    }
}

pub open spec fn strings_view(v: Seq<String>) -> Seq<Seq<char>> {
    v.map_values(|s: String| s@)
}

/// Relies on scraper's Selector::parse, Html::parse_document, Html::select
/// and ElementRef::html: the markup of each matching element, in document order.
#[verifier::external_body]
fn select_html(document: &str, selector: &str) -> (r: Option<Vec<String>>)
    ensures
        match r {
            Some(v) => selected_html(document@, selector@) == Some(strings_view(v@)),
            None => selected_html(document@, selector@) is None,
        },
{
    let sel = match scraper::Selector::parse(selector) {
        Ok(sel) => sel,
        Err(_) => return None,
    };
    let mut out = Vec::new();
    for element in scraper::Html::parse_document(document).select(&sel) {
        out.push(element.html());
    }
    Some(out)
}

/// Relies on scraper's Selector::parse, Html::parse_fragment, Html::select
/// and ElementRef::text: the first text node of the first matching element.
#[verifier::external_body]
fn select_first_text(fragment: &str, selector: &str) -> (r: Option<Option<String>>)
    ensures
        match r {
            Some(o) => first_text(fragment@, selector@) == Some(opt_string_view(o)),
            None => first_text(fragment@, selector@) is None,
        },
{
    let sel = match scraper::Selector::parse(selector) {
        Ok(sel) => sel,
        Err(_) => return None,
    };
    let html = scraper::Html::parse_fragment(fragment);
    match html.select(&sel).next() {
        Some(element) => Some(element.text().next().map(String::from)),
        None => Some(None),
    }
}

/// Relies on scraper's Selector::parse, Html::parse_fragment, Html::select
/// and ElementRef::inner_html: the inner markup of the first matching element.
#[verifier::external_body]
fn select_first_inner_html(fragment: &str, selector: &str) -> (r: Option<Option<String>>)
    ensures
        match r {
            Some(o) => first_inner_html(fragment@, selector@) == Some(opt_string_view(o)),
            None => first_inner_html(fragment@, selector@) is None,
        },
{
    let sel = match scraper::Selector::parse(selector) {
        Ok(sel) => sel,
        Err(_) => return None,
    };
    let html = scraper::Html::parse_fragment(fragment);
    match html.select(&sel).next() {
        Some(element) => Some(Some(element.inner_html())),
        None => Some(None),
    }
}

pub open spec fn comma_to_dot(c: char) -> char {
    if c == ',' {
        '.'
    } else {
        c
    }
}

pub open spec fn digit_at(f: Seq<char>, i: int) -> int {
    if 0 <= i < f.len() {
        f[i] as int - '0' as int
    } else {
        0
    }
}

/// Cents of the fraction digits `f`, rounded half up at the third digit.
pub open spec fn fraction_cents(f: Seq<char>) -> int {
    digit_at(f, 0) * 10 + digit_at(f, 1) + if digit_at(f, 2) >= 5 {
        1int
    } else {
        0int
    }
}

/// Cents of a decimal amount `W`, `W.`, `.F` or `W.F` with at least one
/// digit, rounded half up to the cent.
pub open spec fn decimal_cents(b: Seq<char>) -> Option<int> {
    let p = find_char(b, '.', 0);
    let w = b.take(p);
    let f = if p < b.len() {
        b.skip(p + 1)
    } else {
        Seq::empty()
    };
    if all_digits(w) && all_digits(f) && w.len() + f.len() > 0 {
        Some(digits_value(w) * 100 + fraction_cents(f))
    } else {
        None
    }
}

/// Whether `s[lo..hi]` holds digits only.
fn all_digits_in(s: &Vec<char>, lo: usize, hi: usize) -> (r: bool)
    requires
        lo <= hi <= s.len(),
    ensures
        r == all_digits(s@.subrange(lo as int, hi as int)),
{
    let mut i = lo;
    while i < hi
        invariant
            lo <= i <= hi <= s.len(),
            forall|j: int| lo <= j < i ==> crate::numbers::is_digit(#[trigger] s@[j]),
        decreases hi - i,
    {
        if !('0' <= s[i] && s[i] <= '9') {
            assert(!crate::numbers::is_digit(s@.subrange(lo as int, hi as int)[i - lo]));
            return false;
        }
        i += 1;
    }
    assert forall|j: int| 0 <= j < hi - lo implies crate::numbers::is_digit(#[trigger] s@.subrange(lo as int, hi as int)[j]) by {
        assert(s@.subrange(lo as int, hi as int)[j] == s@[lo + j]);
    }
    true
}

/// The digit at `i` of `s`, where it is within `s[lo..hi]`, else zero.
fn digit_in(s: &Vec<char>, lo: usize, hi: usize, i: usize) -> (r: u64)
    requires
        lo <= i,
        lo <= hi <= s.len(),
        all_digits(s@.subrange(lo as int, hi as int)),
    ensures
        r as int == digit_at(s@.subrange(lo as int, hi as int), i - lo),
        r <= 9,
{
    if i < hi {
        assert(s@.subrange(lo as int, hi as int)[i - lo] == s@[i as int]);
        assert(crate::numbers::is_digit(s@.subrange(lo as int, hi as int)[i - lo]));
        (s[i] as u32 - '0' as u32) as u64
    } else {
        0
    }
}

/// The price in cents of a listing's price text: a currency marker, then an
/// amount with a decimal comma; `None` where the text is no such price or
/// the amount does not fit in a `u64`.
pub open spec fn price_value(text: Seq<char>) -> Option<int> {
    if text.len() < PRICE_PREFIX_LEN {
        None
    } else {
        match decimal_cents(text.skip(PRICE_PREFIX_LEN as int).map_values(|c: char| comma_to_dot(c))) {
            Some(v) => if v <= u64::MAX {
                Some(v)
            } else {
                None
            },
            None => None,
        }
    }
}


/// Reads the price text of a listing, such as `EUR 12,34`, in cents.
pub fn parse_price(text: &str) -> (r: Option<u64>)
    ensures
        match r {
            Some(c) => price_value(text@) == Some(c as int),
            None => price_value(text@) is None,
        },
{
    let raw = chars_of(text);
    if raw.len() < PRICE_PREFIX_LEN {
        return None;
    }
    let mut b: Vec<char> = Vec::new();
    let mut i: usize = PRICE_PREFIX_LEN;
    let ghost body = raw@.skip(PRICE_PREFIX_LEN as int).map_values(|c: char| comma_to_dot(c));
    while i < raw.len()
        invariant
            PRICE_PREFIX_LEN <= i <= raw.len(),
            body == raw@.skip(PRICE_PREFIX_LEN as int).map_values(|c: char| comma_to_dot(c)),
            b@ == body.take(i - PRICE_PREFIX_LEN),
        decreases raw.len() - i,
    {
        let c = raw[i];
        b.push(if c == ',' { '.' } else { c });
        i += 1;
        proof {
            assert(b@ =~= body.take(i - PRICE_PREFIX_LEN));
        }
    }
    assert(b@ =~= body);
    let p = find_char_from(&b, '.', 0);
    let flo: usize = if p < b.len() { p + 1 } else { b.len() };
    let ghost w = b@.take(p as int);
    let ghost f = if p < b.len() { b@.skip(p + 1) } else { Seq::<char>::empty() };
    proof {
        assert(b@.subrange(0, p as int) =~= w);
        assert(b@.subrange(flo as int, b.len() as int) =~= f);
    }
    if !all_digits_in(&b, 0, p) || !all_digits_in(&b, flo, b.len()) || p + (b.len() - flo) == 0 {
        return None;
    }
    let whole: u64 = if p == 0 {
        assert(w.len() == 0);
        0
    } else {
        match digits_in(&b, 0, p) {
            Some(v) => v,
            None => {
                proof {
                    crate::numbers::lemma_digits_nonneg(w);
                    assert(fraction_cents(f) >= 0);
                }
                return None;
            },
        }
    };
    let d0 = digit_in(&b, flo, b.len(), flo);
    let d1 = digit_in(&b, flo, b.len(), flo + 1);
    let d2 = digit_in(&b, flo, b.len(), flo + 2);
    let up: u128 = if d2 >= 5 { 1 } else { 0 };
    let cents: u128 = whole as u128 * 100 + (d0 * 10 + d1) as u128 + up;
    if cents > u64::MAX as u128 {
        return None;
    }
    Some(cents as u64)
}

/// The record that a listing's three texts stand for: `Ok(None)` where the
/// price or the date is missing or the price unreadable (the listing is
/// dropped), an error where a date is present but unreadable. A missing title
/// is the empty title.
pub open spec fn listing_value(
    price: Option<Seq<char>>,
    date: Option<Seq<char>>,
    title: Option<Seq<char>>,
    year: int,
) -> Result<Option<(int, int, Seq<char>)>, DateError> {
    match date {
        None => Ok(None),
        Some(d) => match date_value(d, year) {
            Err(e) => Err(e),
            Ok(t) => match price {
                None => Ok(None),
                Some(p) => match price_value(p) {
                    None => Ok(None),
                    Some(v) => Ok(
                        Some(
                            (
                                v,
                                t,
                                match title {
                                    Some(n) => n,
                                    None => Seq::empty(),
                                },
                            ),
                        ),
                    ),
                },
            },
        },
    }
}

/// `r` holds the price, date and title `v`.
pub open spec fn record_matches(r: EbayResult, v: (int, int, Seq<char>)) -> bool {
    r.price as int == v.0 && r.date as int == v.1 && r.name@ == v.2
}

pub open spec fn records_match(rs: Seq<EbayResult>, vs: Seq<(int, int, Seq<char>)>) -> bool {
    rs.len() == vs.len() && forall|i: int| 0 <= i < rs.len() ==> record_matches(#[trigger] rs[i], vs[i])
}

/// Builds the sale record of one listing from its price, date and title texts.
pub fn listing_of(
    price: Option<String>,
    date: Option<String>,
    title: Option<String>,
    year: i32,
) -> (r: Result<Option<EbayResult>, DateError>)
    requires
        1 <= year <= 9999,
    ensures
        match listing_value(opt_string_view(price), opt_string_view(date), opt_string_view(title), year as int) {
            Ok(Some(v)) => r is Ok && r->Ok_0 is Some && record_matches(r->Ok_0->Some_0, v),
            Ok(None) => r == Ok::<Option<EbayResult>, DateError>(None),
            Err(e) => r == Err::<Option<EbayResult>, DateError>(e),
        },
{
    let date = match date {
        Some(d) => match parse_date(d, year) {
            Ok(t) => t,
            Err(e) => return Err(e),
        },
        None => return Ok(None),
    };
    let price = match price {
        Some(p) => match parse_price(p.as_str()) {
            Some(v) => v,
            None => return Ok(None),
        },
        None => return Ok(None),
    };
    let name = match title {
        Some(n) => n,
        None => String::new(),
    };
    Ok(Some(EbayResult { price, date, name }))
}

/// What one listing's markup yields.
pub open spec fn fragment_listing(fragment: Seq<char>, year: int) -> Result<Option<(int, int, Seq<char>)>, FetchError> {
    match (
        first_text(fragment, PRICE_SELECTOR@),
        first_text(fragment, DATE_SELECTOR@),
        first_inner_html(fragment, TITLE_SELECTOR@),
    ) {
        (Some(p), Some(d), Some(t)) => match listing_value(p, d, t, year) {
            Ok(x) => Ok(x),
            Err(e) => Err(FetchError::ExtractionFormat(e)),
        },
        _ => Err(FetchError::BadSelector),
    }
}

/// The records of a sequence of listings, in order; the first error stops.
pub open spec fn listings(fragments: Seq<Seq<char>>, year: int) -> Result<Seq<(int, int, Seq<char>)>, FetchError>
    decreases fragments.len(),
{
    if fragments.len() == 0 {
        Ok(Seq::empty())
    } else {
        match listings(fragments.drop_last(), year) {
            Err(e) => Err(e),
            Ok(acc) => match fragment_listing(fragments.last(), year) {
                Err(e) => Err(e),
                Ok(None) => Ok(acc),
                Ok(Some(x)) => Ok(acc.push(x)),
            },
        }
    }
}

/// The records of a results page.
pub open spec fn page_listings(document: Seq<char>, year: int) -> Result<Seq<(int, int, Seq<char>)>, FetchError> {
    match selected_html(document, LISTING_SELECTOR@) {
        None => Err(FetchError::BadSelector),
        Some(fragments) => listings(fragments, year),
    }
}

/// Extracts the sale records of a results page: one per listing with a
/// readable price and date, in page order. Dates get the year `year`.
pub fn collect_plausible_entries(document: &str, year: i32) -> (r: Result<Vec<EbayResult>, FetchError>)
    requires
        1 <= year <= 9999,
    ensures
        match page_listings(document@, year as int) {
            Ok(vs) => r is Ok && records_match(r->Ok_0@, vs),
            Err(e) => r == Err::<Vec<EbayResult>, FetchError>(e),
        },
{
    let fragments = match select_html(document, LISTING_SELECTOR) {
        Some(f) => f,
        None => return Err(FetchError::BadSelector),
    };
    let ghost frags = strings_view(fragments@);
    let mut out: Vec<EbayResult> = Vec::new();
    let mut i: usize = 0;
    let ghost mut acc: Seq<(int, int, Seq<char>)> = Seq::empty();
    proof {
        assert(frags.take(0) =~= Seq::<Seq<char>>::empty());
    }
    while i < fragments.len()
        invariant
            i <= fragments.len(),
            frags == strings_view(fragments@),
            selected_html(document@, LISTING_SELECTOR@) == Some(frags),
            listings(frags.take(i as int), year as int) == Ok::<Seq<(int, int, Seq<char>)>, FetchError>(acc),
            records_match(out@, acc),
            1 <= year <= 9999,
        decreases fragments.len() - i,
    {
        let fragment = fragments[i].as_str();
        proof {
            assert(frags.take(i as int + 1).drop_last() =~= frags.take(i as int));
            assert(frags.take(i as int + 1).last() == fragment@);
        }
        let price = select_first_text(fragment, PRICE_SELECTOR);
        let date = select_first_text(fragment, DATE_SELECTOR);
        let title = select_first_inner_html(fragment, TITLE_SELECTOR);
        let (price, date, title) = match (price, date, title) {
            (Some(p), Some(d), Some(t)) => (p, d, t),
            _ => {
                proof {
                    lemma_listings_error_stays(frags, i as int + 1, year as int);
                }
                return Err(FetchError::BadSelector);
            },
        };
        match listing_of(price, date, title, year) {
            Err(e) => {
                proof {
                    lemma_listings_error_stays(frags, i as int + 1, year as int);
                }
                return Err(FetchError::ExtractionFormat(e));
            },
            Ok(None) => {},
            Ok(Some(record)) => {
                proof {
                    let x = fragment_listing(fragment@, year as int)->Ok_0->Some_0;
                    acc = acc.push(x);
                }
                out.push(record);
            },
        }
        i += 1;
    }
    proof {
        assert(frags.take(i as int) =~= frags);
    }
    Ok(out)
}

/// Once the records of a prefix fail, the records of every longer prefix
/// fail with the same error.
proof fn lemma_listings_error_stays(frags: Seq<Seq<char>>, k: int, year: int)
    requires
        0 <= k <= frags.len(),
        listings(frags.take(k), year) is Err,
    ensures
        listings(frags, year) == listings(frags.take(k), year),
    decreases frags.len() - k,
{
    if k < frags.len() {
        assert(frags.take(k + 1).drop_last() =~= frags.take(k));
        lemma_listings_error_stays(frags, k + 1, year);
    } else {
        assert(frags.take(k) =~= frags);
    }
}

/// Selector of the hidden field that carries the session token on the
/// marketplace's start page.
pub const TOKEN_SELECTOR: &'static str = "input[type='hidden'][name='_trksid']";

/// Attribute of that field that holds the token.
pub const TOKEN_ATTRIBUTE: &'static str = "value";

/// What `scraper` gives for attribute `attr` of the first element of
/// `document` that `selector` matches; `None` where the selector is refused.
pub uninterp spec fn first_attr(document: Seq<char>, selector: Seq<char>, attr: Seq<char>) -> Option<Option<Seq<char>>>;

/// Relies on scraper's Selector::parse, Html::parse_document, Html::select
/// and Element::attr: the attribute of the first matching element.
#[verifier::external_body]
fn select_first_attr(document: &str, selector: &str, attr: &str) -> (r: Option<Option<String>>)
    ensures
        match r {
            Some(o) => first_attr(document@, selector@, attr@) == Some(opt_string_view(o)),
            None => first_attr(document@, selector@, attr@) is None,
        },
{
    let sel = match scraper::Selector::parse(selector) {
        Ok(sel) => sel,
        Err(_) => return None,
    };
    let html = scraper::Html::parse_document(document);
    match html.select(&sel).next() {
        Some(element) => Some(element.value().attr(attr).map(String::from)),
        None => Some(None),
    }
}

/// The session token that the start page `document` carries, if any.
pub fn request_id_of(document: &str) -> (r: Option<String>)
    ensures
        opt_string_view(r) == match first_attr(document@, TOKEN_SELECTOR@, TOKEN_ATTRIBUTE@) {
            Some(o) => o,
            None => None,
        },
{
    match select_first_attr(document, TOKEN_SELECTOR, TOKEN_ATTRIBUTE) {
        Some(o) => o,
        None => None,
    }
}

} // verus!
