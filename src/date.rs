use vstd::prelude::*;
use crate::numbers::{all_digits, digits_in, digits_value, find_char, find_char_from};
use crate::text::chars_of;
use crate::types::DateError;

verus! {

pub open spec fn is_leap_year(y: int) -> bool {
    (y % 4 == 0 && y % 100 != 0) || y % 400 == 0
}

pub open spec fn days_in_month(y: int, m: int) -> int {
    if m == 2 {
        if is_leap_year(y) { 29 } else { 28 }
    } else if m == 4 || m == 6 || m == 9 || m == 11 {
        30
    } else {
        31
    }
}

/// A calendar date of the proleptic Gregorian calendar and a time of day.
pub open spec fn valid_date_time(y: int, m: int, d: int, h: int, mi: int) -> bool {
    &&& 1 <= m <= 12
    &&& 1 <= d <= days_in_month(y, m)
    &&& 0 <= h < 24
    &&& 0 <= mi < 60
}

/// Days from 1970-01-01 to the given date (negative before it).
pub open spec fn days_from_civil(y: int, m: int, d: int) -> int {
    let yy = if m <= 2 { y - 1 } else { y };
    let era = yy / 400;
    let yoe = yy - era * 400;
    let mp = (m + 9) % 12;
    let doy = (153 * mp + 2) / 5 + d - 1;
    let doe = yoe * 365 + yoe / 4 - yoe / 100 + doy;
    era * 146097 + doe - 719468
}

/// Seconds from 1970-01-01T00:00:00Z to the given moment, read in UTC.
pub open spec fn civil_seconds(y: int, m: int, d: int, h: int, mi: int) -> int {
    days_from_civil(y, m, d) * 86400 + h * 3600 + mi * 60
}

/// Relies on chrono's NaiveDate::from_ymd_opt and NaiveDate::and_hms_opt,
/// which accept exactly the valid dates and times of day, and on the UTC
/// timestamp of the resulting date and time.
#[verifier::external_body]
fn utc_timestamp(year: i32, month: u32, day: u32, hour: u32, minute: u32) -> (r: Option<i64>)
    requires
        1 <= year <= 9999,
    ensures
        match r {
            Some(t) => valid_date_time(year as int, month as int, day as int, hour as int, minute as int)
                && t as int == civil_seconds(year as int, month as int, day as int, hour as int, minute as int),
            None => !valid_date_time(year as int, month as int, day as int, hour as int, minute as int),
        },
{
    match chrono::NaiveDate::from_ymd_opt(year, month, day) {
        Some(date) => match date.and_hms_opt(hour, minute, 0) {
            Some(moment) => Some(moment.and_utc().timestamp()),
            None => None,
        },
        None => None,
    }
}

/// The month number of a local (German) three-letter month abbreviation.
pub open spec fn month_of_letters(a: char, b: char, c: char) -> Option<int> {
    match (a, b, c) {
        ('J', 'a', 'n') => Some(1),
        ('F', 'e', 'b') => Some(2),
        ('M', 'a', 'r') => Some(3),
        ('A', 'p', 'r') => Some(4),
        ('M', 'a', 'i') => Some(5),
        ('J', 'u', 'n') => Some(6),
        ('J', 'u', 'l') => Some(7),
        ('A', 'u', 'g') => Some(8),
        ('S', 'e', 'p') => Some(9),
        ('O', 'k', 't') => Some(10),
        ('N', 'o', 'v') => Some(11),
        ('D', 'e', 'z') => Some(12),
        _ => None,
    }
}

pub open spec fn month_number(tok: Seq<char>) -> Option<int> {
    if tok.len() == 3 {
        month_of_letters(tok[0], tok[1], tok[2])
    } else {
        None
    }
}

/// A number of one or two digits.
pub open spec fn small_number(s: Seq<char>) -> Option<int> {
    if 1 <= s.len() <= 2 && all_digits(s) {
        Some(digits_value(s))
    } else {
        None
    }
}

/// Hours and minutes of a time written `H:M`, each of one or two digits.
pub open spec fn clock_of(t: Seq<char>) -> Option<(int, int)> {
    let p = find_char(t, ':', 0);
    if p >= t.len() {
        None
    } else {
        match (small_number(t.take(p)), small_number(t.skip(p + 1))) {
            (Some(h), Some(mi)) => Some((h, mi)),
            _ => None,
        }
    }
}

/// The first three space-separated fields of `s` (day, month, time), where
/// there are at least three.
pub open spec fn date_fields(s: Seq<char>) -> Option<(Seq<char>, Seq<char>, Seq<char>)> {
    let e0 = find_char(s, ' ', 0);
    let e1 = find_char(s, ' ', e0 + 1);
    let e2 = find_char(s, ' ', e1 + 1);
    if e0 >= s.len() || e1 >= s.len() {
        None
    } else {
        Some((s.subrange(0, e0), s.subrange(e0 + 1, e1), s.subrange(e1 + 1, e2)))
    }
}

pub open spec fn without_dots(s: Seq<char>) -> Seq<char> {
    s.filter(|c: char| c != '.')
}

/// The moment that a listing's end-date text `day. Mon. H:M` denotes, in UTC
/// seconds, in the year `year`.
pub open spec fn date_value(text: Seq<char>, year: int) -> Result<int, DateError> {
    match date_fields(without_dots(text)) {
        None => Err(DateError::Malformed),
        Some((d, m, t)) => match month_number(m) {
            None => Err(DateError::UnknownMonth),
            Some(mo) => match (small_number(d), clock_of(t)) {
                (Some(day), Some((h, mi))) => if valid_date_time(year, mo, day, h, mi) {
                    Ok(civil_seconds(year, mo, day, h, mi))
                } else {
                    Err(DateError::Malformed)
                },
                _ => Err(DateError::Malformed),
            },
        },
    }
}

fn remove_dots(s: &Vec<char>) -> (r: Vec<char>)
    ensures
        r@ == without_dots(s@),
{
    let ghost pred = |c: char| c != '.';
    let mut r: Vec<char> = Vec::new();
    let mut i: usize = 0;
    proof {
        reveal(Seq::filter);
        assert(s@.take(0) =~= Seq::<char>::empty());
    }
    while i < s.len()
        invariant
            i <= s.len(),
            r@ == s@.take(i as int).filter(pred),
            pred == (|c: char| c != '.'),
        decreases s.len() - i,
    {
        proof {
            reveal(Seq::filter);
            assert(s@.take(i as int + 1).drop_last() =~= s@.take(i as int));
        }
        if s[i] != '.' {
            r.push(s[i]);
        }
        i += 1;
    }
    assert(s@.take(i as int) =~= s@);
    r
}

fn month_in(s: &Vec<char>, lo: usize, hi: usize) -> (r: Option<u32>)
    requires
        lo <= hi <= s.len(),
    ensures
        match month_number(s@.subrange(lo as int, hi as int)) {
            Some(m) => r == Some(m as u32) && 1 <= m <= 12,
            None => r is None,
        },
{
    if hi - lo != 3 {
        return None;
    }
    let m: u32 = match (s[lo], s[lo + 1], s[lo + 2]) {
        ('J', 'a', 'n') => 1,
        ('F', 'e', 'b') => 2,
        ('M', 'a', 'r') => 3,
        ('A', 'p', 'r') => 4,
        ('M', 'a', 'i') => 5,
        ('J', 'u', 'n') => 6,
        ('J', 'u', 'l') => 7,
        ('A', 'u', 'g') => 8,
        ('S', 'e', 'p') => 9,
        ('O', 'k', 't') => 10,
        ('N', 'o', 'v') => 11,
        ('D', 'e', 'z') => 12,
        _ => return None,
    };
    Some(m)
}

fn small_number_in(s: &Vec<char>, lo: usize, hi: usize) -> (r: Option<u32>)
    requires
        lo <= hi <= s.len(),
    ensures
        match small_number(s@.subrange(lo as int, hi as int)) {
            Some(v) => r == Some(v as u32) && 0 <= v < 100,
            None => r is None,
        },
{
    if hi - lo > 2 {
        return None;
    }
    let r = digits_in(s, lo, hi);
    proof {
        crate::numbers::lemma_two_digits(s@.subrange(lo as int, hi as int));
    }
    match r {
        Some(v) => Some(v as u32),
        None => None,
    }
}


/// Reads a listing's end-date text, such as `12. Okt. 14:35`, as a moment in
/// UTC seconds. The text carries no year: `year` is taken. An unknown month
/// abbreviation is reported apart from every other defect.
pub fn parse_date(date: String, year: i32) -> (r: Result<i64, DateError>)
    requires
        1 <= year <= 9999,
    ensures
        match date_value(date@, year as int) {
            Ok(t) => r == Ok::<i64, DateError>(t as i64) && t == r->Ok_0 as int,
            Err(e) => r == Err::<i64, DateError>(e),
        },
{
    let raw = chars_of(date.as_str());
    let s = remove_dots(&raw);
    let e0 = find_char_from(&s, ' ', 0);
    if e0 >= s.len() {
        return Err(DateError::Malformed);
    }
    let e1 = find_char_from(&s, ' ', e0 + 1);
    if e1 >= s.len() {
        return Err(DateError::Malformed);
    }
    let e2 = find_char_from(&s, ' ', e1 + 1);
    let month = match month_in(&s, e0 + 1, e1) {
        Some(m) => m,
        None => return Err(DateError::UnknownMonth),
    };
    let day = small_number_in(&s, 0, e0);
    let colon = find_char_from(&s, ':', e1 + 1);
    let ghost t = s@.subrange(e1 + 1, e2 as int);
    proof {
        crate::numbers::lemma_find_char_bounds(t, ':', 0);
        lemma_find_in_field(s@, e1 as int + 1, e2 as int);
    }
    if colon >= e2 || day.is_none() {
        return Err(DateError::Malformed);
    }
    let hour = small_number_in(&s, e1 + 1, colon);
    let minute = small_number_in(&s, colon + 1, e2);
    proof {
        assert(t.take(colon - e1 - 1) =~= s@.subrange(e1 + 1, colon as int));
        assert(t.skip(colon - e1) =~= s@.subrange(colon + 1, e2 as int));
    }
    match (day, hour, minute) {
        (Some(d), Some(h), Some(mi)) => match utc_timestamp(year, month, d, h, mi) {
            Some(t) => Ok(t),
            None => Err(DateError::Malformed),
        },
        _ => Err(DateError::Malformed),
    }
}

/// Within a field that ends at the next space, the first colon of the field
/// is the first colon of the whole text from the field's start, or none.
proof fn lemma_find_in_field(s: Seq<char>, lo: int, hi: int)
    requires
        0 <= lo <= hi <= s.len(),
        hi == find_char(s, ' ', lo),
    ensures
        ({
            let t = s.subrange(lo, hi);
            let p = find_char(t, ':', 0);
            let q = find_char(s, ':', lo);
            (p < t.len() ==> q == lo + p) && (p >= t.len() ==> q >= hi)
        }),
    decreases hi - lo,
{
    let t = s.subrange(lo, hi);
    if lo < hi {
        assert(s[lo] != ' ');
        if s[lo] != ':' {
            lemma_find_in_field(s, lo + 1, hi);
            let t1 = s.subrange(lo + 1, hi);
            assert(t1 =~= t.skip(1));
            lemma_find_shift(t, ':', 0);
        }
    } else {
        crate::numbers::lemma_find_char_bounds(s, ':', lo);
    }
}

/// Finding in a sequence from index `i + 1` is finding in its tail from `i`.
proof fn lemma_find_shift(t: Seq<char>, c: char, i: int)
    requires
        0 <= i,
        t.len() > 0,
    ensures
        find_char(t, c, i + 1) == 1 + find_char(t.skip(1), c, i),
    decreases t.len() - i,
{
    if i + 1 < t.len() && t[i + 1] != c {
        lemma_find_shift(t, c, i + 1);
    }
}

} // verus!
