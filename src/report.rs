use vstd::prelude::*;
use crate::dispatch::ItemOutcome;
use crate::text::{chars_of, string_of};
use crate::types::{DateError, FetchError, ItemError, PortfolioItem, PriceAnalysis, RowError};

verus! {

/// What the report says of one portfolio row.
#[derive(Debug, Clone, Copy, PartialEq, Eq)]
pub enum RowReport {
    /// The row holds no valid item.
    Invalid(RowError),
    /// The row's item was priced.
    Priced(PriceAnalysis),
    /// Pricing the row's item failed.
    Failed(ItemError),
    /// No outcome was recorded for the row's item.
    Unpriced,
}

/// The first outcome recorded for set number `id`.
pub open spec fn outcome_of(results: Seq<(String, ItemOutcome)>, id: Seq<char>) -> Option<ItemOutcome>
    decreases results.len(),
{
    if results.len() == 0 {
        None
    } else if results[0].0@ == id {
        Some(results[0].1)
    } else {
        outcome_of(results.drop_first(), id)
    }
}

/// The report line of one row.
pub open spec fn row_report(row: Result<PortfolioItem, RowError>, results: Seq<(String, ItemOutcome)>) -> RowReport {
    match row {
        Err(e) => RowReport::Invalid(e),
        Ok(item) => match outcome_of(results, item.set_number@) {
            None => RowReport::Unpriced,
            Some(Ok(a)) => RowReport::Priced(a),
            Some(Err(e)) => RowReport::Failed(e),
        },
    }
}

fn lookup(results: &Vec<(String, ItemOutcome)>, id: &String) -> (r: Option<ItemOutcome>)
    ensures
        r == outcome_of(results@, id@),
{
    let mut i: usize = 0;
    assert(results@.skip(0) =~= results@);
    while i < results.len()
        invariant
            i <= results.len(),
            outcome_of(results@, id@) == outcome_of(results@.skip(i as int), id@),
        decreases results.len() - i,
    {
        proof {
            assert(results@.skip(i as int).drop_first() =~= results@.skip(i as int + 1));
        }
        if results[i].0 == *id {
            return Some(results[i].1);
        }
        i += 1;
    }
    None
}

/// One report line per portfolio row, in the portfolio's order: invalid rows
/// keep their reason, valid rows take the outcome recorded for their set
/// number, so that rows sharing a set number share its outcome.
pub fn report_rows(
    portfolio: &Vec<Result<PortfolioItem, RowError>>,
    results: &Vec<(String, ItemOutcome)>,
) -> (r: Vec<RowReport>)
    ensures
        r.len() == portfolio.len(),
        forall|k: int| 0 <= k < r.len() ==> #[trigger] r@[k] == row_report(portfolio@[k], results@),
{
    let mut out: Vec<RowReport> = Vec::new();
    let mut k: usize = 0;
    while k < portfolio.len()
        invariant
            k <= portfolio.len(),
            out.len() == k,
            forall|j: int| 0 <= j < k ==> #[trigger] out@[j] == row_report(portfolio@[j], results@),
        decreases portfolio.len() - k,
    {
        let line = match &portfolio[k] {
            Err(e) => RowReport::Invalid(*e),
            Ok(item) => match lookup(results, &item.set_number) {
                None => RowReport::Unpriced,
                Some(Ok(a)) => RowReport::Priced(a),
                Some(Err(e)) => RowReport::Failed(e),
            },
        };
        out.push(line);
        k += 1;
    }
    out
}

/// First line of the report.
pub const CSV_HEADER: &'static str = "price in \u{20ac}\n";

/// Report texts of the row and item failures.
pub const TEXT_MISSING_SET_NUMBER: &'static str = "Set Nummer fehlt";
pub const TEXT_MISSING_TARGET_PRICE: &'static str = "UVP fehlt";
pub const TEXT_NOT_A_NUMBER: &'static str = "Zelle ist keine Zahl";
pub const TEXT_INVALID_VALUE: &'static str = "Setnummer leer oder UVP nicht positiv";
pub const TEXT_TRANSPORT: &'static str = "Seite nicht erreichbar";
pub const TEXT_UNKNOWN_MONTH: &'static str = "Unbekannter Monat im Datum";
pub const TEXT_MALFORMED_DATE: &'static str = "Unlesbares Datum";
pub const TEXT_BAD_SELECTOR: &'static str = "Selektor abgelehnt";
pub const TEXT_NO_EVIDENCE: &'static str = "Keine sinnvollen Ergebnisse gefunden";

pub open spec fn row_error_text(e: RowError) -> Seq<char> {
    match e {
        RowError::EmptyRow => Seq::empty(),
        RowError::MissingSetNumber => TEXT_MISSING_SET_NUMBER@,
        RowError::MissingTargetPrice => TEXT_MISSING_TARGET_PRICE@,
        RowError::NotANumber => TEXT_NOT_A_NUMBER@,
        RowError::InvalidValue => TEXT_INVALID_VALUE@,
    }
}

pub open spec fn fetch_error_text(e: FetchError) -> Seq<char> {
    match e {
        FetchError::Transport => TEXT_TRANSPORT@,
        FetchError::ExtractionFormat(DateError::UnknownMonth) => TEXT_UNKNOWN_MONTH@,
        FetchError::ExtractionFormat(DateError::Malformed) => TEXT_MALFORMED_DATE@,
        FetchError::BadSelector => TEXT_BAD_SELECTOR@,
        FetchError::NoPlausibleEvidence => TEXT_NO_EVIDENCE@,
    }
}

pub open spec fn digit_char(d: int) -> char {
    seq!['0', '1', '2', '3', '4', '5', '6', '7', '8', '9'][d % 10]
}

/// The decimal digits of `n`, without leading zeros.
pub open spec fn decimal_digits(n: nat) -> Seq<char>
    decreases n,
{
    if n < 10 {
        seq![digit_char(n as int)]
    } else {
        decimal_digits(n / 10).push(digit_char((n % 10) as int))
    }
}

/// An amount of cents written as euros with two decimals, such as `12.05`.
pub open spec fn euros_text(cents: nat) -> Seq<char> {
    decimal_digits(cents / 100) + seq!['.', digit_char(((cents % 100) / 10) as int), digit_char((cents % 10) as int)]
}

/// The report text of one row: the mean price, or the failure's text.
pub open spec fn row_text(r: RowReport) -> Seq<char> {
    match r {
        RowReport::Invalid(e) => row_error_text(e),
        RowReport::Priced(a) => euros_text(a.avg as nat),
        RowReport::Failed(ItemError::RetryExhausted(e)) => fetch_error_text(e),
        RowReport::Unpriced => Seq::empty(),
    }
}

/// The texts of `rows`, one per line.
pub open spec fn joined_lines(rows: Seq<RowReport>) -> Seq<char>
    decreases rows.len(),
{
    if rows.len() == 0 {
        Seq::empty()
    } else if rows.len() == 1 {
        row_text(rows[0])
    } else {
        joined_lines(rows.drop_last()) + seq!['\n'] + row_text(rows.last())
    }
}

pub open spec fn csv_text(rows: Seq<RowReport>) -> Seq<char> {
    CSV_HEADER@ + joined_lines(rows)
}

fn digit_of(d: u64) -> (r: char)
    ensures
        r == digit_char(d as int),
{
    let ghost digits = seq!['0', '1', '2', '3', '4', '5', '6', '7', '8', '9'];
    let k = d % 10;
    let r = match k {
        0 => '0',
        1 => '1',
        2 => '2',
        3 => '3',
        4 => '4',
        5 => '5',
        6 => '6',
        7 => '7',
        8 => '8',
        _ => '9',
    };
    assert(r == digits[k as int]);
    r
}

fn push_decimal(out: &mut Vec<char>, n: u64)
    ensures
        final(out)@ == old(out)@ + decimal_digits(n as nat),
    decreases n,
{
    if n >= 10 {
        push_decimal(out, n / 10);
    }
    out.push(digit_of(n % 10));
    proof {
        if n < 10 {
            assert(final(out)@ =~= old(out)@ + decimal_digits(n as nat));
        } else {
            assert(final(out)@ =~= old(out)@ + decimal_digits(n as nat));
        }
    }
}

fn push_str(out: &mut Vec<char>, s: &str)
    ensures
        final(out)@ == old(out)@ + s@,
{
    let mut part = chars_of(s);
    out.append(&mut part);
}

fn push_row_text(out: &mut Vec<char>, r: &RowReport)
    ensures
        final(out)@ == old(out)@ + row_text(*r),
{
    match r {
        RowReport::Invalid(e) => match e {
            RowError::EmptyRow => {
                assert(out@ =~= out@ + Seq::<char>::empty());
            },
            RowError::MissingSetNumber => push_str(out, TEXT_MISSING_SET_NUMBER),
            RowError::MissingTargetPrice => push_str(out, TEXT_MISSING_TARGET_PRICE),
            RowError::NotANumber => push_str(out, TEXT_NOT_A_NUMBER),
            RowError::InvalidValue => push_str(out, TEXT_INVALID_VALUE),
        },
        RowReport::Priced(a) => {
            let ghost start = out@;
            push_decimal(out, a.avg / 100);
            out.push('.');
            out.push(digit_of((a.avg % 100) / 10));
            out.push(digit_of(a.avg % 10));
            assert(out@ =~= start + euros_text(a.avg as nat));
        },
        RowReport::Failed(ItemError::RetryExhausted(e)) => match e {
            FetchError::Transport => push_str(out, TEXT_TRANSPORT),
            FetchError::ExtractionFormat(DateError::UnknownMonth) => push_str(out, TEXT_UNKNOWN_MONTH),
            FetchError::ExtractionFormat(DateError::Malformed) => push_str(out, TEXT_MALFORMED_DATE),
            FetchError::BadSelector => push_str(out, TEXT_BAD_SELECTOR),
            FetchError::NoPlausibleEvidence => push_str(out, TEXT_NO_EVIDENCE),
        },
        RowReport::Unpriced => {
            assert(out@ =~= out@ + Seq::<char>::empty());
        },
    }
}

/// The report as CSV text: a header line, then one line per row with the
/// mean price in euros, or the text of the row's failure.
pub fn create_csv(rows: &Vec<RowReport>) -> (r: String)
    ensures
        r@ == csv_text(rows@),
{
    let mut out = chars_of(CSV_HEADER);
    let mut i: usize = 0;
    assert(rows@.take(0) =~= Seq::<RowReport>::empty());
    while i < rows.len()
        invariant
            i <= rows.len(),
            out@ == CSV_HEADER@ + joined_lines(rows@.take(i as int)),
        decreases rows.len() - i,
    {
        let ghost before = out@;
        proof {
            assert(rows@.take(i as int + 1).drop_last() =~= rows@.take(i as int));
        }
        if i > 0 {
            out.push('\n');
        }
        push_row_text(&mut out, &rows[i]);
        proof {
            let t = rows@.take(i as int + 1);
            if i == 0 {
                assert(out@ =~= CSV_HEADER@ + joined_lines(t));
            } else {
                assert(out@ =~= before + seq!['\n'] + row_text(t.last()));
                assert(out@ =~= CSV_HEADER@ + joined_lines(t));
            }
        }
        i += 1;
    }
    assert(rows@.take(i as int) =~= rows@);
    string_of(&out)
}

} // verus!
