use vstd::prelude::*;
use crate::types::{PortfolioItem, RowError};

verus! {

/// Header of the column of set numbers.
pub const SET_NUMBER_COLUMN: &'static str = "Setnummer";

/// Header of the column of reference prices.
pub const TARGET_PRICE_COLUMN: &'static str = "UVP LEGO";

/// One cell of the portfolio sheet. A number is held as its decimal text
/// (how a set number is searched) and in cents (how a price is compared).
#[derive(Debug, Clone)]
pub enum Cell {
    Empty,
    Text(String),
    Number { text: String, cents: u64 },
}

/// Why the portfolio sheet cannot be read at all.
#[derive(Debug, Clone, Copy, PartialEq, Eq)]
pub enum SheetError {
    /// The sheet has no header row.
    NoHeader,
    /// A required column header is missing.
    MissingColumn,
}

/// The first index whose cell is the text `name`.
pub open spec fn column_index(header: Seq<Cell>, name: Seq<char>) -> Option<int> {
    if exists|i: int| 0 <= i < header.len() && is_header(header[i], name) {
        Some(choose|i: int| 0 <= i < header.len() && is_header(header[i], name) && forall|j: int| 0 <= j < i ==> !is_header(#[trigger] header[j], name))
    } else {
        None
    }
}

pub open spec fn is_header(c: Cell, name: Seq<char>) -> bool {
    match c {
        Cell::Text(s) => s@ == name,
        _ => false,
    }
}

/// Finds the column whose header is `column_name`: the first such cell.
pub fn find_column(header_row: &Vec<Cell>, column_name: &str) -> (r: Option<usize>)
    ensures
        match r {
            Some(i) => i < header_row.len() && is_header(header_row@[i as int], column_name@)
                && forall|j: int| 0 <= j < i ==> !is_header(#[trigger] header_row@[j], column_name@),
            None => forall|j: int| 0 <= j < header_row.len() ==> !is_header(#[trigger] header_row@[j], column_name@),
        },
{
    let mut i: usize = 0;
    while i < header_row.len()
        invariant
            i <= header_row.len(),
            forall|j: int| 0 <= j < i ==> !is_header(#[trigger] header_row@[j], column_name@),
        decreases header_row.len() - i,
    {
        let found = match &header_row[i] {
            Cell::Text(s) => str_eq(s.as_str(), column_name),
            _ => false,
        };
        if found {
            return Some(i);
        }
        i += 1;
    }
    None
}

fn str_eq(a: &str, b: &str) -> (r: bool)
    ensures
        r == (a@ == b@),
{
    let x = crate::text::chars_of(a);
    let y = crate::text::chars_of(b);
    if x.len() != y.len() {
        return false;
    }
    let mut i: usize = 0;
    while i < x.len()
        invariant
            i <= x.len(),
            x.len() == y.len(),
            x@ == a@,
            y@ == b@,
            forall|j: int| 0 <= j < i ==> x@[j] == y@[j],
        decreases x.len() - i,
    {
        if x[i] != y[i] {
            return false;
        }
        i += 1;
    }
    assert(x@ =~= y@);
    true
}

pub open spec fn cell_is_empty(c: Cell) -> bool {
    c is Empty
}

/// The item of a row, or why there is none: both cells empty, one of them
/// empty, one of them not a number, an empty set number or a price of zero.
pub open spec fn row_item(set: Cell, price: Cell) -> Result<(Seq<char>, int), RowError> {
    if cell_is_empty(set) && cell_is_empty(price) {
        Err(RowError::EmptyRow)
    } else if cell_is_empty(set) {
        Err(RowError::MissingSetNumber)
    } else if cell_is_empty(price) {
        Err(RowError::MissingTargetPrice)
    } else {
        match (set, price) {
            (Cell::Number { text, cents: _ }, Cell::Number { text: _, cents }) => if text@.len() == 0
                || cents == 0 {
                Err(RowError::InvalidValue)
            } else {
                Ok((text@, cents as int))
            },
            _ => Err(RowError::NotANumber),
        }
    }
}

pub open spec fn item_is(r: Result<PortfolioItem, RowError>, v: Result<(Seq<char>, int), RowError>) -> bool {
    match v {
        Ok((s, p)) => r is Ok && r->Ok_0.set_number@ == s && r->Ok_0.target_price as int == p,
        Err(e) => r == Err::<PortfolioItem, RowError>(e),
    }
}

/// Reads the item of one sheet row from the cells at the two column indices.
pub fn get_item_of_row(row: &Vec<Cell>, set_number: usize, target_price: usize) -> (r: Result<
    PortfolioItem,
    RowError,
>)
    requires
        set_number < row.len(),
        target_price < row.len(),
    ensures
        item_is(r, row_item(row@[set_number as int], row@[target_price as int])),
{
    let set = &row[set_number];
    let price = &row[target_price];
    let set_empty = matches!(set, Cell::Empty);
    let price_empty = matches!(price, Cell::Empty);
    if set_empty && price_empty {
        return Err(RowError::EmptyRow);
    }
    if set_empty {
        return Err(RowError::MissingSetNumber);
    }
    if price_empty {
        return Err(RowError::MissingTargetPrice);
    }
    match (set, price) {
        (Cell::Number { text, cents: _ }, Cell::Number { text: _, cents }) => {
            if text.as_str().is_empty() || *cents == 0 {
                Err(RowError::InvalidValue)
            } else {
                Ok(PortfolioItem { set_number: text.clone(), target_price: *cents })
            }
        },
        _ => Err(RowError::NotANumber),
    }
}

/// The cell at `i`, a row shorter than that reading as empty there.
pub open spec fn cell_at(row: Seq<Cell>, i: int) -> Cell {
    if 0 <= i < row.len() {
        row[i]
    } else {
        Cell::Empty
    }
}

/// Reads the portfolio from the rows of its sheet: the first row names the
/// columns, every later row gives one entry, in order.
pub fn read_portfolio(rows: &Vec<Vec<Cell>>) -> (r: Result<Vec<Result<PortfolioItem, RowError>>, SheetError>)
    ensures
        rows.len() == 0 ==> r == Err::<Vec<Result<PortfolioItem, RowError>>, SheetError>(SheetError::NoHeader),
        rows.len() > 0 ==> match (column_index(rows@[0]@, SET_NUMBER_COLUMN@), column_index(rows@[0]@, TARGET_PRICE_COLUMN@)) {
            (Some(s), Some(p)) => r is Ok && r->Ok_0.len() == rows.len() - 1
                && forall|k: int| 0 <= k < r->Ok_0.len() ==> item_is(#[trigger] r->Ok_0@[k], row_item(cell_at(rows@[k + 1]@, s), cell_at(rows@[k + 1]@, p))),
            _ => r == Err::<Vec<Result<PortfolioItem, RowError>>, SheetError>(SheetError::MissingColumn),
        },
{
    if rows.len() == 0 {
        return Err(SheetError::NoHeader);
    }
    let s = find_column(&rows[0], SET_NUMBER_COLUMN);
    let p = find_column(&rows[0], TARGET_PRICE_COLUMN);
    proof {
        lemma_column_index(rows@[0]@, SET_NUMBER_COLUMN@, s);
        lemma_column_index(rows@[0]@, TARGET_PRICE_COLUMN@, p);
    }
    let (s, p) = match (s, p) {
        (Some(s), Some(p)) => (s, p),
        _ => return Err(SheetError::MissingColumn),
    };
    let mut out: Vec<Result<PortfolioItem, RowError>> = Vec::new();
    let mut k: usize = 1;
    while k < rows.len()
        invariant
            1 <= k <= rows.len(),
            out.len() == k - 1,
            forall|j: int| 0 <= j < out.len() ==> item_is(#[trigger] out@[j], row_item(cell_at(rows@[j + 1]@, s as int), cell_at(rows@[j + 1]@, p as int))),
        decreases rows.len() - k,
    {
        let row = &rows[k];
        let item = if s < row.len() && p < row.len() {
            get_item_of_row(row, s, p)
        } else {
            let set_empty = s >= row.len() || matches!(&row[s], Cell::Empty);
            let price_empty = p >= row.len() || matches!(&row[p], Cell::Empty);
            if set_empty && price_empty {
                Err(RowError::EmptyRow)
            } else if set_empty {
                Err(RowError::MissingSetNumber)
            } else {
                Err(RowError::MissingTargetPrice)
            }
        };
        out.push(item);
        k += 1;
    }
    Ok(out)
}

proof fn lemma_column_index(header: Seq<Cell>, name: Seq<char>, r: Option<usize>)
    requires
        match r {
            Some(i) => i < header.len() && is_header(header[i as int], name)
                && forall|j: int| 0 <= j < i ==> !is_header(#[trigger] header[j], name),
            None => forall|j: int| 0 <= j < header.len() ==> !is_header(#[trigger] header[j], name),
        },
    ensures
        match r {
            Some(i) => column_index(header, name) == Some(i as int),
            None => column_index(header, name) is None,
        },
{
    if let Some(i) = r {
        assert(0 <= i < header.len() && is_header(header[i as int], name));
        let c = choose|c: int| 0 <= c < header.len() && is_header(header[c], name) && forall|j: int| 0 <= j < c ==> !is_header(#[trigger] header[j], name);
        if c < i {
            assert(!is_header(header[c], name));
        }
        if c > i {
            assert(!is_header(header[i as int], name));
        }
    }
}

} // verus!
