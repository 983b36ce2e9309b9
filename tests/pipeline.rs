use lego_value::controller::{determine_current_value, next_step, Step, MAX_ATTEMPTS};
use lego_value::dispatch::{unique_items, Dispatcher};
use lego_value::portfolio::{find_column, get_item_of_row, read_portfolio, Cell, SheetError};
use lego_value::report::{create_csv, report_rows, RowReport};
use lego_value::{FetchError, ItemError, PortfolioItem, PriceAnalysis, RowError};

fn item(set: &str, target: u64) -> PortfolioItem {
    PortfolioItem { target_price: target, set_number: set.to_string() }
}

fn number(text: &str, cents: u64) -> Cell {
    Cell::Number { text: text.to_string(), cents }
}

fn analysis(avg: u64) -> PriceAnalysis {
    PriceAnalysis { min: avg, max: avg, avg, data_points: 1 }
}

#[test]
fn retry_termination() {
    let mut attempts: u32 = 0;
    let outcome = loop {
        attempts += 1;
        assert!(attempts <= MAX_ATTEMPTS);
        match next_step(attempts, Err(FetchError::Transport)) {
            Step::Retry => {}
            Step::Finished(o) => break o,
        }
    };
    assert_eq!(attempts, 6);
    assert_eq!(outcome, Err(ItemError::RetryExhausted(FetchError::Transport)));
}

#[test]
fn first_success_ends_retries() {
    assert_eq!(next_step(1, Ok(analysis(5))), Step::Finished(Ok(analysis(5))));
    assert_eq!(next_step(3, Err(FetchError::NoPlausibleEvidence)), Step::Retry);
    assert_eq!(
        next_step(6, Err(FetchError::NoPlausibleEvidence)),
        Step::Finished(Err(ItemError::RetryExhausted(FetchError::NoPlausibleEvidence)))
    );
}

#[test]
fn dedup_one_query_per_set_number() {
    let portfolio = vec![
        Ok(item("42096", 15000)),
        Err(RowError::MissingTargetPrice),
        Ok(item("75192", 80000)),
        Ok(item("42096", 17000)),
    ];
    let unique = unique_items(&portfolio);
    assert_eq!(unique.len(), 2);
    assert_eq!(unique[0].set_number, "42096");
    assert_eq!(unique[0].target_price, 15000);
    assert_eq!(unique[1].set_number, "75192");
}

#[test]
fn concurrency_bound() {
    let items: Vec<PortfolioItem> = (0..10).map(|i| item(&format!("{}", 10000 + i), 100)).collect();
    let mut d = Dispatcher::new(items, 2);
    let mut running: Vec<PortfolioItem> = Vec::new();
    let mut max_running = 0;
    let mut finished = 0;
    while !d.is_done() {
        while let Some(it) = d.start_next() {
            running.push(it);
            max_running = max_running.max(running.len());
            assert!(running.len() <= 2);
        }
        let done = running.remove(0);
        d.finish(done.set_number.clone(), Ok(analysis(1)));
        finished += 1;
    }
    assert_eq!(max_running, 2);
    assert_eq!(finished, 10);
    assert_eq!(d.into_results().len(), 10);
}

#[test]
fn dispatcher_hands_out_each_item_once_in_order() {
    let items = vec![item("1", 10), item("2", 20), item("3", 30)];
    let mut d = Dispatcher::new(items, 5);
    let mut handed = Vec::new();
    while let Some(it) = d.start_next() {
        handed.push((it.set_number, it.target_price));
    }
    assert_eq!(handed, vec![("1".to_string(), 10), ("2".to_string(), 20), ("3".to_string(), 30)]);
}

#[test]
fn dispatcher_with_zero_limit_runs_one() {
    let mut d = Dispatcher::new(vec![item("1", 1), item("2", 1)], 0);
    assert!(d.start_next().is_some());
    assert!(d.start_next().is_none());
}

#[test]
fn find_column_takes_first_matching_header() {
    let header = vec![Cell::Empty, Cell::Text("UVP LEGO".to_string()), Cell::Text("Setnummer".to_string())];
    assert_eq!(find_column(&header, "Setnummer"), Some(2));
    assert_eq!(find_column(&header, "UVP LEGO"), Some(1));
    assert_eq!(find_column(&header, "Name"), None);
}

#[test]
fn get_item_of_row_errors() {
    let row = vec![Cell::Empty, Cell::Empty];
    assert_eq!(get_item_of_row(&row, 0, 1), Err(RowError::EmptyRow));
    let row = vec![Cell::Empty, number("100", 10000)];
    assert_eq!(get_item_of_row(&row, 0, 1), Err(RowError::MissingSetNumber));
    let row = vec![number("42096", 4209600), Cell::Empty];
    assert_eq!(get_item_of_row(&row, 0, 1), Err(RowError::MissingTargetPrice));
    let row = vec![Cell::Text("abc".to_string()), number("100", 10000)];
    assert_eq!(get_item_of_row(&row, 0, 1), Err(RowError::NotANumber));
    let row = vec![number("42096", 4209600), number("0", 0)];
    assert_eq!(get_item_of_row(&row, 0, 1), Err(RowError::InvalidValue));
    let row = vec![number("", 0), number("149.99", 14999)];
    assert_eq!(get_item_of_row(&row, 0, 1), Err(RowError::InvalidValue));
    let row = vec![number("42096", 4209600), number("149.99", 14999)];
    let it = get_item_of_row(&row, 0, 1).unwrap();
    assert_eq!(it.set_number, "42096");
    assert_eq!(it.target_price, 14999);
}

#[test]
fn read_portfolio_maps_rows_after_header() {
    let rows = vec![
        vec![Cell::Text("Setnummer".to_string()), Cell::Text("UVP LEGO".to_string())],
        vec![number("42096", 4209600), number("149.99", 14999)],
        vec![Cell::Empty, Cell::Empty],
        vec![number("75192", 7519200)],
    ];
    let p = read_portfolio(&rows).unwrap();
    assert_eq!(p.len(), 3);
    assert_eq!(p[0].as_ref().unwrap().target_price, 14999);
    assert_eq!(p[1].as_ref().unwrap_err(), &RowError::EmptyRow);
    assert_eq!(p[2].as_ref().unwrap_err(), &RowError::MissingTargetPrice);
}

#[test]
fn read_portfolio_sheet_errors() {
    assert_eq!(read_portfolio(&vec![]).unwrap_err(), SheetError::NoHeader);
    let rows = vec![vec![Cell::Text("Setnummer".to_string())]];
    assert_eq!(read_portfolio(&rows).unwrap_err(), SheetError::MissingColumn);
}

#[test]
fn report_rows_follow_portfolio_order() {
    let portfolio = vec![
        Ok(item("42096", 15000)),
        Err(RowError::EmptyRow),
        Ok(item("75192", 80000)),
        Ok(item("42096", 17000)),
        Ok(item("10000", 1)),
    ];
    let results = vec![
        ("75192".to_string(), Err(ItemError::RetryExhausted(FetchError::Transport))),
        ("42096".to_string(), Ok(analysis(12345))),
    ];
    let r = report_rows(&portfolio, &results);
    assert_eq!(
        r,
        vec![
            RowReport::Priced(analysis(12345)),
            RowReport::Invalid(RowError::EmptyRow),
            RowReport::Failed(ItemError::RetryExhausted(FetchError::Transport)),
            RowReport::Priced(analysis(12345)),
            RowReport::Unpriced,
        ]
    );
}

#[test]
fn determine_current_value_from_page() {
    let page = "<html><body><ul>\
<li class=\"s-item\"><h3 class=\"s-item__title\">Lego 42096 Porsche</h3>\
<span class=\"s-item__price\"><span class=\"POSITIVE\">EUR 120,50</span></span>\
<span class=\"s-item__detail\"><span class=\"s-item__ended-date\">12. Okt. 14:35</span></span></li>\
<li class=\"s-item\"><h3 class=\"s-item__title\">Lego 42096 Porsche 75192</h3>\
<span class=\"s-item__price\"><span class=\"POSITIVE\">EUR 130,00</span></span>\
<span class=\"s-item__detail\"><span class=\"s-item__ended-date\">12. Okt. 10:00</span></span></li>\
</ul></body></html>";
    let now = 1602513300 + 3600;
    let a = determine_current_value(&item("42096", 15000), page, now, 2020).unwrap();
    assert_eq!((a.min, a.max, a.avg, a.data_points), (12050, 12050, 12050, 1));
    assert_eq!(
        determine_current_value(&item("42096", 30000), page, now, 2020),
        Err(FetchError::NoPlausibleEvidence)
    );
}

#[test]
fn create_csv_writes_header_and_one_line_per_row() {
    let rows = vec![
        RowReport::Priced(analysis(12345)),
        RowReport::Invalid(RowError::EmptyRow),
        RowReport::Invalid(RowError::MissingTargetPrice),
        RowReport::Failed(ItemError::RetryExhausted(FetchError::NoPlausibleEvidence)),
        RowReport::Priced(analysis(7)),
        RowReport::Unpriced,
    ];
    assert_eq!(
        create_csv(&rows),
        "price in \u{20ac}\n123.45\n\nUVP fehlt\nKeine sinnvollen Ergebnisse gefunden\n0.07\n"
    );
    assert_eq!(create_csv(&vec![]), "price in \u{20ac}\n");
    assert_eq!(create_csv(&vec![RowReport::Priced(analysis(100000))]), "price in \u{20ac}\n1000.00");
}
