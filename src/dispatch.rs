use vstd::prelude::*;
use crate::types::{ItemError, PortfolioItem, PriceAnalysis, RowError};

verus! {

/// The outcome of pricing one item.
pub type ItemOutcome = Result<PriceAnalysis, ItemError>;

/// Row `k` of the portfolio holds an item with set number `id`.
pub open spec fn row_has(portfolio: Seq<Result<PortfolioItem, RowError>>, k: int, id: Seq<char>) -> bool {
    0 <= k < portfolio.len() && portfolio[k] is Ok && portfolio[k]->Ok_0.set_number@ == id
}

/// Row `k` is the first row that holds an item with set number `id`.
pub open spec fn first_row_of(portfolio: Seq<Result<PortfolioItem, RowError>>, k: int, id: Seq<char>) -> bool {
    row_has(portfolio, k, id) && forall|j: int| 0 <= j < k ==> !#[trigger] row_has(portfolio, j, id)
}

/// `item` is the item of the first row that holds its set number.
pub open spec fn taken_from_first_row(portfolio: Seq<Result<PortfolioItem, RowError>>, item: PortfolioItem) -> bool {
    exists|k: int|
        first_row_of(portfolio, k, item.set_number@) && #[trigger] portfolio[k]->Ok_0.target_price
            == item.target_price
}

fn duplicate(item: &PortfolioItem) -> (r: PortfolioItem)
    ensures
        r.set_number@ == item.set_number@,
        r.target_price == item.target_price,
{
    PortfolioItem { target_price: item.target_price, set_number: item.set_number.clone() }
}

/// The items to query: one per set number among the valid rows, taken from
/// the first row that holds it. Two rows with one set number and different
/// prices give one query.
pub fn unique_items(portfolio: &Vec<Result<PortfolioItem, RowError>>) -> (r: Vec<PortfolioItem>)
    ensures
        forall|i: int, j: int|
            0 <= i < j < r.len() ==> #[trigger] r@[i].set_number@ != #[trigger] r@[j].set_number@,
        forall|k: int|
            0 <= k < portfolio.len() && portfolio@[k] is Ok ==> exists|i: int|
                0 <= i < r.len() && #[trigger] r@[i].set_number@ == portfolio@[k]->Ok_0.set_number@,
        forall|i: int| 0 <= i < r.len() ==> taken_from_first_row(portfolio@, #[trigger] r@[i]),
{
    let mut out: Vec<PortfolioItem> = Vec::new();
    let mut k: usize = 0;
    let ghost mut firsts: Seq<int> = Seq::empty();
    while k < portfolio.len()
        invariant
            k <= portfolio.len(),
            firsts.len() == out.len(),
            forall|i: int, j: int|
                0 <= i < j < out.len() ==> #[trigger] out@[i].set_number@ != #[trigger] out@[j].set_number@,
            forall|m: int|
                0 <= m < k && portfolio@[m] is Ok ==> exists|i: int|
                    0 <= i < out.len() && #[trigger] out@[i].set_number@ == portfolio@[m]->Ok_0.set_number@,
            forall|i: int|
                0 <= i < out.len() ==> firsts[i] < k && first_row_of(portfolio@, #[trigger] firsts[i], out@[i].set_number@)
                    && portfolio@[firsts[i]]->Ok_0.target_price == out@[i].target_price,
        decreases portfolio.len() - k,
    {
        if let Ok(item) = &portfolio[k] {
            let mut seen = false;
            let mut i: usize = 0;
            while i < out.len()
                invariant
                    i <= out.len(),
                    !seen ==> forall|j: int| 0 <= j < i ==> out@[j].set_number@ != item.set_number@,
                    seen ==> exists|j: int| 0 <= j < out.len() && out@[j].set_number@ == item.set_number@,
                decreases out.len() - i,
            {
                if out[i].set_number == item.set_number {
                    seen = true;
                }
                i += 1;
            }
            if !seen {
                proof {
                    assert forall|j: int| 0 <= j < k implies !row_has(portfolio@, j, item.set_number@) by {
                        if row_has(portfolio@, j, item.set_number@) {
                            let w = choose|w: int| 0 <= w < out.len() && #[trigger] out@[w].set_number@ == portfolio@[j]->Ok_0.set_number@;
                            assert(out@[w].set_number@ == item.set_number@);
                        }
                    }
                    assert(first_row_of(portfolio@, k as int, item.set_number@));
                }
                let ghost before = out@;
                out.push(duplicate(item));
                proof {
                    firsts = firsts.push(k as int);
                    assert forall|i2: int| 0 <= i2 < out.len() implies firsts[i2] < k + 1 && first_row_of(portfolio@, #[trigger] firsts[i2], out@[i2].set_number@)
                        && portfolio@[firsts[i2]]->Ok_0.target_price == out@[i2].target_price by {
                        if i2 < before.len() {
                            assert(out@[i2] == before[i2]);
                        }
                    }
                    assert forall|m: int| 0 <= m < k + 1 && portfolio@[m] is Ok implies exists|i2: int|
                        0 <= i2 < out.len() && #[trigger] out@[i2].set_number@ == portfolio@[m]->Ok_0.set_number@ by {
                        if m < k {
                            let w = choose|w: int| 0 <= w < before.len() && #[trigger] before[w].set_number@ == portfolio@[m]->Ok_0.set_number@;
                            assert(out@[w] == before[w]);
                        } else {
                            assert(out@[before.len() as int].set_number@ == portfolio@[m]->Ok_0.set_number@);
                        }
                    }
                }
            }
        }
        k += 1;
    }
    proof {
        assert forall|i: int| 0 <= i < out.len() implies taken_from_first_row(portfolio@, #[trigger] out@[i]) by {
            assert(first_row_of(portfolio@, firsts[i], out@[i].set_number@));
        }
    }
    out
}

/// Hands out items to at most `limit` simultaneous queries and collects
/// their outcomes as they arrive.
pub struct Dispatcher {
    items: Vec<PortfolioItem>,
    next: usize,
    in_flight: usize,
    limit: usize,
    results: Vec<(String, ItemOutcome)>,
}

impl Dispatcher {
    /// Queries started and not yet finished.
    pub closed spec fn running(&self) -> nat {
        self.in_flight as nat
    }

    /// The bound on simultaneous queries.
    pub closed spec fn bound(&self) -> nat {
        self.limit as nat
    }

    /// Items not yet handed out, in the order they will be.
    pub closed spec fn pending(&self) -> Seq<PortfolioItem> {
        self.items@.skip(self.next as int)
    }

    /// How many items are not yet handed out.
    pub open spec fn waiting(&self) -> nat {
        self.pending().len()
    }

    /// Outcomes collected so far, in order of arrival.
    pub closed spec fn collected(&self) -> Seq<(String, ItemOutcome)> {
        self.results@
    }

    pub closed spec fn wf(&self) -> bool {
        &&& self.next <= self.items.len()
        &&& 1 <= self.limit
        &&& self.in_flight <= self.limit
    }

    /// A dispatcher over `items` with `limit` workers; a limit of zero is
    /// taken as one.
    pub fn new(items: Vec<PortfolioItem>, limit: usize) -> (r: Dispatcher)
        ensures
            r.wf(),
            r.running() == 0,
            r.bound() == if limit == 0 { 1 } else { limit as nat },
            r.pending() == items@,
            r.collected().len() == 0,
    {
        let r = Dispatcher {
            items,
            next: 0,
            in_flight: 0,
            limit: if limit == 0 { 1 } else { limit },
            results: Vec::new(),
        };
        assert(r.items@.skip(0) =~= r.items@);
        r
    }

    /// The first waiting item, where a worker is free and an item waits;
    /// starting it removes it from the waiting items and counts it as
    /// running. Never more than the bound run, and each item is handed out
    /// once, in the given order.
    pub fn start_next(&mut self) -> (r: Option<PortfolioItem>)
        requires
            old(self).wf(),
        ensures
            final(self).wf(),
            final(self).bound() == old(self).bound(),
            final(self).collected() == old(self).collected(),
            final(self).running() <= final(self).bound(),
            (old(self).running() < old(self).bound() && old(self).waiting() > 0) ==> r is Some
                && r->Some_0.set_number@ == old(self).pending()[0].set_number@
                && r->Some_0.target_price == old(self).pending()[0].target_price
                && final(self).running() == old(self).running() + 1
                && final(self).pending() == old(self).pending().drop_first(),
            !(old(self).running() < old(self).bound() && old(self).waiting() > 0) ==> r is None
                && final(self).running() == old(self).running()
                && final(self).pending() == old(self).pending(),
    {
        if self.in_flight < self.limit && self.next < self.items.len() {
            let item = duplicate(&self.items[self.next]);
            proof {
                assert(self.items@.skip(self.next as int + 1) =~= self.items@.skip(self.next as int).drop_first());
            }
            self.next = self.next + 1;
            self.in_flight = self.in_flight + 1;
            Some(item)
        } else {
            None
        }
    }

    /// Records the outcome of a finished query, which frees its worker.
    pub fn finish(&mut self, set_number: String, outcome: ItemOutcome)
        requires
            old(self).wf(),
            old(self).running() > 0,
        ensures
            final(self).wf(),
            final(self).bound() == old(self).bound(),
            final(self).running() == old(self).running() - 1,
            final(self).pending() == old(self).pending(),
            final(self).collected() == old(self).collected().push((set_number, outcome)),
    {
        self.in_flight = self.in_flight - 1;
        self.results.push((set_number, outcome));
    }

    /// Every item was handed out and every query finished.
    pub fn is_done(&self) -> (r: bool)
        requires
            self.wf(),
        ensures
            r == (self.waiting() == 0 && self.running() == 0),
    {
        self.next == self.items.len() && self.in_flight == 0
    }

    /// The outcomes collected, in order of arrival.
    pub fn into_results(self) -> (r: Vec<(String, ItemOutcome)>)
        ensures
            r@ == self.collected(),
    {
        self.results
    }
}

} // verus!
