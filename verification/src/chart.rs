//! Monthly aggregation for the chart view: per-month income and expense
//! totals, the 50/30/20 needs/wants/savings split, per-category expense
//! totals, and the cursor over the month list. All sums are in cents,
//! accumulated in 128-bit integers so no realistic list can overflow.

use vstd::prelude::*;

use crate::input::Key;
use crate::models::lemma_vec_deep_view;
use crate::models::Category;
use crate::models::Transaction;
use crate::models::TransactionV;
use crate::models::AMOUNT_LIMIT;
use crate::table::cursor_next;
use crate::table::cursor_previous;

verus! {

/// Every amount stays inside the per-transaction limit.
pub open spec fn amounts_bounded(s: Seq<TransactionV>) -> bool {
    forall|i: int|
        0 <= i < s.len() ==> -(AMOUNT_LIMIT as int) <= (#[trigger] s[i]).amount <= AMOUNT_LIMIT
            as int
}

/// The sum of the amounts of the transactions matching `p`.
pub open spec fn sum_if(s: Seq<TransactionV>, p: spec_fn(TransactionV) -> bool) -> int
    decreases s.len(),
{
    if s.len() == 0 {
        0
    } else {
        sum_if(s.drop_last(), p) + if p(s.last()) {
            s.last().amount
        } else {
            0
        }
    }
}

/// Whether the transaction falls in the given month.
pub open spec fn in_month(t: TransactionV, year: i32, month: u8) -> bool {
    t.date.year == year && t.date.month == month
}

/// Whether the transaction is spending (a purchase of either kind).
pub open spec fn is_expense(t: TransactionV) -> bool {
    t.kind is DebitPurchase || t.kind is CreditPurchase
}

/// The budget-rule bucket of a category: needs cover the essentials,
/// savings stand alone, the rest are wants.
pub open spec fn is_needs(c: Category) -> bool {
    match c {
        Category::Food => true,
        Category::Housing => true,
        Category::Transportation => true,
        Category::Supermarket => true,
        Category::Health => true,
        _ => false,
    }
}

/// What one aggregate adds up: monthly income, monthly expenses, one of
/// the 50/30/20 buckets, or the expenses of one category slot.
#[derive(Clone, Copy, PartialEq, Eq, Structural, Debug)]
pub enum Aggregate {
    Income,
    Expenses,
    Needs,
    Wants,
    Savings,
    ByCategory(Option<Category>),
}

/// Whether a transaction of the given month counts toward the
/// aggregate.
pub open spec fn aggregate_matches(sel: Aggregate, year: i32, month: u8, t: TransactionV) -> bool {
    in_month(t, year, month) && match sel {
        Aggregate::Income => t.kind is Income,
        Aggregate::Expenses => is_expense(t),
        Aggregate::Needs => is_expense(t) && match t.group {
            Some(c) => is_needs(c),
            None => false,
        },
        Aggregate::Wants => is_expense(t) && match t.group {
            Some(c) => !is_needs(c) && !(c is Savings),
            None => false,
        },
        Aggregate::Savings => is_expense(t) && match t.group {
            Some(c) => c is Savings,
            None => false,
        },
        Aggregate::ByCategory(g) => is_expense(t) && t.group == g,
    }
}

/// The aggregate's value over a transaction list, in cents.
pub open spec fn aggregate_sum(
    s: Seq<TransactionV>,
    sel: Aggregate,
    year: i32,
    month: u8,
) -> int {
    sum_if(s, |t: TransactionV| aggregate_matches(sel, year, month, t))
}

/// Whether the transaction counts toward the aggregate, as executable
/// code.
fn matches_aggregate(sel: Aggregate, year: i32, month: u8, t: &Transaction) -> (r: bool)
    ensures
        r == aggregate_matches(sel, year, month, t@),
{
    if !(t.date.year == year && t.date.month == month) {
        return false;
    }
    match sel {
        Aggregate::Income => t.kind == crate::models::Kind::Income,
        Aggregate::Expenses => t.kind == crate::models::Kind::DebitPurchase || t.kind
            == crate::models::Kind::CreditPurchase,
        Aggregate::Needs => (t.kind == crate::models::Kind::DebitPurchase || t.kind
            == crate::models::Kind::CreditPurchase) && match t.group {
            Some(c) => c == Category::Food || c == Category::Housing || c
                == Category::Transportation || c == Category::Supermarket || c == Category::Health,
            None => false,
        },
        Aggregate::Wants => (t.kind == crate::models::Kind::DebitPurchase || t.kind
            == crate::models::Kind::CreditPurchase) && match t.group {
            Some(c) => !(c == Category::Food || c == Category::Housing || c
                == Category::Transportation || c == Category::Supermarket || c == Category::Health)
                && c != Category::Savings,
            None => false,
        },
        Aggregate::Savings => (t.kind == crate::models::Kind::DebitPurchase || t.kind
            == crate::models::Kind::CreditPurchase) && match t.group {
            Some(c) => c == Category::Savings,
            None => false,
        },
        Aggregate::ByCategory(g) => (t.kind == crate::models::Kind::DebitPurchase || t.kind
            == crate::models::Kind::CreditPurchase) && match (t.group, g) {
            (Some(a), Some(b)) => a == b,
            (None, None) => true,
            _ => false,
        },
    }
}

/// Add up one aggregate over the transaction list.
pub fn sum_aggregate(items: &Vec<Transaction>, sel: Aggregate, year: i32, month: u8) -> (r: i128)
    requires
        amounts_bounded(items.deep_view()),
    ensures
        r as int == aggregate_sum(items.deep_view(), sel, year, month),
{
    let ghost m0 = items.deep_view();
    let ghost p = |t: TransactionV| aggregate_matches(sel, year, month, t);
    let n = items.len();
    proof {
        lemma_vec_deep_view(items);
        assert(m0.take(0) =~= Seq::<TransactionV>::empty());
    }
    let mut acc: i128 = 0;
    let mut i: usize = 0;
    while i < n
        invariant
            i <= n,
            n == items@.len(),
            m0 == items.deep_view(),
            m0.len() == n,
            amounts_bounded(m0),
            p == (|t: TransactionV| aggregate_matches(sel, year, month, t)),
            acc as int == sum_if(m0.take(i as int), p),
            -((i as int) * AMOUNT_LIMIT as int) <= acc as int <= (i as int) * AMOUNT_LIMIT as int,
        decreases n - i,
    {
        proof {
            lemma_vec_deep_view(items);
            assert(m0.take(i + 1).drop_last() =~= m0.take(i as int));
            assert(m0.take(i + 1).last() == m0[i as int]);
            assert((i as int) * AMOUNT_LIMIT as int + AMOUNT_LIMIT as int == (i + 1)
                * AMOUNT_LIMIT as int) by (nonlinear_arith);
            assert((i + 1) * AMOUNT_LIMIT as int <= 0x1_0000_0000_0000_0000 * AMOUNT_LIMIT
                as int) by (nonlinear_arith)
                requires
                    0 <= i + 1 <= 0x1_0000_0000_0000_0000,
            ;
        }
        if matches_aggregate(sel, year, month, &items[i]) {
            acc = acc + items[i].amount as i128;
        }
        i += 1;
    }
    proof {
        assert(m0.take(n as int) =~= m0);
    }
    acc
}

/// The 50/30/20 split of one month's expenses, in cents.
pub struct FiftyThirtyTwenty {
    /// Essential spending.
    pub needs: i128,
    /// Non-essential spending.
    pub wants: i128,
    /// Money put aside.
    pub savings: i128,
}

impl FiftyThirtyTwenty {
    /// The split of the given month's expenses.
    pub fn new(items: &Vec<Transaction>, year: i32, month: u8) -> (r: Self)
        requires
            amounts_bounded(items.deep_view()),
        ensures
            r.needs as int == aggregate_sum(items.deep_view(), Aggregate::Needs, year, month),
            r.wants as int == aggregate_sum(items.deep_view(), Aggregate::Wants, year, month),
            r.savings as int == aggregate_sum(items.deep_view(), Aggregate::Savings, year, month),
    {
        FiftyThirtyTwenty {
            needs: sum_aggregate(items, Aggregate::Needs, year, month),
            wants: sum_aggregate(items, Aggregate::Wants, year, month),
            savings: sum_aggregate(items, Aggregate::Savings, year, month),
        }
    }
}

/// The category slot at position `i` of the per-category chart: the
/// nine categories in their fixed order, then the uncategorized slot.
pub open spec fn chart_slot(i: int) -> Option<Category> {
    if i == 0 {
        Some(Category::Housing)
    } else if i == 1 {
        Some(Category::Transportation)
    } else if i == 2 {
        Some(Category::Food)
    } else if i == 3 {
        Some(Category::Supermarket)
    } else if i == 4 {
        Some(Category::Savings)
    } else if i == 5 {
        Some(Category::Health)
    } else if i == 6 {
        Some(Category::Personal)
    } else if i == 7 {
        Some(Category::Trips)
    } else if i == 8 {
        Some(Category::Other)
    } else {
        None
    }
}

/// How many category slots the chart shows.
pub const CHART_SLOTS: usize = 10;

/// One month's aggregates, in cents.
pub struct MonthSummary {
    /// The calendar year.
    pub year: i32,
    /// The calendar month.
    pub month: u8,
    /// The month's inflow.
    pub total_income: i128,
    /// The month's spending.
    pub total_expenses: i128,
    /// The month's 50/30/20 split.
    pub fifty_thirty_twenty: FiftyThirtyTwenty,
    /// Spending per category slot, in the fixed slot order.
    pub categorized_expenses: Vec<(Option<Category>, i128)>,
}

impl MonthSummary {
    /// Whether this summary holds exactly the given list's aggregates
    /// for its month.
    pub open spec fn summarizes(&self, s: Seq<TransactionV>) -> bool {
        &&& self.total_income as int == aggregate_sum(s, Aggregate::Income, self.year, self.month)
        &&& self.total_expenses as int == aggregate_sum(
            s,
            Aggregate::Expenses,
            self.year,
            self.month,
        )
        &&& self.fifty_thirty_twenty.needs as int == aggregate_sum(
            s,
            Aggregate::Needs,
            self.year,
            self.month,
        )
        &&& self.fifty_thirty_twenty.wants as int == aggregate_sum(
            s,
            Aggregate::Wants,
            self.year,
            self.month,
        )
        &&& self.fifty_thirty_twenty.savings as int == aggregate_sum(
            s,
            Aggregate::Savings,
            self.year,
            self.month,
        )
        &&& self.categorized_expenses@.len() == CHART_SLOTS
        &&& forall|i: int|
            0 <= i < CHART_SLOTS ==> #[trigger] self.categorized_expenses@[i] == (
            chart_slot(i),
            (aggregate_sum(s, Aggregate::ByCategory(chart_slot(i)), self.year, self.month)
                as i128),
            )
    }

    /// Aggregate one month of the list.
    pub fn new(items: &Vec<Transaction>, year: i32, month: u8) -> (r: Self)
        requires
            amounts_bounded(items.deep_view()),
        ensures
            r.year == year,
            r.month == month,
            r.summarizes(items.deep_view()),
    {
        let mut categorized_expenses: Vec<(Option<Category>, i128)> = Vec::new();
        let mut slot: usize = 0;
        while slot < CHART_SLOTS
            invariant
                slot <= CHART_SLOTS,
                amounts_bounded(items.deep_view()),
                categorized_expenses@.len() == slot,
                forall|i: int|
                    0 <= i < slot ==> #[trigger] categorized_expenses@[i] == (
                    chart_slot(i),
                    (aggregate_sum(items.deep_view(), Aggregate::ByCategory(chart_slot(i)), year, month)
                        as i128),
                    ),
            decreases CHART_SLOTS - slot,
        {
            let g: Option<Category> = if slot == 0 {
                Some(Category::Housing)
            } else if slot == 1 {
                Some(Category::Transportation)
            } else if slot == 2 {
                Some(Category::Food)
            } else if slot == 3 {
                Some(Category::Supermarket)
            } else if slot == 4 {
                Some(Category::Savings)
            } else if slot == 5 {
                Some(Category::Health)
            } else if slot == 6 {
                Some(Category::Personal)
            } else if slot == 7 {
                Some(Category::Trips)
            } else if slot == 8 {
                Some(Category::Other)
            } else {
                None
            };
            proof {
                assert(g == chart_slot(slot as int));
            }
            let total = sum_aggregate(items, Aggregate::ByCategory(g), year, month);
            categorized_expenses.push((g, total));
            slot += 1;
        }
        MonthSummary {
            year,
            month,
            total_income: sum_aggregate(items, Aggregate::Income, year, month),
            total_expenses: sum_aggregate(items, Aggregate::Expenses, year, month),
            fifty_thirty_twenty: FiftyThirtyTwenty::new(items, year, month),
            categorized_expenses,
        }
    }
}

/// Some transaction among the first `n` falls in the given month.
pub open spec fn month_present_upto(s: Seq<TransactionV>, n: int, year: i32, month: u8) -> bool {
    exists|i: int| 0 <= i < n && in_month(#[trigger] s[i], year, month)
}

/// Some transaction of the list falls in the given month.
pub open spec fn month_present(s: Seq<TransactionV>, year: i32, month: u8) -> bool {
    month_present_upto(s, s.len() as int, year, month)
}

/// Some key of the list names the given month.
pub open spec fn key_present(keys: Seq<(i32, u8)>, year: i32, month: u8) -> bool {
    exists|k: int| 0 <= k < keys.len() && #[trigger] keys[k] == (year, month)
}

/// Reverse chronological order on month keys.
pub open spec fn month_after(a: (i32, u8), b: (i32, u8)) -> bool {
    a.0 > b.0 || (a.0 == b.0 && a.1 > b.1)
}

/// The distinct months of the list, most recent first.
fn distinct_months_desc(items: &Vec<Transaction>) -> (r: Vec<(i32, u8)>)
    ensures
        forall|k: int, l: int| 0 <= k < l < r@.len() ==> month_after(r@[k], r@[l]),
        forall|k: int|
            0 <= k < r@.len() ==> month_present(items.deep_view(), (#[trigger] r@[k]).0, r@[k].1),
        forall|y: i32, m: u8|
            #[trigger] month_present(items.deep_view(), y, m) ==> key_present(r@, y, m),
{
    let ghost m0 = items.deep_view();
    let n = items.len();
    proof {
        lemma_vec_deep_view(items);
    }
    let mut keys: Vec<(i32, u8)> = Vec::new();
    let mut i: usize = 0;
    while i < n
        invariant
            i <= n,
            n == items@.len(),
            m0 == items.deep_view(),
            m0.len() == n,
            forall|j: int| 0 <= j < n ==> #[trigger] m0[j] == items@[j]@,
            forall|k: int, l: int| 0 <= k < l < keys@.len() ==> month_after(keys@[k], keys@[l]),
            forall|k: int|
                0 <= k < keys@.len() ==> month_present(m0, (#[trigger] keys@[k]).0, keys@[k].1),
            forall|y: i32, m: u8|
                #[trigger] month_present_upto(m0, i as int, y, m) ==> key_present(keys@, y, m),
        decreases n - i,
    {
        let y = items[i].date.year;
        let m = items[i].date.month;
        proof {
            assert(in_month(m0[i as int], y, m));
        }
        // find where (y, m) belongs among the keys already seen
        let mut p: usize = 0;
        while p < keys.len() && (keys[p].0 > y || (keys[p].0 == y && keys[p].1 > m))
            invariant
                p <= keys@.len(),
                forall|k: int| 0 <= k < p ==> month_after(#[trigger] keys@[k], (y, m)),
            decreases keys.len() - p,
        {
            p += 1;
        }
        let dup = p < keys.len() && keys[p].0 == y && keys[p].1 == m;
        if !dup {
            let ghost pre = keys@;
            proof {
                if (p as int) < pre.len() {
                    assert(month_after((y, m), pre[p as int]));
                }
            }
            keys.insert(p, (y, m));
            proof {
                assert(forall|k: int| 0 <= k < p ==> keys@[k] == pre[k]);
                assert(keys@[p as int] == (y, m));
                assert(forall|k: int| p < k < keys@.len() ==> keys@[k] == pre[k - 1]);
                // the new key sorts between its neighbours
                assert forall|k: int, l: int|
                    0 <= k < l < keys@.len() implies month_after(keys@[k], keys@[l]) by {
                    if k < p && l == p {
                    } else if k == p && l > p {
                        assert(keys@[l] == pre[l - 1]);
                        if l - 1 > p {
                            assert(month_after(pre[p as int], pre[l - 1]));
                        }
                    } else if k < p && l > p {
                        assert(keys@[k] == pre[k]);
                        assert(keys@[l] == pre[l - 1]);
                    } else if k > p && l > p {
                        assert(keys@[k] == pre[k - 1]);
                        assert(keys@[l] == pre[l - 1]);
                    }
                }
                assert forall|yy: i32, mm: u8|
                    #[trigger] month_present_upto(m0, i + 1, yy, mm) implies key_present(
                    keys@,
                    yy,
                    mm,
                ) by {
                    let j = choose|j: int| 0 <= j < i + 1 && in_month(#[trigger] m0[j], yy, mm);
                    if j < i {
                        assert(month_present_upto(m0, i as int, yy, mm));
                        assert(key_present(pre, yy, mm));
                        let k = choose|k: int| 0 <= k < pre.len() && #[trigger] pre[k] == (yy, mm);
                        if k < p {
                            assert(keys@[k] == (yy, mm));
                        } else {
                            assert(keys@[k + 1] == (yy, mm));
                        }
                    } else {
                        assert(keys@[p as int] == (yy, mm));
                    }
                }
            }
        } else {
            proof {
                assert forall|yy: i32, mm: u8|
                    #[trigger] month_present_upto(m0, i + 1, yy, mm) implies key_present(
                    keys@,
                    yy,
                    mm,
                ) by {
                    let j = choose|j: int| 0 <= j < i + 1 && in_month(#[trigger] m0[j], yy, mm);
                    if j < i {
                        assert(month_present_upto(m0, i as int, yy, mm));
                    } else {
                        assert(keys@[p as int] == (yy, mm));
                    }
                }
            }
        }
        i += 1;
    }
    keys
}

/// One summary per distinct month of the list, most recent first.
pub fn get_transactions_by_month(items: &Vec<Transaction>) -> (r: Vec<MonthSummary>)
    requires
        amounts_bounded(items.deep_view()),
    ensures
        forall|k: int, l: int|
            0 <= k < l < r@.len() ==> month_after(
                ((#[trigger] r@[k]).year, r@[k].month),
                ((#[trigger] r@[l]).year, r@[l].month),
            ),
        forall|k: int|
            0 <= k < r@.len() ==> month_present(
                items.deep_view(),
                (#[trigger] r@[k]).year,
                r@[k].month,
            ) && r@[k].summarizes(items.deep_view()),
        forall|y: i32, m: u8|
            #[trigger] month_present(items.deep_view(), y, m) ==> exists|k: int|
                0 <= k < r@.len() && (#[trigger] r@[k]).year == y && r@[k].month == m,
{
    let keys = distinct_months_desc(items);
    let mut out: Vec<MonthSummary> = Vec::new();
    let mut i: usize = 0;
    while i < keys.len()
        invariant
            i <= keys@.len(),
            amounts_bounded(items.deep_view()),
            out@.len() == i,
            forall|k: int, l: int| 0 <= k < l < keys@.len() ==> month_after(keys@[k], keys@[l]),
            forall|k: int|
                0 <= k < keys@.len() ==> month_present(
                    items.deep_view(),
                    (#[trigger] keys@[k]).0,
                    keys@[k].1,
                ),
            forall|y: i32, m: u8|
                #[trigger] month_present(items.deep_view(), y, m) ==> exists|k: int|
                    0 <= k < keys@.len() && #[trigger] keys@[k] == (y, m),
            forall|k: int|
                0 <= k < i ==> ((#[trigger] out@[k]).year, out@[k].month) == keys@[k]
                    && out@[k].summarizes(items.deep_view()),
        decreases keys.len() - i,
    {
        let (y, m) = (keys[i].0, keys[i].1);
        let summary = MonthSummary::new(items, y, m);
        out.push(summary);
        i += 1;
    }
    proof {
        assert forall|y: i32, m: u8|
            #[trigger] month_present(items.deep_view(), y, m) implies exists|k: int|
            0 <= k < out@.len() && (#[trigger] out@[k]).year == y && out@[k].month == m by {
            let k = choose|k: int| 0 <= k < keys@.len() && #[trigger] keys@[k] == (y, m);
            assert(out@[k].year == y && out@[k].month == m);
        }
    }
    out
}

/// How one key press steps the chart: `k` selects the next month,
/// `l` the previous one, anything else nothing; the summaries stay.
pub open spec fn chart_steps(pre: ChartComponent, post: ChartComponent, key: Key) -> bool {
    &&& post.items == pre.items
    &&& post.cursor as int == match key {
        Key::Char(c) => if c == 'k' {
            cursor_next(pre.cursor as int, pre.items@.len() as int)
        } else if c == 'l' {
            cursor_previous(pre.cursor as int, pre.items@.len() as int)
        } else {
            pre.cursor as int
        },
        _ => pre.cursor as int,
    }
}

/// The chart view: one row per month, most recent first, with a
/// wrapping cursor.
pub struct ChartComponent {
    /// The month summaries shown.
    pub items: Vec<MonthSummary>,
    /// The selected month row.
    pub cursor: usize,
}

impl ChartComponent {
    /// The component's internal invariant: the cursor stays on the
    /// list.
    pub open spec fn wf(&self) -> bool {
        &&& (self.items@.len() == 0 ==> self.cursor == 0)
        &&& (self.items@.len() > 0 ==> (self.cursor as int) < self.items@.len())
    }

    /// A chart over the list's months, cursor on the most recent.
    pub fn new(transactions: &Vec<Transaction>) -> (r: Self)
        requires
            amounts_bounded(transactions.deep_view()),
        ensures
            r.wf(),
            r.cursor == 0,
            forall|k: int|
                0 <= k < r.items@.len() ==> (#[trigger] r.items@[k]).summarizes(
                    transactions.deep_view(),
                ),
    {
        ChartComponent { items: get_transactions_by_month(transactions), cursor: 0 }
    }

    /// Recompute the summaries from the list; the cursor returns to the
    /// most recent month.
    pub fn update_chart(&mut self, transactions: &Vec<Transaction>)
        requires
            amounts_bounded(transactions.deep_view()),
        ensures
            final(self).wf(),
            final(self).cursor == 0,
            forall|k: int|
                0 <= k < final(self).items@.len() ==> (#[trigger] final(self).items@[k]).summarizes(
                    transactions.deep_view(),
                ),
    {
        self.items = get_transactions_by_month(transactions);
        self.cursor = 0;
    }

    /// Move the selection one month down, wrapping; a no-op on an empty
    /// chart.
    pub fn next_row(&mut self)
        requires
            old(self).wf(),
        ensures
            final(self).wf(),
            final(self).items == old(self).items,
            final(self).cursor == cursor_next(old(self).cursor as int, old(self).items@.len() as int),
    {
        let len = self.items.len();
        if len == 0 {
            return ;
        }
        if self.cursor >= len - 1 {
            self.cursor = 0;
        } else {
            self.cursor = self.cursor + 1;
        }
    }

    /// Move the selection one month up, wrapping; a no-op on an empty
    /// chart.
    pub fn previous_row(&mut self)
        requires
            old(self).wf(),
        ensures
            final(self).wf(),
            final(self).items == old(self).items,
            final(self).cursor == cursor_previous(
                old(self).cursor as int,
                old(self).items@.len() as int,
            ),
    {
        let len = self.items.len();
        if len == 0 {
            return ;
        }
        if self.cursor == 0 {
            self.cursor = len - 1;
        } else {
            self.cursor = self.cursor - 1;
        }
    }

    /// Dispatch one key press: `k` moves down, `l` moves up.
    pub fn handle_key_events(&mut self, key: Key)
        requires
            old(self).wf(),
        ensures
            final(self).wf(),
            chart_steps(*old(self), *final(self), key),
    {
        match key {
            Key::Char(c) => {
                if c == 'k' {
                    self.next_row();
                } else if c == 'l' {
                    self.previous_row();
                }
            },
            _ => {},
        }
    }

    /// The largest monthly expense total, for scaling the bars; `None`
    /// on an empty chart.
    pub fn get_max_bar_height(&self) -> (r: Option<i128>)
        ensures
            match r {
                Some(v) => self.items@.len() > 0 && (exists|k: int|
                    0 <= k < self.items@.len() && (#[trigger] self.items@[k]).total_expenses == v)
                    && forall|k: int|
                    0 <= k < self.items@.len() ==> (#[trigger] self.items@[k]).total_expenses <= v,
                None => self.items@.len() == 0,
            },
    {
        if self.items.len() == 0 {
            return None;
        }
        let mut best: i128 = self.items[0].total_expenses;
        let mut i: usize = 1;
        while i < self.items.len()
            invariant
                1 <= i <= self.items@.len(),
                exists|k: int|
                    0 <= k < i && (#[trigger] self.items@[k]).total_expenses == best,
                forall|k: int| 0 <= k < i ==> (#[trigger] self.items@[k]).total_expenses <= best,
            decreases self.items@.len() - i,
        {
            if self.items[i].total_expenses > best {
                best = self.items[i].total_expenses;
            }
            i += 1;
        }
        Some(best)
    }
}

} // verus!
