use easymoney::chart::ChartComponent;
use easymoney::models::AMOUNT_LIMIT;
use easymoney::chart::FiftyThirtyTwenty;
use easymoney::chart::MonthSummary;
use easymoney::chart::get_transactions_by_month;
use easymoney::input::Key;
use easymoney::models::Category;
use easymoney::models::Date;
use easymoney::models::Kind;
use easymoney::models::Transaction;

fn tx(id: u32, month: u8, amount: i64, kind: Kind, group: Option<Category>) -> Transaction {
    Transaction {
        id,
        date: Date { year: 2024, month, day: 10 },
        title: format!("item {}", id),
        amount,
        kind,
        group,
    }
}

fn sample() -> Vec<Transaction> {
    vec![
        tx(1, 1, 500000, Kind::Income, None),
        tx(2, 1, -120000, Kind::DebitPurchase, Some(Category::Housing)),
        tx(3, 1, -30000, Kind::CreditPurchase, Some(Category::Trips)),
        tx(4, 1, -20000, Kind::DebitPurchase, Some(Category::Savings)),
        tx(5, 1, -15000, Kind::CreditBillPayment, None),
        tx(6, 2, 510000, Kind::Income, None),
        tx(7, 2, -99000, Kind::CreditPurchase, Some(Category::Food)),
    ]
}

#[test]
fn month_summary_adds_up_income_and_expenses() {
    let items = sample();
    let s = MonthSummary::new(&items, 2024, 1);
    assert_eq!(s.total_income, 500000);
    // bill payments are not expenses: only the two purchases count
    assert_eq!(s.total_expenses, -170000);
}

#[test]
fn fifty_thirty_twenty_splits_by_category() {
    let items = sample();
    let split = FiftyThirtyTwenty::new(&items, 2024, 1);
    assert_eq!(split.needs, -120000);
    assert_eq!(split.wants, -30000);
    assert_eq!(split.savings, -20000);
}

#[test]
fn category_slots_hold_each_category_total() {
    let items = sample();
    let s = MonthSummary::new(&items, 2024, 1);
    assert_eq!(s.categorized_expenses.len(), 10);
    assert_eq!(s.categorized_expenses[0], (Some(Category::Housing), -120000));
    assert_eq!(s.categorized_expenses[7], (Some(Category::Trips), -30000));
    // nothing uncategorized among the purchases of January
    assert_eq!(s.categorized_expenses[9], (None, 0));
}

#[test]
fn months_come_out_distinct_and_most_recent_first() {
    let items = sample();
    let summaries = get_transactions_by_month(&items);
    assert_eq!(summaries.len(), 2);
    assert_eq!((summaries[0].year, summaries[0].month), (2024, 2));
    assert_eq!((summaries[1].year, summaries[1].month), (2024, 1));
}

#[test]
fn chart_cursor_wraps_and_keys_step_it() {
    let items = sample();
    let mut chart = ChartComponent::new(&items);
    assert_eq!(chart.cursor, 0);
    chart.handle_key_events(Key::Char('k'));
    assert_eq!(chart.cursor, 1);
    chart.handle_key_events(Key::Char('k'));
    assert_eq!(chart.cursor, 0);
    chart.handle_key_events(Key::Char('l'));
    assert_eq!(chart.cursor, 1);
    chart.handle_key_events(Key::Char('x'));
    assert_eq!(chart.cursor, 1);
}

#[test]
fn chart_cursor_noop_when_empty() {
    let items: Vec<Transaction> = Vec::new();
    let mut chart = ChartComponent::new(&items);
    chart.next_row();
    chart.previous_row();
    assert_eq!(chart.cursor, 0);
    assert_eq!(chart.get_max_bar_height(), None);
}

#[test]
fn sums_are_exact_at_the_amount_limit() {
    let items = vec![
        tx(1, 1, AMOUNT_LIMIT, Kind::Income, None),
        tx(2, 1, AMOUNT_LIMIT, Kind::Income, None),
        tx(3, 1, -AMOUNT_LIMIT, Kind::DebitPurchase, Some(Category::Food)),
    ];
    let s = MonthSummary::new(&items, 2024, 1);
    assert_eq!(s.total_income, 2 * AMOUNT_LIMIT as i128);
    assert_eq!(s.total_expenses, -(AMOUNT_LIMIT as i128));
}

#[test]
fn max_bar_height_is_the_largest_expense_total() {
    let items = sample();
    let chart = ChartComponent::new(&items);
    // January: -170000, February: -99000; the maximum is February's
    assert_eq!(chart.get_max_bar_height(), Some(-99000));
}
