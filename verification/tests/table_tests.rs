use easymoney::input::Key;
use easymoney::models::Category;
use easymoney::models::Date;
use easymoney::models::Kind;
use easymoney::models::Transaction;
use easymoney::table::TableComponent;
use easymoney::table::TableMode;

fn tx(id: u32, title: &str, amount: i64, day: u8) -> Transaction {
    Transaction {
        id,
        date: Date { year: 2024, month: 3, day },
        title: String::from(title),
        amount,
        kind: Kind::DebitPurchase,
        group: None,
    }
}

fn sample() -> Vec<Transaction> {
    vec![
        tx(1, "Uber ride downtown", -2500, 5),
        tx(2, "Supermercado central", -12000, 7),
        tx(3, "Ifood dinner", -4300, 2),
    ]
}

#[test]
fn cursor_wraps_forward_after_len_steps() {
    let items = sample();
    let mut table = TableComponent::new(&items);
    assert_eq!(table.cursor, 0);
    table.next_row();
    table.next_row();
    table.next_row();
    assert_eq!(table.cursor, 0);
}

#[test]
fn cursor_wraps_forward_from_middle() {
    let items = sample();
    let mut table = TableComponent::new(&items);
    table.next_row();
    assert_eq!(table.cursor, 1);
    table.next_row();
    table.next_row();
    table.next_row();
    assert_eq!(table.cursor, 1);
}

#[test]
fn cursor_wraps_backward() {
    let items = sample();
    let mut table = TableComponent::new(&items);
    table.previous_row();
    assert_eq!(table.cursor, 2);
    table.previous_row();
    assert_eq!(table.cursor, 1);
}

#[test]
fn cursor_noop_on_empty_list() {
    let items: Vec<Transaction> = Vec::new();
    let mut table = TableComponent::new(&items);
    table.next_row();
    assert_eq!(table.cursor, 0);
    table.previous_row();
    assert_eq!(table.cursor, 0);
    // Enter must not open the edit form on an empty list
    table.handle_key_events(Key::Enter);
    assert_eq!(table.mode, TableMode::Normal);
}

#[test]
fn search_filters_case_insensitively() {
    let items = sample();
    let mut table = TableComponent::new(&items);
    table.handle_key_events(Key::Char('/'));
    assert_eq!(table.mode, TableMode::Search);
    table.handle_key_events(Key::Char('U'));
    table.handle_key_events(Key::Char('B'));
    table.handle_key_events(Key::Char('e'));
    assert_eq!(table.filtered_items.len(), 1);
    assert_eq!(table.filtered_items[0].title, "Uber ride downtown");
    assert_eq!(table.cursor, 0);
}

#[test]
fn search_empty_query_shows_everything() {
    let items = sample();
    let mut table = TableComponent::new(&items);
    table.handle_key_events(Key::Char('/'));
    assert_eq!(table.filtered_items.len(), 3);
    // typing and erasing brings the full list back
    table.handle_key_events(Key::Char('z'));
    assert_eq!(table.filtered_items.len(), 0);
    table.handle_key_events(Key::Backspace);
    assert_eq!(table.filtered_items.len(), 3);
}

#[test]
fn search_enter_commits_and_escape_discards() {
    let items = sample();
    let mut table = TableComponent::new(&items);
    table.handle_key_events(Key::Char('/'));
    table.handle_key_events(Key::Char('i'));
    table.handle_key_events(Key::Enter);
    assert_eq!(table.mode, TableMode::Searched);
    // the filtered view is kept: titles containing an `i`
    assert_eq!(table.filtered_items.len(), 2);
    table.handle_key_events(Key::Esc);
    assert_eq!(table.mode, TableMode::Normal);

    table.handle_key_events(Key::Char('/'));
    table.handle_key_events(Key::Char('x'));
    table.handle_key_events(Key::Esc);
    assert_eq!(table.mode, TableMode::Normal);
}

#[test]
fn searched_mode_cursor_moves_over_filtered_view() {
    let items = sample();
    let mut table = TableComponent::new(&items);
    table.handle_key_events(Key::Char('/'));
    table.handle_key_events(Key::Char('i'));
    table.handle_key_events(Key::Enter);
    assert_eq!(table.filtered_items.len(), 2);
    table.handle_key_events(Key::Char('k'));
    assert_eq!(table.cursor, 1);
    table.handle_key_events(Key::Char('k'));
    assert_eq!(table.cursor, 0);
}

#[test]
fn ordering_sorts_by_title_ascending() {
    let items = sample();
    let mut table = TableComponent::new(&items);
    table.handle_key_events(Key::Char('o'));
    assert_eq!(table.mode, TableMode::Ordering);
    table.handle_key_events(Key::Char('t'));
    assert_eq!(table.mode, TableMode::Normal);
    assert_eq!(table.cursor, 0);
    assert_eq!(table.items[0].title, "Ifood dinner");
    assert_eq!(table.items[1].title, "Supermercado central");
    assert_eq!(table.items[2].title, "Uber ride downtown");
}

#[test]
fn ordering_sorts_by_amount_both_ways() {
    let items = sample();
    let mut table = TableComponent::new(&items);
    table.handle_key_events(Key::Char('o'));
    table.handle_key_events(Key::Char('a'));
    assert_eq!(table.items[0].amount, -12000);
    assert_eq!(table.items[2].amount, -2500);
    table.handle_key_events(Key::Char('o'));
    table.handle_key_events(Key::Char('A'));
    assert_eq!(table.items[0].amount, -2500);
    assert_eq!(table.items[2].amount, -12000);
}

#[test]
fn ordering_sorts_by_date_both_ways() {
    let items = sample();
    let mut table = TableComponent::new(&items);
    table.handle_key_events(Key::Char('o'));
    table.handle_key_events(Key::Char('d'));
    assert_eq!(table.items[0].date.day, 2);
    assert_eq!(table.items[2].date.day, 7);
    table.handle_key_events(Key::Char('o'));
    table.handle_key_events(Key::Char('D'));
    assert_eq!(table.items[0].date.day, 7);
    assert_eq!(table.items[2].date.day, 2);
}

#[test]
fn sorting_twice_is_idempotent() {
    let items = sample();
    let mut table = TableComponent::new(&items);
    table.handle_key_events(Key::Char('o'));
    table.handle_key_events(Key::Char('t'));
    let once: Vec<String> = table.items.iter().map(|t| t.title.clone()).collect();
    table.handle_key_events(Key::Char('o'));
    table.handle_key_events(Key::Char('t'));
    let twice: Vec<String> = table.items.iter().map(|t| t.title.clone()).collect();
    assert_eq!(once, twice);
}

#[test]
fn stable_sort_keeps_equal_keys_in_order() {
    let items = vec![
        tx(1, "Same title", -100, 1),
        tx(2, "Same title", -200, 1),
        tx(3, "Same title", -300, 1),
    ];
    let mut table = TableComponent::new(&items);
    table.handle_key_events(Key::Char('o'));
    table.handle_key_events(Key::Char('t'));
    let ids: Vec<u32> = table.items.iter().map(|t| t.id).collect();
    assert_eq!(ids, vec![1, 2, 3]);
}

#[test]
fn ordering_other_key_just_returns_to_normal() {
    let items = sample();
    let mut table = TableComponent::new(&items);
    table.handle_key_events(Key::Char('o'));
    table.handle_key_events(Key::Char('x'));
    assert_eq!(table.mode, TableMode::Normal);
    assert_eq!(table.items[0].title, "Uber ride downtown");
}

#[test]
fn help_overlay_closes_on_any_key() {
    let items = sample();
    let mut table = TableComponent::new(&items);
    table.handle_key_events(Key::Char('?'));
    assert_eq!(table.mode, TableMode::Help);
    table.handle_key_events(Key::Char('z'));
    assert_eq!(table.mode, TableMode::Normal);
}

#[test]
fn edit_cancel_changes_nothing() {
    let items = sample();
    let mut table = TableComponent::new(&items);
    table.handle_key_events(Key::Enter);
    assert_eq!(table.mode, TableMode::Popup);
    table.handle_key_events(Key::Char('X'));
    table.handle_key_events(Key::Esc);
    assert_eq!(table.mode, TableMode::Normal);
    assert_eq!(table.items[0].title, "Uber ride downtown");
    assert_eq!(table.items[0].group, None);
}

// editing one row's title renames every row that shared it, and both
// resolve to the newly recorded category
#[test]
fn three_records() {
    let items = vec![
        tx(1, "Foo", -100, 1),
        tx(2, "Foo", -200, 2),
        tx(3, "Unrelated thing", -300, 3),
    ];
    let mut table = TableComponent::new(&items);
    // open the edit form on row 0 ("Foo")
    table.handle_key_events(Key::Enter);
    assert_eq!(table.mode, TableMode::Popup);
    // erase "Foo" and type "Bar"
    table.handle_key_events(Key::Backspace);
    table.handle_key_events(Key::Backspace);
    table.handle_key_events(Key::Backspace);
    table.handle_key_events(Key::Char('B'));
    table.handle_key_events(Key::Char('a'));
    table.handle_key_events(Key::Char('r'));
    // pick a category: focus the selector, step once
    table.handle_key_events(Key::Tab);
    table.handle_key_events(Key::Right);
    // confirm
    table.handle_key_events(Key::Tab);
    table.handle_key_events(Key::Enter);
    assert_eq!(table.mode, TableMode::Normal);
    assert_eq!(table.items[0].title, "Bar");
    assert_eq!(table.items[1].title, "Bar");
    assert_eq!(table.items[2].title, "Unrelated thing");
    assert_eq!(table.items[0].group, Some(Category::Housing));
    assert_eq!(table.items[1].group, Some(Category::Housing));
}

#[test]
fn update_transactions_rederives_categories() {
    let items = vec![tx(1, "IFOOD * lunch", -100, 1), tx(2, "Rent office", -200, 2)];
    let mut table = TableComponent::new(&items);
    table.update_transactions();
    // "ifood" is in the built-in dictionary
    assert_eq!(table.items[0].group, Some(Category::Food));
    assert_eq!(table.items[1].group, None);
}

#[test]
fn get_current_row_follows_the_cursor() {
    let items = sample();
    let mut table = TableComponent::new(&items);
    table.next_row();
    let row = table.get_current_row();
    assert_eq!(row.title, "Supermercado central");
    assert_eq!(row.id, 2);
}

#[test]
fn is_blocking_outside_normal_mode() {
    let items = sample();
    let mut table = TableComponent::new(&items);
    assert!(!table.is_blocking());
    table.handle_key_events(Key::Char('?'));
    assert!(table.is_blocking());
}
