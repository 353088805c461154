use easymoney::app::App;
use easymoney::app::CurrentTab;
use easymoney::footer::get_help;
use easymoney::footer::get_ordering;
use easymoney::input::Key;
use easymoney::models::Category;
use easymoney::models::Date;
use easymoney::models::Group;
use easymoney::models::Kind;
use easymoney::models::Transaction;
use easymoney::table::TableMode;
use easymoney::text::contains_sub;
use easymoney::text::lex_le_str;
use easymoney::text::str_eq;
use easymoney::text::to_lower;

#[test]
fn category_order_is_one_cycle() {
    let mut c = Category::Housing;
    for _ in 0..9 {
        c = c.next();
    }
    assert_eq!(c, Category::Housing);
    assert_eq!(Category::Other.next(), Category::Housing);
    assert_eq!(Category::Housing.previous(), Category::Other);
    assert_eq!(Category::Food.next().previous(), Category::Food);
}

#[test]
fn category_names_round_trip() {
    let all = [
        Category::Housing,
        Category::Transportation,
        Category::Food,
        Category::Supermarket,
        Category::Savings,
        Category::Health,
        Category::Personal,
        Category::Trips,
        Category::Other,
    ];
    for c in all {
        assert_eq!(Category::from_str(c.as_str()), Some(c));
    }
    assert_eq!(Category::from_str("NotACategory"), None);
    assert_eq!(Category::from_str(""), None);
}

#[test]
fn kind_names_round_trip() {
    let all = [Kind::CreditPurchase, Kind::DebitPurchase, Kind::Income, Kind::CreditBillPayment];
    for k in all {
        assert_eq!(Kind::from_str(k.as_str()), Some(k));
    }
    assert_eq!(Kind::from_str("Purchase"), None);
}

#[test]
fn group_names_round_trip() {
    let all = [Group::Fixed, Group::Savings, Group::Variable];
    for g in all {
        assert_eq!(Group::from_str(g.as_str()), Some(g));
    }
    assert_eq!(Group::from_str("Flexible"), None);
}

#[test]
fn date_comparison_is_chronological() {
    let a = Date { year: 2023, month: 12, day: 31 };
    let b = Date { year: 2024, month: 1, day: 1 };
    assert!(a.le(&b));
    assert!(!b.le(&a));
    assert!(a.le(&a));
}

#[test]
fn lowercasing_touches_only_ascii_letters() {
    assert_eq!(to_lower("Uber EATS 42!"), "uber eats 42!");
    assert_eq!(to_lower(""), "");
}

#[test]
fn substring_search_finds_inner_fragments() {
    assert!(contains_sub("uber eats receipt", "uber"));
    assert!(contains_sub("anything", ""));
    assert!(!contains_sub("short", "much longer needle"));
    assert!(!contains_sub("abcdef", "ace"));
}

#[test]
fn string_equality_and_order() {
    assert!(str_eq("same", "same"));
    assert!(!str_eq("same", "sama"));
    assert!(lex_le_str("abc", "abd"));
    assert!(lex_le_str("ab", "abc"));
    assert!(!lex_le_str("b", "abc"));
}

#[test]
fn tabs_saturate_at_both_ends() {
    assert_eq!(CurrentTab::Table.next(), CurrentTab::Chart);
    assert_eq!(CurrentTab::Chart.next(), CurrentTab::Chart);
    assert_eq!(CurrentTab::Chart.previous(), CurrentTab::Table);
    assert_eq!(CurrentTab::Table.previous(), CurrentTab::Table);
}

#[test]
fn app_dispatches_quit_and_tab_keys() {
    let items = vec![Transaction {
        id: 1,
        date: Date { year: 2024, month: 5, day: 2 },
        title: String::from("Sample"),
        amount: -100,
        kind: Kind::DebitPurchase,
        group: None,
    }];
    let mut app = App::new(&items);
    assert!(app.running);
    app.handle_key_events(Key::Right);
    assert_eq!(app.current_tab, CurrentTab::Chart);
    app.handle_key_events(Key::Left);
    assert_eq!(app.current_tab, CurrentTab::Table);
    app.handle_key_events(Key::Char('q'));
    assert!(!app.running);
}

#[test]
fn app_lets_a_modal_table_claim_every_key() {
    let items = vec![Transaction {
        id: 1,
        date: Date { year: 2024, month: 5, day: 2 },
        title: String::from("Sample"),
        amount: -100,
        kind: Kind::DebitPurchase,
        group: None,
    }];
    let mut app = App::new(&items);
    app.handle_key_events(Key::Char('?'));
    assert_eq!(app.table.mode, TableMode::Help);
    // `q` goes to the table now, closing the overlay instead of quitting
    app.handle_key_events(Key::Char('q'));
    assert!(app.running);
    assert_eq!(app.table.mode, TableMode::Normal);
}

#[test]
fn footer_legends_list_their_bindings() {
    let ordering = get_ordering();
    let rows = ordering.get_command();
    assert_eq!(rows.len(), 6);
    assert_eq!(rows[0], ("D", "Date Desc"));
    let help = get_help();
    let rows = help.get_command();
    assert_eq!(rows.len(), 5);
    assert_eq!(rows[4], ("q", "Quit"));
}
