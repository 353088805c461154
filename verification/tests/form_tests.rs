use easymoney::form::FormOutcome;
use easymoney::form::PopupForm;
use easymoney::form::PopupFocus;
use easymoney::form::StringField;
use easymoney::form::CategoryField;
use easymoney::input::Key;
use easymoney::models::Category;
use easymoney::models::Date;
use easymoney::models::Kind;
use easymoney::models::Transaction;

fn original() -> Transaction {
    Transaction {
        id: 7,
        date: Date { year: 2024, month: 1, day: 15 },
        title: String::from("Old title"),
        amount: -999,
        kind: Kind::CreditPurchase,
        group: Some(Category::Food),
    }
}

#[test]
fn confirm_with_short_title_is_a_no_op() {
    let mut form = PopupForm::new(original());
    // erase down to two characters
    for _ in 0..7 {
        form.handle_key_event(Key::Backspace);
    }
    assert_eq!(form.get_transaction().title, "Ol");
    form.handle_key_event(Key::Tab);
    form.handle_key_event(Key::Tab);
    let r = form.handle_key_event(Key::Enter);
    assert!(matches!(r, FormOutcome::Pending));
    // still editing: a later valid confirmation still works
    form.handle_key_event(Key::Tab);
    form.handle_key_event(Key::Char('d'));
    form.handle_key_event(Key::Char('!'));
    form.handle_key_event(Key::Tab);
    form.handle_key_event(Key::Tab);
    let r = form.handle_key_event(Key::Enter);
    match r {
        FormOutcome::Committed(t) => assert_eq!(t.title, "Old!"),
        _ => panic!("expected a commit"),
    }
}

#[test]
fn confirm_changes_exactly_the_edited_fields() {
    let mut form = PopupForm::new(original());
    form.handle_key_event(Key::Char('X'));
    form.handle_key_event(Key::Tab);
    form.handle_key_event(Key::Right);
    form.handle_key_event(Key::Tab);
    let r = form.handle_key_event(Key::Enter);
    match r {
        FormOutcome::Committed(t) => {
            assert_eq!(t.title, "Old titleX");
            assert_eq!(t.group, Some(Category::Supermarket));
            assert_eq!(t.id, 7);
            assert_eq!(t.date, Date { year: 2024, month: 1, day: 15 });
            assert_eq!(t.amount, -999);
            assert_eq!(t.kind, Kind::CreditPurchase);
        },
        _ => panic!("expected a commit"),
    }
}

#[test]
fn escape_cancels_and_returns_the_original() {
    let mut form = PopupForm::new(original());
    form.handle_key_event(Key::Char('Z'));
    let r = form.handle_key_event(Key::Esc);
    assert!(matches!(r, FormOutcome::Cancelled));
    assert_eq!(form.get_original_transaction().title, "Old title");
}

#[test]
fn tab_cycles_the_focus() {
    let f = PopupFocus::Title;
    let f = f.next();
    assert_eq!(f, PopupFocus::Category);
    let f = f.next();
    assert_eq!(f, PopupFocus::Confirm);
    let f = f.next();
    assert_eq!(f, PopupFocus::Title);
}

#[test]
fn string_field_drops_characters_past_the_bound() {
    let seed = String::from("abc");
    let mut field = StringField::new(&seed, 4);
    field.handle_key_event(Key::Char('d'));
    field.handle_key_event(Key::Char('e'));
    assert_eq!(field.get_value(), "abcd");
    field.handle_key_event(Key::Backspace);
    assert_eq!(field.get_value(), "abc");
}

#[test]
fn string_field_backspace_on_empty_is_a_no_op() {
    let seed = String::new();
    let mut field = StringField::new(&seed, 4);
    field.handle_key_event(Key::Backspace);
    assert_eq!(field.get_value(), "");
}

#[test]
fn category_field_steps_cyclically() {
    let mut field = CategoryField::new(Category::Other);
    field.handle_key_event(Key::Right);
    assert_eq!(field.value(), Category::Housing);
    field.handle_key_event(Key::Left);
    assert_eq!(field.value(), Category::Other);
    field.handle_key_event(Key::Char(';'));
    assert_eq!(field.value(), Category::Housing);
    field.handle_key_event(Key::Char('j'));
    assert_eq!(field.value(), Category::Other);
    field.handle_key_event(Key::Char('x'));
    assert_eq!(field.value(), Category::Other);
}

#[test]
fn form_seeds_missing_category_with_other() {
    let mut t = original();
    t.group = None;
    let form = PopupForm::new(t);
    assert_eq!(form.category.selected, Category::Other);
}
