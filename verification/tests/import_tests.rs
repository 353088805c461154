use easymoney::import::check_kind;
use easymoney::import::normalize_credit_row;
use easymoney::import::normalize_debit_row;
use easymoney::import::shorten_description;
use easymoney::import::trim;
use easymoney::import::CsvType;
use easymoney::models::Date;
use easymoney::models::Kind;

fn day() -> Date {
    Date { year: 2024, month: 6, day: 1 }
}

#[test]
fn three_columns_are_credit_four_are_debit() {
    assert_eq!(check_kind(3), Some(CsvType::Credit));
    assert_eq!(check_kind(4), Some(CsvType::Debit));
    assert_eq!(check_kind(2), None);
    assert_eq!(check_kind(5), None);
}

// a credit row of -42.00 becomes a positive CreditPurchase
#[test]
fn credit_purchase_flips_the_sign() {
    let t = normalize_credit_row(day(), "Padaria", -4200);
    assert_eq!(t.kind, Kind::CreditPurchase);
    assert_eq!(t.amount, 4200);
    assert_eq!(t.title, "Padaria");
    assert_eq!(t.date, day());
}

#[test]
fn credit_bill_payment_flips_the_sign_too() {
    let t = normalize_credit_row(day(), "Payment received", 10000);
    assert_eq!(t.kind, Kind::CreditBillPayment);
    assert_eq!(t.amount, -10000);
}

// a debit row of 1500.00 is income
#[test]
fn debit_income_keeps_the_sign() {
    let t = normalize_debit_row(day(), 150000, "Pix - Employer Ltd - salary").unwrap();
    assert_eq!(t.kind, Kind::Income);
    assert_eq!(t.amount, 150000);
    assert_eq!(t.title, "Employer Ltd");
}

#[test]
fn debit_outflow_is_a_purchase() {
    let t = normalize_debit_row(day(), -7050, "Card - Corner store").unwrap();
    assert_eq!(t.kind, Kind::DebitPurchase);
    assert_eq!(t.amount, -7050);
    assert_eq!(t.title, "Corner store");
}

#[test]
fn debit_row_without_a_dash_is_rejected() {
    assert!(normalize_debit_row(day(), -100, "plain description").is_none());
}

#[test]
fn shorten_takes_the_second_dash_field() {
    assert_eq!(shorten_description("a - b - c"), Some(String::from(" b ")));
    assert_eq!(shorten_description("a-"), Some(String::from("")));
    assert_eq!(shorten_description("nodash"), None);
}

#[test]
fn trim_strips_spaces_on_both_ends() {
    assert_eq!(trim("  padded title  "), "padded title");
    assert_eq!(trim("none"), "none");
    assert_eq!(trim("   "), "");
    assert_eq!(trim(""), "");
}

#[test]
fn zero_amount_debit_is_a_purchase() {
    let t = normalize_debit_row(day(), 0, "x - y").unwrap();
    assert_eq!(t.kind, Kind::DebitPurchase);
    assert_eq!(t.amount, 0);
}
