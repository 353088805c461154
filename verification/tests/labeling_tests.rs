use easymoney::labeling::FieldMap;
use easymoney::models::Category;

#[test]
fn lookup_matches_any_key_fragment_case_insensitively() {
    let map = FieldMap::<Category>::new();
    let title = String::from("UBER *TRIP 1234");
    assert_eq!(map.get(&title), Some(&Category::Transportation));
    let title = String::from("no match here");
    assert_eq!(map.get(&title), None);
}

#[test]
fn builtin_dictionary_seeds_common_fragments() {
    let map = FieldMap::<Category>::new();
    assert_eq!(map.get(&String::from("IFOOD delivery")), Some(&Category::Food));
    assert_eq!(map.get(&String::from("Supermercado Big")), Some(&Category::Supermarket));
    assert_eq!(map.get(&String::from("spotify family")), Some(&Category::Personal));
    assert_eq!(map.get(&String::from("Airbnb stay")), Some(&Category::Trips));
}

#[test]
fn record_lower_cases_the_key_and_wins_over_older_entries() {
    let mut map = FieldMap::<Category>::new();
    map.insert(&String::from("UBER eats"), Some(Category::Food));
    // the fresh, more specific correction is consulted first
    assert_eq!(map.get(&String::from("Uber Eats order")), Some(&Category::Food));
    // plain rides still hit the built-in fragment
    assert_eq!(map.get(&String::from("Uber trip")), Some(&Category::Transportation));
}

#[test]
fn inserting_none_changes_nothing() {
    let mut map = FieldMap::<Category>::new();
    let before = map.entries().len();
    map.insert(&String::from("whatever"), None);
    assert_eq!(map.entries().len(), before);
}

#[test]
fn insert_overwrites_an_existing_key() {
    let mut map = FieldMap::<String>::new();
    map.insert(&String::from("Coffee"), Some(String::from("Cafe")));
    map.insert(&String::from("COFFEE"), Some(String::from("Espresso")));
    assert_eq!(map.entries().len(), 1);
    assert_eq!(map.get(&String::from("coffee beans")), Some(&String::from("Espresso")));
}

// entries written via record, persisted as rows and reloaded reproduce
// the same lookups
#[test]
fn roundtrip_record_persist_reload() {
    let mut map = FieldMap::<Category>::new();
    map.insert(&String::from("uber"), Some(Category::Transportation));
    // persist: read the rows out, as the storage gateway would
    let rows: Vec<(String, Category)> =
        map.entries().iter().map(|e| (e.0.clone(), e.1)).collect();
    // reload into a fresh map
    let reloaded = FieldMap::<Category>::from_rows(rows);
    assert_eq!(
        reloaded.get(&String::from("Uber Eats receipt")),
        Some(&Category::Transportation)
    );
    assert_eq!(
        map.get(&String::from("Uber Eats receipt")),
        Some(&Category::Transportation)
    );
    assert_eq!(reloaded.entries().len(), map.entries().len());
}

#[test]
fn from_rows_keeps_the_first_of_duplicate_keys() {
    let rows = vec![
        (String::from("a"), String::from("first")),
        (String::from("b"), String::from("middle")),
        (String::from("a"), String::from("second")),
    ];
    let map = FieldMap::<String>::from_rows(rows);
    assert_eq!(map.entries().len(), 2);
    assert_eq!(map.get(&String::from("a")), Some(&String::from("first")));
}

#[test]
fn title_alias_map_starts_empty() {
    let map = FieldMap::<String>::new();
    assert_eq!(map.entries().len(), 0);
    assert_eq!(map.get(&String::from("anything")), None);
}
