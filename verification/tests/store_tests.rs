use record_store::record::Record;
use record_store::store::{Direction, Store};

fn rec(id: &str, brand: &str, name: &str, price: i64) -> Record {
    Record::new(id.to_owned(), brand.to_owned(), name.to_owned(), price)
}

#[test]
fn new_store_is_empty_with_no_selection() {
    let s = Store::new();
    assert_eq!(s.len(), 0);
    assert_eq!(s.cursor(), 0);
    assert!(s.show().is_none());
}

#[test]
fn round_trip_preserves_all_fields() {
    let mut s = Store::new();
    s.ingest(rec("x1", "Nike", "Air", 120));
    let shown = s.show().expect("a record is selected after ingest");
    assert_eq!(shown.id, "x1");
    assert_eq!(shown.brand, "Nike");
    assert_eq!(shown.name, "Air");
    assert_eq!(shown.price, 120);
}

#[test]
fn ingest_advances_cursor_and_selects_newest() {
    let mut s = Store::new();
    s.ingest(rec("a", "Nike", "Air", 1));
    assert_eq!(s.cursor(), 1);
    s.ingest(rec("b", "Adidas", "Gazelle", 2));
    assert_eq!(s.cursor(), 2);
    s.ingest(rec("c", "Puma", "Suede", 3));
    assert_eq!(s.cursor(), 3);
    assert_eq!(s.len(), 3);
    let shown = s.show().expect("newest record selected");
    assert_eq!(shown.id, "c");
    assert_eq!(shown.price, 3);
}

#[test]
fn negative_and_extreme_prices_are_kept() {
    let mut s = Store::new();
    s.ingest(rec("min", "b", "n", i64::MIN));
    assert_eq!(s.show().unwrap().price, i64::MIN);
    s.ingest(rec("max", "b", "n", i64::MAX));
    assert_eq!(s.show().unwrap().price, i64::MAX);
}

#[test]
fn duplicate_id_appends_to_order_and_overwrites_lookup() {
    let mut s = Store::new();
    s.ingest(rec("a", "Nike", "Air", 1));
    s.ingest(rec("a", "Nike", "Air Max", 2));
    // The order grew, even though the id repeats.
    assert_eq!(s.len(), 2);
    assert_eq!(s.cursor(), 2);
    // Both positions resolve to the latest record with that id.
    let at_second = s.show().expect("selection at position 2");
    assert_eq!(at_second.name, "Air Max");
    assert_eq!(at_second.price, 2);
    let at_first = s.navigate(Direction::Previous).expect("selection at position 1");
    assert_eq!(s.cursor(), 1);
    assert_eq!(at_first.name, "Air Max");
    assert_eq!(at_first.price, 2);
}

#[test]
fn navigate_returns_what_show_returns() {
    let mut s = Store::new();
    s.ingest(rec("a", "Nike", "Air", 1));
    s.ingest(rec("b", "Adidas", "Gazelle", 2));
    let from_navigate = s.navigate(Direction::Previous).expect("record at position 1");
    let from_show = s.show().expect("record at position 1");
    assert_eq!(from_navigate.id, from_show.id);
    assert_eq!(from_navigate.brand, from_show.brand);
    assert_eq!(from_navigate.name, from_show.name);
    assert_eq!(from_navigate.price, from_show.price);
}
