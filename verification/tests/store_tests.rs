use quote_server::error::ErrorKind;
use quote_server::import::import;
use quote_server::quote::{JsonQuote, Quote};
use quote_server::store::Store;

fn quote(id: i64, body: &str, author: &str) -> Quote {
    Quote { id, quote: body.to_string(), author: author.to_string() }
}

fn record(id: i64, body: &str, author: &str) -> JsonQuote {
    JsonQuote { id, quote: body.to_string(), author: author.to_string() }
}

#[test]
fn empty_store_has_nothing() {
    let store = Store::new();
    assert_eq!(store.len(), 0);
    assert!(matches!(store.fetch_by_id(1), Err(ErrorKind::NotFound)));
    assert!(matches!(store.fetch_random_id(0), Err(ErrorKind::NotFound)));
}

#[test]
fn insert_then_fetch_round_trip() {
    let mut store = Store::new();
    assert!(store.insert_if_absent(quote(5, "Five", "Author Five")));
    let got = store.fetch_by_id(5).unwrap();
    assert_eq!(got.id, 5);
    assert_eq!(got.quote, "Five");
    assert_eq!(got.author, "Author Five");
}

#[test]
fn fetch_missing_id_is_not_found() {
    let mut store = Store::new();
    store.insert_if_absent(quote(1, "One", "A"));
    assert!(matches!(store.fetch_by_id(2), Err(ErrorKind::NotFound)));
    assert!(matches!(store.fetch_by_id(-1), Err(ErrorKind::NotFound)));
}

#[test]
fn insert_existing_id_is_a_no_op() {
    let mut store = Store::new();
    assert!(store.insert_if_absent(quote(1, "One", "A")));
    assert!(!store.insert_if_absent(quote(1, "Other body", "B")));
    assert_eq!(store.len(), 1);
    let got = store.fetch_by_id(1).unwrap();
    assert_eq!(got.quote, "One");
    assert_eq!(got.author, "A");
}

#[test]
fn random_id_is_always_present() {
    let mut store = Store::new();
    store.insert_if_absent(quote(10, "Ten", "A"));
    store.insert_if_absent(quote(20, "Twenty", "B"));
    store.insert_if_absent(quote(30, "Thirty", "C"));
    for pick in 0..12 {
        let id = store.fetch_random_id(pick).unwrap();
        assert!(store.fetch_by_id(id).is_ok());
    }
}

#[test]
fn import_loads_every_record() {
    let mut store = Store::new();
    let batch = vec![record(1, "A", "Auth1"), record(2, "B", "Auth2"), record(3, "C", "Auth3")];
    let out = import(&mut store, &batch);
    assert_eq!(out.inserted, 3);
    assert_eq!(out.skipped, 0);
    assert_eq!(out.failed, 0);
    assert_eq!(store.len(), 3);
    for r in &batch {
        let got = store.fetch_by_id(r.id).unwrap();
        assert_eq!(got.quote, r.quote);
        assert_eq!(got.author, r.author);
    }
}

#[test]
fn import_twice_is_idempotent() {
    let mut store = Store::new();
    let batch = vec![record(1, "A", "Auth1"), record(2, "B", "Auth2")];
    let first = import(&mut store, &batch);
    assert_eq!(first.inserted, 2);
    let second = import(&mut store, &batch);
    assert_eq!(second.inserted, 0);
    assert_eq!(second.skipped, 2);
    assert_eq!(second.failed, 0);
    assert_eq!(store.len(), 2);
    let one = store.fetch_by_id(1).unwrap();
    assert_eq!(one.quote, "A");
    assert_eq!(one.author, "Auth1");
    let two = store.fetch_by_id(2).unwrap();
    assert_eq!(two.quote, "B");
    assert_eq!(two.author, "Auth2");
}

#[test]
fn import_isolates_a_bad_record() {
    // record 2 of 3 collides with an id inserted earlier in the same batch
    let mut store = Store::new();
    let batch = vec![record(1, "A", "Auth1"), record(1, "A again", "Auth1"), record(3, "C", "Auth3")];
    let out = import(&mut store, &batch);
    assert_eq!(out.inserted, 2);
    assert_eq!(out.skipped, 1);
    assert_eq!(out.failed, 0);
    assert!(store.fetch_by_id(1).is_ok());
    assert!(store.fetch_by_id(3).is_ok());
    assert_eq!(store.len(), 2);
}

#[test]
fn import_on_top_of_existing_rows() {
    let mut store = Store::new();
    store.insert_if_absent(quote(1, "Old", "Kept"));
    let batch = vec![record(1, "New", "Dropped"), record(2, "B", "Auth2")];
    let out = import(&mut store, &batch);
    assert_eq!(out.inserted, 1);
    assert_eq!(out.skipped, 1);
    let kept = store.fetch_by_id(1).unwrap();
    assert_eq!(kept.quote, "Old");
    assert_eq!(kept.author, "Kept");
}
